use playback_engine::consumer::{Interpolator, SEEK_TOLERANCE_MS};

#[test]
fn fresh_consumer_displays_zero() {
    let c = Interpolator::new();
    assert!(!c.is_playing);
    assert_eq!(c.display_position(0), 0);
    assert_eq!(c.display_position(10_000), 0);
}

#[test]
fn snapshot_adopts_position_and_syncs() {
    let mut c = Interpolator::new();
    c.apply_snapshot(12_000, 180_000, true, 500);
    assert_eq!(c.current_position, 12_000);
    assert_eq!(c.total_duration, 180_000);
    assert!(c.is_playing);
    assert_eq!(c.last_sync_time, Some(500));
}

#[test]
fn display_interpolates_between_snapshots() {
    let mut c = Interpolator::new();
    c.apply_snapshot(12_000, 180_000, true, 500);
    assert_eq!(c.display_position(500), 12_000);
    assert_eq!(c.display_position(1_300), 12_800);
}

#[test]
fn display_clamps_to_duration() {
    let mut c = Interpolator::new();
    c.apply_snapshot(179_900, 180_000, true, 0);
    assert_eq!(c.display_position(5_000), 180_000);
}

#[test]
fn display_holds_still_while_paused() {
    let mut c = Interpolator::new();
    c.apply_snapshot(42_000, 180_000, false, 0);
    assert_eq!(c.display_position(9_000), 42_000);
}

#[test]
fn drag_overrides_incoming_snapshots() {
    let mut c = Interpolator::new();
    c.apply_snapshot(10_000, 180_000, true, 0);
    c.begin_seek();
    c.drag_to(90_000);
    // the worker's stale position must not move the slider mid-drag
    c.apply_snapshot(11_000, 180_000, true, 100);
    assert_eq!(c.current_position, 90_000);
    // duration and playing state still flow through
    assert_eq!(c.total_duration, 180_000);
    assert!(c.is_playing);
    // no interpolation drift during the drag
    assert_eq!(c.display_position(5_000), 90_000);
}

#[test]
fn seek_reconciliation_converges_within_tolerance() {
    let mut c = Interpolator::new();
    c.apply_snapshot(10_000, 180_000, true, 0);
    c.begin_seek();
    c.drag_to(42_000);
    c.end_seek(42_000);
    assert_eq!(c.seek_target, Some(42_000));
    // a stale report far from the target is ignored for display
    c.apply_snapshot(10_100, 180_000, true, 50);
    assert_eq!(c.seek_target, Some(42_000));
    assert_eq!(c.current_position, 42_000);
    assert_eq!(c.display_position(60), 42_000);
    // the worker reports 41.6 s: within the 1 s tolerance, so accepted
    assert!(42_000 - 41_600 < SEEK_TOLERANCE_MS);
    c.apply_snapshot(41_600, 180_000, true, 200);
    assert_eq!(c.seek_target, None);
    assert_eq!(c.current_position, 41_600);
    assert_eq!(c.last_sync_time, Some(200));
    // display tracks worker-reported values again
    assert_eq!(c.display_position(1_200), 42_600);
}

#[test]
fn pending_seek_target_suppresses_interpolation() {
    let mut c = Interpolator::new();
    c.apply_snapshot(10_000, 180_000, true, 0);
    c.end_seek(42_000);
    c.drag_to(42_000);
    assert_eq!(c.display_position(99_999), 42_000);
}

#[test]
fn started_resets_position() {
    let mut c = Interpolator::new();
    c.apply_snapshot(170_000, 180_000, true, 0);
    c.mark_started(1_000);
    assert_eq!(c.current_position, 0);
    assert!(c.is_playing);
    assert_eq!(c.last_sync_time, Some(1_000));
    assert_eq!(c.display_position(1_500), 500);
}

#[test]
fn local_pause_and_stop_feedback() {
    let mut c = Interpolator::new();
    c.apply_snapshot(10_000, 180_000, true, 0);
    c.mark_paused();
    assert!(!c.is_playing);
    assert_eq!(c.display_position(9_000), 10_000);
    c.mark_stopped();
    assert_eq!(c.current_position, 0);
    assert_eq!(c.display_position(9_000), 0);
}

#[test]
fn local_resume_keeps_the_held_position() {
    let mut c = Interpolator::new();
    c.apply_snapshot(10_000, 180_000, true, 0);
    c.mark_paused();
    c.mark_resumed(5_000);
    assert!(c.is_playing);
    assert_eq!(c.current_position, 10_000);
    assert_eq!(c.display_position(5_500), 10_500);
}

#[test]
fn unknown_duration_displays_zero() {
    // before any track length is known the display pins to the empty range
    let mut c = Interpolator::new();
    c.apply_snapshot(5_000, 0, true, 0);
    assert_eq!(c.display_position(1_000), 0);
}
