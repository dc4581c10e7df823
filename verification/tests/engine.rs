use playback_engine::worker::{CommandOutcome, PlaybackWorker, TimingState, STATUS_INTERVAL_MS};

fn load(path: &str, duration_ms: u64) -> CommandOutcome {
    CommandOutcome::Loaded { path: String::from(path), duration_ms }
}

#[test]
fn fresh_worker_reports_idle() {
    let w = PlaybackWorker::new(0);
    assert!(!w.timing.is_playing);
    assert!(!w.timing.has_started);
    assert_eq!(w.timing.position_ms(0), 0);
    assert_eq!(w.timing.position_ms(5000), 0);
}

#[test]
fn load_starts_from_zero_and_announces() {
    let mut w = PlaybackWorker::new(0);
    let emit = w.step(load("song.mp3", 180_000), false, 10);
    assert_eq!(emit.started, Some(String::from("song.mp3")));
    assert!(!emit.finished);
    let snap = emit.snapshot.expect("a load forces a snapshot");
    assert_eq!(snap.position_ms, 0);
    assert_eq!(snap.duration_ms, 180_000);
    assert!(snap.is_playing);
    assert!(w.timing.is_playing && w.timing.has_started);
}

#[test]
fn position_advances_with_the_clock() {
    let mut w = PlaybackWorker::new(0);
    w.step(load("song.mp3", 180_000), false, 10);
    assert_eq!(w.timing.position_ms(4_010), 4_000);
    assert_eq!(w.timing.position_ms(10), 0);
}

#[test]
fn pause_resume_accounting_skips_paused_time() {
    let mut w = PlaybackWorker::new(0);
    w.step(load("song.mp3", 300_000), false, 0);
    // play 5 s, pause 3 s, play 4 s more
    w.step(CommandOutcome::PauseCmd { device_paused: false }, false, 5_000);
    assert_eq!(w.timing.position_ms(5_000), 5_000);
    // while paused the position holds still
    assert_eq!(w.timing.position_ms(7_999), 5_000);
    w.step(CommandOutcome::ResumeFromPause, false, 8_000);
    assert_eq!(w.timing.position_ms(12_000), 9_000);
}

#[test]
fn second_pause_is_a_no_op() {
    let mut w = PlaybackWorker::new(0);
    w.step(load("song.mp3", 300_000), false, 0);
    w.step(CommandOutcome::PauseCmd { device_paused: false }, false, 1_000);
    let paused_at = w.timing.pause_start;
    let acc = w.timing.accumulated_pause;
    let playing = w.timing.is_playing;
    // the device now reports itself paused, so a second pause changes nothing
    let emit = w.step(CommandOutcome::PauseCmd { device_paused: true }, false, 2_000);
    assert_eq!(w.timing.pause_start, paused_at);
    assert_eq!(w.timing.accumulated_pause, acc);
    assert_eq!(w.timing.is_playing, playing);
    // but it still forces a snapshot
    assert!(emit.snapshot.is_some());
}

#[test]
fn seek_beyond_duration_clamps_to_duration() {
    let mut w = PlaybackWorker::new(0);
    w.step(load("song.mp3", 200_000), false, 0);
    w.step(CommandOutcome::SeekApplied { target_ms: 250_000 }, false, 1_000);
    assert_eq!(w.timing.position_ms(1_000), 200_000);
    assert_eq!(w.timing.position_ms(60_000), 200_000);
}

#[test]
fn seek_while_paused_holds_at_target() {
    let mut w = PlaybackWorker::new(0);
    w.step(load("song.mp3", 200_000), false, 0);
    w.step(CommandOutcome::PauseCmd { device_paused: false }, false, 4_000);
    w.step(CommandOutcome::SeekApplied { target_ms: 30_000 }, false, 6_000);
    // still paused: the position shows the target and does not advance
    assert!(!w.timing.is_playing);
    assert_eq!(w.timing.position_ms(6_000), 30_000);
    assert_eq!(w.timing.position_ms(9_000), 30_000);
}

#[test]
fn seek_while_playing_resumes_from_target() {
    let mut w = PlaybackWorker::new(0);
    w.step(load("song.mp3", 200_000), false, 0);
    w.step(CommandOutcome::SeekApplied { target_ms: 30_000 }, false, 6_000);
    assert!(w.timing.is_playing);
    assert_eq!(w.timing.position_ms(6_000), 30_000);
    assert_eq!(w.timing.position_ms(8_500), 32_500);
}

#[test]
fn replay_after_stop_restarts_at_zero() {
    let mut w = PlaybackWorker::new(0);
    w.step(load("song.mp3", 200_000), false, 0);
    w.step(CommandOutcome::StopCmd, false, 9_000);
    assert!(!w.timing.is_playing);
    assert_eq!(w.timing.position_ms(9_500), 0);
    // a stopped sink is drained, so resume means replay of the kept path
    assert!(w.timing.resume_is_replay(true));
    assert_eq!(w.timing.last_path(), Some(&String::from("song.mp3")));
    let emit = w.step(CommandOutcome::ReplayLoaded { duration_ms: 200_000 }, false, 10_000);
    // a replay restarts quietly: no started announcement, just a snapshot
    assert_eq!(emit.started, None);
    assert!(emit.snapshot.is_some());
    assert!(w.timing.is_playing);
    assert_eq!(w.timing.position_ms(10_000), 0);
    assert_eq!(w.timing.position_ms(11_000), 1_000);
}

#[test]
fn resume_is_not_replay_without_a_path() {
    let t = TimingState::new();
    assert!(!t.resume_is_replay(true));
    assert!(!t.resume_is_replay(false));
}

#[test]
fn finished_emitted_exactly_once() {
    let mut w = PlaybackWorker::new(0);
    w.step(load("song.mp3", 1_000), false, 0);
    // the device drains: one finished event, displacing the snapshot
    let emit = w.step(CommandOutcome::NoCommand, true, 1_050);
    assert!(emit.finished);
    assert!(emit.snapshot.is_none());
    assert!(!w.timing.has_started);
    assert!(!w.timing.is_playing);
    // the device stays drained: no second finished event, and every
    // snapshot from now on reports not playing
    let emit2 = w.step(CommandOutcome::NoCommand, true, 1_200);
    assert!(!emit2.finished);
    if let Some(snap) = emit2.snapshot {
        assert!(!snap.is_playing);
    }
    let emit3 = w.step(CommandOutcome::NoCommand, true, 1_400);
    assert!(!emit3.finished);
    let snap = emit3.snapshot.expect("throttle interval has passed");
    assert!(!snap.is_playing);
}

#[test]
fn no_finished_before_playback_started() {
    let mut w = PlaybackWorker::new(0);
    // an empty device before any load means nothing: the signal is
    // ambiguous until a stream has been appended
    let emit = w.step(CommandOutcome::NoCommand, true, 200);
    assert!(!emit.finished);
}

#[test]
fn snapshots_throttle_to_the_interval() {
    let mut w = PlaybackWorker::new(0);
    w.step(load("song.mp3", 60_000), false, 0);
    // just after the forced snapshot: too early for a routine one
    assert!(w.step(CommandOutcome::NoCommand, false, 40).snapshot.is_none());
    assert!(w.step(CommandOutcome::NoCommand, false, 99).snapshot.is_none());
    // the interval has elapsed
    let emit = w.step(CommandOutcome::NoCommand, false, STATUS_INTERVAL_MS).snapshot;
    assert!(emit.is_some());
    // and the timer restarts from the emission
    assert!(w.step(CommandOutcome::NoCommand, false, 180).snapshot.is_none());
    assert!(w.step(CommandOutcome::NoCommand, false, 200).snapshot.is_some());
}

#[test]
fn every_command_forces_a_snapshot() {
    let mut w = PlaybackWorker::new(0);
    w.step(load("song.mp3", 60_000), false, 0);
    // mid-interval, but a processed command outranks the throttle
    let emit = w.step(CommandOutcome::VolumeCmd, false, 10);
    assert!(emit.snapshot.is_some());
    let emit = w.step(CommandOutcome::PauseCmd { device_paused: false }, false, 20);
    assert!(emit.snapshot.is_some());
    let emit = w.step(CommandOutcome::ResumeFromPause, false, 30);
    assert!(emit.snapshot.is_some());
    // even a failed load reports, so the caller sees fresh state
    let emit = w.step(CommandOutcome::LoadFailed, false, 40);
    assert!(emit.started.is_none());
    assert!(emit.snapshot.is_some());
}

#[test]
fn failed_load_changes_nothing() {
    let mut w = PlaybackWorker::new(0);
    w.step(load("song.mp3", 60_000), false, 0);
    w.step(CommandOutcome::LoadFailed, false, 500);
    assert_eq!(w.timing.last_path(), Some(&String::from("song.mp3")));
    assert_eq!(w.timing.total_duration, 60_000);
    assert!(w.timing.is_playing);
    assert_eq!(w.timing.position_ms(1_000), 1_000);
}

#[test]
fn unknown_duration_is_never_clamped() {
    let mut w = PlaybackWorker::new(0);
    w.step(load("stream.mp3", 0), false, 0);
    assert_eq!(w.timing.position_ms(3_600_000), 3_600_000);
}
