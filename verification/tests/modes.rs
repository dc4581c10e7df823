use playback_engine::modes::{next_index, PlaybackMode};
use playback_engine::ui::{
    default_bg_color, default_text_color, default_ui_bg_color, format_time, Language,
};

#[test]
fn order_mode_advances_then_stops() {
    assert_eq!(next_index(PlaybackMode::Order, None, 3), Some(0));
    assert_eq!(next_index(PlaybackMode::Order, Some(0), 3), Some(1));
    assert_eq!(next_index(PlaybackMode::Order, Some(1), 3), Some(2));
    assert_eq!(next_index(PlaybackMode::Order, Some(2), 3), None);
}

#[test]
fn list_loop_wraps_around() {
    assert_eq!(next_index(PlaybackMode::ListLoop, None, 3), Some(0));
    assert_eq!(next_index(PlaybackMode::ListLoop, Some(1), 3), Some(2));
    assert_eq!(next_index(PlaybackMode::ListLoop, Some(2), 3), Some(0));
}

#[test]
fn single_loop_repeats_the_current_track() {
    assert_eq!(next_index(PlaybackMode::SingleLoop, Some(1), 3), Some(1));
    assert_eq!(next_index(PlaybackMode::SingleLoop, None, 3), None);
}

#[test]
fn single_mode_always_stops() {
    assert_eq!(next_index(PlaybackMode::Single, Some(1), 3), None);
    assert_eq!(next_index(PlaybackMode::Single, None, 3), None);
}

#[test]
fn empty_playlist_has_no_next() {
    assert_eq!(next_index(PlaybackMode::Order, None, 0), None);
    assert_eq!(next_index(PlaybackMode::ListLoop, None, 0), None);
}

#[test]
fn mode_labels_in_both_languages() {
    assert_eq!(PlaybackMode::Order.as_str(Language::English), "Order");
    assert_eq!(PlaybackMode::ListLoop.as_str(Language::English), "List Loop");
    assert_eq!(PlaybackMode::SingleLoop.as_str(Language::English), "Single Loop");
    assert_eq!(PlaybackMode::Single.as_str(Language::English), "Single");
    assert_eq!(PlaybackMode::Order.as_str(Language::Chinese), "顺序播放");
    assert_eq!(PlaybackMode::ListLoop.as_str(Language::Chinese), "列表循环");
    assert_eq!(PlaybackMode::SingleLoop.as_str(Language::Chinese), "单曲循环");
    assert_eq!(PlaybackMode::Single.as_str(Language::Chinese), "单曲播放");
}

#[test]
fn language_labels() {
    assert_eq!(Language::Chinese.as_str(), "中文");
    assert_eq!(Language::English.as_str(), "English");
}

#[test]
fn time_formatting() {
    assert_eq!(format_time(0), "00:00");
    assert_eq!(format_time(999), "00:00");
    assert_eq!(format_time(65_000), "01:05");
    assert_eq!(format_time(59_999), "00:59");
    assert_eq!(format_time(600_000), "10:00");
    // minutes widen past two digits on long tracks
    assert_eq!(format_time(7_500_000), "125:00");
}

#[test]
fn default_colors() {
    assert_eq!(default_text_color(), [255, 255, 255, 255]);
    assert_eq!(default_bg_color(), [0, 0, 0, 0]);
    assert_eq!(default_ui_bg_color(), [30, 30, 30, 255]);
}
