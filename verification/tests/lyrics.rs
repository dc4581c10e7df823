use playback_engine::lrc::{current_line, parse_lrc};

fn entry(ms: u64, text: &str) -> (u64, String) {
    (ms, String::from(text))
}

#[test]
fn parses_minutes_seconds() {
    let r = parse_lrc("[01:05]Hello");
    assert_eq!(r, vec![entry(65_000, "Hello")]);
}

#[test]
fn two_digit_fraction_is_hundredths() {
    let r = parse_lrc("[00:10.50]mid line");
    assert_eq!(r, vec![entry(10_500, "mid line")]);
}

#[test]
fn three_digit_fraction_is_milliseconds() {
    let r = parse_lrc("[00:10.505]x");
    assert_eq!(r, vec![entry(10_505, "x")]);
}

#[test]
fn one_digit_fraction_is_milliseconds() {
    // a single fractional digit is taken as written, not scaled
    let r = parse_lrc("[00:10.5]x");
    assert_eq!(r, vec![entry(10_005, "x")]);
}

#[test]
fn unparsable_fraction_counts_as_zero() {
    let r = parse_lrc("[00:10.ab]x");
    assert_eq!(r, vec![entry(10_000, "x")]);
}

#[test]
fn entries_are_sorted_by_time() {
    let r = parse_lrc("[00:10]second\n[00:05]first\n[00:20]third");
    assert_eq!(
        r,
        vec![entry(5_000, "first"), entry(10_000, "second"), entry(20_000, "third")]
    );
}

#[test]
fn equal_timestamps_keep_reading_order() {
    let r = parse_lrc("[00:05]one\n[00:03]zero\n[00:05]two");
    assert_eq!(r, vec![entry(3_000, "zero"), entry(5_000, "one"), entry(5_000, "two")]);
}

#[test]
fn text_is_trimmed() {
    let r = parse_lrc("[00:01]   spaced out  \r\n[00:02]\ttabbed\t");
    assert_eq!(r, vec![entry(1_000, "spaced out"), entry(2_000, "tabbed")]);
}

#[test]
fn malformed_lines_are_skipped() {
    let content = "no brackets here\n\
                   [00:xx]bad seconds\n\
                   [xx:10]bad minutes\n\
                   [00:10:20]two colons\n\
                   [0010]no colon\n\
                   ]00:10[reversed\n\
                   [00:30]good";
    let r = parse_lrc(content);
    assert_eq!(r, vec![entry(30_000, "good")]);
}

#[test]
fn empty_input_gives_no_entries() {
    assert_eq!(parse_lrc(""), vec![]);
    assert_eq!(parse_lrc("\n\n"), vec![]);
}

#[test]
fn last_line_needs_no_newline() {
    let r = parse_lrc("[00:01]a\n[00:02]b");
    assert_eq!(r, vec![entry(1_000, "a"), entry(2_000, "b")]);
}

#[test]
fn empty_text_is_kept() {
    let r = parse_lrc("[00:07]");
    assert_eq!(r, vec![entry(7_000, "")]);
}

#[test]
fn non_ascii_text_survives() {
    let r = parse_lrc("[00:09]春眠不觉晓");
    assert_eq!(r, vec![entry(9_000, "春眠不觉晓")]);
}

#[test]
fn current_line_follows_the_position() {
    let lyrics = parse_lrc("[00:05]first\n[00:10]second\n[00:20]third");
    assert_eq!(current_line(&lyrics, 0), None);
    assert_eq!(current_line(&lyrics, 4_999), None);
    assert_eq!(current_line(&lyrics, 5_000), Some(0));
    assert_eq!(current_line(&lyrics, 12_345), Some(1));
    assert_eq!(current_line(&lyrics, 20_000), Some(2));
    assert_eq!(current_line(&lyrics, 99_999), Some(2));
    assert_eq!(current_line(&Vec::new(), 1_000), None);
}

#[test]
fn oversized_timestamp_is_rejected() {
    // minutes so large that the millisecond total leaves u64
    let r = parse_lrc("[99999999999999999999:00]too far\n[00:01]ok");
    assert_eq!(r, vec![entry(1_000, "ok")]);
}
