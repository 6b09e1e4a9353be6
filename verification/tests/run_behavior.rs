use grr::modes::ModeSet;
use grr::run::{exit_status, run};

fn modes(count: bool, quiet: bool, insensitive: bool, unix_timestamp: bool) -> ModeSet {
    ModeSet { count, quiet, insensitive, unix_timestamp }
}

fn output(pattern: &str, ms: &ModeSet, content: &str) -> (Vec<String>, bool) {
    let outcome = run(pattern, ms, content).expect("pattern should compile");
    (outcome.lines, outcome.success)
}

#[test]
fn no_flags_prints_matches_collapsed_in_order() {
    let ms = modes(false, false, false, false);
    let (lines, success) = output("foo", &ms, "foo   bar\nskip me\nfoo\t\tbaz\n");
    assert_eq!(lines, vec!["foo bar".to_string(), "foo baz".to_string()]);
    assert!(success);
    assert_eq!(exit_status(success), 0);
}

#[test]
fn no_flags_non_matching_lines_are_silent() {
    let ms = modes(false, false, false, false);
    let (lines, success) = output("zzz", &ms, "aaa\nbbb\n");
    assert!(lines.is_empty());
    assert!(success);
    assert_eq!(exit_status(success), 0);
}

#[test]
fn identical_runs_are_identical() {
    let ms = modes(true, false, false, false);
    let first = output("b", &ms, "abc\nbcd\nxyz\n");
    let second = output("b", &ms, "abc\nbcd\nxyz\n");
    assert_eq!(first.0, second.0);
    assert_eq!(first.1, second.1);
}

#[test]
fn count_mode_prints_the_number_of_matches() {
    let ms = modes(true, false, false, false);
    let (lines, success) = output("a", &ms, "a\nb\nca\n");
    assert_eq!(lines, vec!["2".to_string()]);
    assert!(success);
    assert_eq!(exit_status(success), 0);
}

#[test]
fn count_mode_zero_matches_still_succeeds() {
    let ms = modes(true, false, false, false);
    let (lines, success) = output("q", &ms, "a\nb\n");
    assert_eq!(lines, vec!["0".to_string()]);
    assert!(success);
    assert_eq!(exit_status(success), 0);
}

#[test]
fn quiet_mode_prints_nothing_and_signals_a_match() {
    let ms = modes(false, true, false, false);
    let (lines, success) = output("b", &ms, "abc\n");
    assert!(lines.is_empty());
    assert!(success);
    assert_eq!(exit_status(success), 0);
}

#[test]
fn quiet_mode_fails_without_a_match() {
    let ms = modes(false, true, false, false);
    let (lines, success) = output("q", &ms, "abc\n");
    assert!(lines.is_empty());
    assert!(!success);
    assert_eq!(exit_status(success), 1);
}

#[test]
fn insensitive_flag_decides_whether_case_differs() {
    let sensitive = modes(false, false, false, false);
    let (lines, _) = output("ABC", &sensitive, "xx abc yy\n");
    assert!(lines.is_empty());

    let insensitive = modes(false, false, true, false);
    let (lines, success) = output("ABC", &insensitive, "xx abc yy\n");
    assert_eq!(lines, vec!["xx abc yy".to_string()]);
    assert!(success);
}

#[test]
fn unix_timestamp_mode_formats_a_seconds_epoch() {
    let ms = modes(false, false, false, true);
    let (lines, success) = output("event", &ms, "1700000000 some event\n");
    assert_eq!(lines, vec!["2023-11-14 22:13:20.000000000 | some event".to_string()]);
    assert!(success);
}

#[test]
fn unix_timestamp_mode_divides_a_milliseconds_epoch() {
    let ms = modes(false, false, false, true);
    let (lines, _) = output("event", &ms, "4102444800000 event\n");
    assert_eq!(lines, vec!["2100-01-01 00:00:00.000000000 | event".to_string()]);
}

#[test]
fn unix_timestamp_mode_falls_back_on_a_non_numeric_token() {
    let ms = modes(false, false, false, true);
    let (lines, _) = output("event", &ms, "notanumber: event\n");
    assert_eq!(lines, vec!["notanumber: event".to_string()]);
}

#[test]
fn unix_timestamp_mode_strips_colons_from_the_first_token() {
    let ms = modes(false, false, false, true);
    let (lines, _) = output("boom", &ms, "12:34:56 boom\n");
    assert_eq!(lines, vec!["1970-01-02 10:17:36.000000000 | boom".to_string()]);
}

#[test]
fn unix_timestamp_mode_accepts_a_plus_prefixed_token() {
    let ms = modes(false, false, false, true);
    let (lines, _) = output("x", &ms, "+5 x\n");
    assert_eq!(lines, vec!["1970-01-01 00:00:05.000000000 | x".to_string()]);
}

#[test]
fn count_and_quiet_follow_quiet_finish_semantics() {
    let ms = modes(true, true, false, false);

    let (lines, success) = output("a", &ms, "a\nb\n");
    assert_eq!(lines, vec!["1".to_string()]);
    assert!(success);
    assert_eq!(exit_status(success), 0);

    let (lines, success) = output("q", &ms, "a\nb\n");
    assert_eq!(lines, vec!["0".to_string()]);
    assert!(!success);
    assert_eq!(exit_status(success), 1);
}

#[test]
fn quiet_with_unix_timestamp_is_overwritten_to_success() {
    let ms = modes(false, true, false, true);
    let (lines, success) = output("q", &ms, "a\nb\n");
    assert!(lines.is_empty());
    assert!(success);
    assert_eq!(exit_status(success), 0);
}

#[test]
fn an_invalid_pattern_is_rejected_before_any_line() {
    let ms = modes(false, false, false, false);
    let err = run("(", &ms, "anything\n").err().expect("should be rejected");
    assert!(!err.message.is_empty());
}

#[test]
fn empty_content_has_no_lines() {
    let ms = modes(true, false, false, false);
    let (lines, success) = output("a", &ms, "");
    assert_eq!(lines, vec!["0".to_string()]);
    assert!(success);
}

#[test]
fn crlf_line_endings_are_stripped() {
    let ms = modes(false, false, false, false);
    let (lines, _) = output("foo", &ms, "foo  bar\r\nfoo\r\n");
    assert_eq!(lines, vec!["foo bar".to_string(), "foo".to_string()]);
}
