use grr::actions::{
    finish_count_mode, finish_mode_noop, finish_mode_returncode, output_line, output_line_counter,
    output_none, resolve_finish, resolve_finish_conjunctive, Inventory,
};
use grr::modes::{resolve_action, ModeSet, PerLineAction};
use grr::timestamp::{output_line_parse_unix_timestamp, parse_unix_ts};

fn modes(count: bool, quiet: bool, insensitive: bool, unix_timestamp: bool) -> ModeSet {
    ModeSet { count, quiet, insensitive, unix_timestamp }
}

#[test]
fn action_precedence_is_fixed() {
    assert!(matches!(resolve_action(&modes(false, false, false, false)), PerLineAction::PlainPrint));
    assert!(matches!(
        resolve_action(&modes(false, false, true, false)),
        PerLineAction::PlainPrint
    ));
    assert!(matches!(
        resolve_action(&modes(false, false, false, true)),
        PerLineAction::TimestampPrint
    ));
    assert!(matches!(resolve_action(&modes(true, false, false, true)), PerLineAction::Counter));
    assert!(matches!(resolve_action(&modes(false, true, false, true)), PerLineAction::Counter));
    assert!(matches!(resolve_action(&modes(true, true, false, false)), PerLineAction::Counter));
}

#[test]
fn output_line_collapses_runs_of_whitespace() {
    let mut inv = Inventory::new();
    assert_eq!(output_line("  a\t\t b   c ", &mut inv), "a b c");
    assert_eq!(output_line("", &mut inv), "");
    assert_eq!(output_line("   ", &mut inv), "");
    assert_eq!(inv.count, 0);
}

#[test]
fn counter_increments_and_noop_does_not() {
    let mut inv = Inventory::new();
    output_line_counter("anything", &mut inv);
    output_line_counter("at all", &mut inv);
    assert_eq!(inv.count, 2);
    output_none("ignored", &mut inv);
    assert_eq!(inv.count, 2);
}

#[test]
fn finish_functions_read_the_counter() {
    let mut inv = Inventory::new();
    assert!(finish_mode_noop(&inv));
    assert!(!finish_mode_returncode(&inv));
    let (line, ok) = finish_count_mode(&inv);
    assert_eq!(line, "0");
    assert!(ok);

    output_line_counter("x", &mut inv);
    assert!(finish_mode_returncode(&inv));
    let (line, ok) = finish_count_mode(&inv);
    assert_eq!(line, "1");
    assert!(ok);
}

#[test]
fn finish_resolution_overwrites_while_the_conjunction_does_not() {
    let inv = Inventory::new();
    let quiet_then_ts = modes(false, true, false, true);
    let (out, flag) = resolve_finish(&quiet_then_ts, &inv);
    assert!(out.is_empty());
    assert!(flag);
    assert!(!resolve_finish_conjunctive(&quiet_then_ts, &inv));

    let count_then_quiet = modes(true, true, false, false);
    let (out, flag) = resolve_finish(&count_then_quiet, &inv);
    assert_eq!(out, vec!["0".to_string()]);
    assert!(!flag);
    assert!(!resolve_finish_conjunctive(&count_then_quiet, &inv));
}

#[test]
fn parse_unix_ts_formats_seconds_and_milliseconds() {
    let s = parse_unix_ts(0).expect("in range");
    assert!(s.starts_with("1970-01-01 00:00:00"));
    let s = parse_unix_ts(1700000000).expect("in range");
    assert!(s.starts_with("2023-11-14 22:13:20"));
    let s = parse_unix_ts(4102444800000).expect("in range");
    assert!(s.starts_with("2100-01-01 00:00:00"));
}

#[test]
fn the_heuristic_cutoff_sits_at_the_32_bit_boundary() {
    let s = parse_unix_ts(4294967295).expect("in range");
    assert!(s.starts_with("2106-02-07 06:28:15"));
    let s = parse_unix_ts(4294967296).expect("in range");
    assert!(s.starts_with("1970-02-19 17:02:47"));
}

#[test]
fn timestamp_rendering_keeps_the_original_first_token_on_fallback() {
    let mut inv = Inventory::new();
    let r = output_line_parse_unix_timestamp("notanumber:  event", &mut inv);
    assert_eq!(r, "notanumber: event");
    let r = output_line_parse_unix_timestamp("", &mut inv);
    assert_eq!(r, "");
    let r = output_line_parse_unix_timestamp("60 a  b", &mut inv);
    assert!(r.starts_with("1970-01-01 00:01:00"));
    assert!(r.ends_with(" | a b"));
    assert_eq!(inv.count, 0);
}
