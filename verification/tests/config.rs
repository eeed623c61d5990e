use ksysguard_sensord::config::{
    eq_ignore_ascii_case, get_sensor_kind, get_value_kind, MonitorKind, ValueKind,
    DEFAULT_PORT, DEFAULT_UPDATE_INTERVAL,
};
use ksysguard_sensord::text::{join_with, split_char, splitn3_char, starts_with, str_eq, trim};

#[test]
fn sensor_kind_defaults_to_polling() {
    assert_eq!(get_sensor_kind("listening"), MonitorKind::Listening);
    assert_eq!(get_sensor_kind("LISTENING"), MonitorKind::Listening);
    assert_eq!(get_sensor_kind("polling"), MonitorKind::Polling);
    assert_eq!(get_sensor_kind("anything"), MonitorKind::Polling);
    assert_eq!(get_sensor_kind(""), MonitorKind::Polling);
}

#[test]
fn value_kind_defaults_to_single() {
    assert_eq!(get_value_kind("multi"), ValueKind::Multi);
    assert_eq!(get_value_kind("Multi"), ValueKind::Multi);
    assert_eq!(get_value_kind("single"), ValueKind::Single);
    assert_eq!(get_value_kind(""), ValueKind::Single);
}

#[test]
fn defaults_match_the_protocol() {
    assert_eq!(DEFAULT_PORT, 3112);
    assert_eq!(DEFAULT_UPDATE_INTERVAL, 2);
}

#[test]
fn case_insensitive_comparison() {
    assert!(eq_ignore_ascii_case("QuIt", "quit"));
    assert!(eq_ignore_ascii_case("", ""));
    assert!(!eq_ignore_ascii_case("quit", "quits"));
    assert!(!eq_ignore_ascii_case("quit", "quip"));
}

#[test]
fn trimming_strips_surrounding_whitespace() {
    assert_eq!(trim("  quit \r\n"), "quit".to_string());
    assert_eq!(trim("quit"), "quit".to_string());
    assert_eq!(trim(" \t\n"), "".to_string());
    assert_eq!(trim("a b"), "a b".to_string());
}

#[test]
fn string_equality_and_prefixes() {
    assert!(str_eq("abc", "abc"));
    assert!(!str_eq("abc", "abd"));
    assert!(!str_eq("abc", "ab"));
    assert!(starts_with("test monitors", "test "));
    assert!(!starts_with("test", "test "));
}

#[test]
fn splitting_and_joining() {
    let pieces = split_char("a b  c", ' ');
    assert_eq!(
        pieces,
        vec!["a".to_string(), "b".to_string(), "".to_string(), "c".to_string()]
    );
    assert_eq!(split_char("", ' '), vec!["".to_string()]);
    assert_eq!(join_with(&pieces, " "), "a b  c".to_string());
    assert_eq!(join_with(&Vec::new(), "\n"), "".to_string());

    let three = splitn3_char("0 100 percent of max", ' ', " ");
    assert_eq!(
        three,
        vec!["0".to_string(), "100".to_string(), "percent of max".to_string()]
    );
}
