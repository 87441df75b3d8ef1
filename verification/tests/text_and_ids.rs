use logstats::ids::{collect_ids, parse_log_id};
use logstats::text::{parse_u32, str_le, trim_spaces, u32_to_string, u64_to_string};

#[test]
fn renders_zero() {
    assert_eq!(u64_to_string(0), "0");
}

#[test]
fn renders_boundary_id() {
    assert_eq!(u32_to_string(151744), "151744");
}

#[test]
fn renders_largest_value() {
    assert_eq!(u64_to_string(u64::MAX), "18446744073709551615");
}

#[test]
fn parses_plain_number() {
    assert_eq!(parse_u32("151744"), Some(151744));
}

#[test]
fn parses_largest_fitting_number() {
    assert_eq!(parse_u32("4294967295"), Some(u32::MAX));
}

#[test]
fn rejects_number_one_past_the_limit() {
    assert_eq!(parse_u32("4294967296"), None);
}

#[test]
fn rejects_empty_and_garbage() {
    assert_eq!(parse_u32(""), None);
    assert_eq!(parse_u32("12a"), None);
    assert_eq!(parse_u32("-5"), None);
    assert_eq!(parse_u32("1 2"), None);
}

#[test]
fn trims_surrounding_whitespace() {
    assert_eq!(trim_spaces("  42\r"), "42");
    assert_eq!(trim_spaces("\t \t"), "");
    assert_eq!(trim_spaces("a b"), "a b");
}

#[test]
fn line_with_spaces_parses() {
    assert_eq!(parse_log_id(" 3000000 \r"), Some(3000000));
    assert_eq!(parse_log_id("   "), None);
    assert_eq!(parse_log_id("log 1"), None);
}

#[test]
fn collects_ids_skipping_bad_lines() {
    let lines: Vec<String> = vec![
        "151744".to_string(),
        "".to_string(),
        "oops".to_string(),
        " 200000 ".to_string(),
        "99999999999".to_string(),
        "7".to_string(),
    ];
    let ids = collect_ids(&lines);
    assert_eq!(ids, vec![151744, 200000, 7]);
}

#[test]
fn orders_strings_by_scalar_value() {
    assert!(str_le("Zeta", "apple"));
    assert!(!str_le("apple", "Zeta"));
    assert!(str_le("apple", "zeta"));
    assert!(str_le("app", "apple"));
    assert!(!str_le("apple", "app"));
    assert!(str_le("same", "same"));
    assert!(str_le("", "a"));
}
