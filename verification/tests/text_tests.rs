use cephylas::text::{compare_names, parse_i64, parse_u64, u64_to_dec, NameOrder};
use cephylas::timefmt::time_of_day_ms;

#[test]
fn parse_u64_accepts_plain_decimals() {
    assert_eq!(parse_u64("0"), Some(0));
    assert_eq!(parse_u64("8640"), Some(8640));
    assert_eq!(parse_u64("18446744073709551615"), Some(u64::MAX));
}

#[test]
fn parse_u64_rejects_malformed_input() {
    assert_eq!(parse_u64(""), None);
    assert_eq!(parse_u64("12a"), None);
    assert_eq!(parse_u64("-5"), None);
    assert_eq!(parse_u64("18446744073709551616"), None);
}

#[test]
fn parse_i64_handles_signs_and_limits() {
    assert_eq!(parse_i64("42"), Some(42));
    assert_eq!(parse_i64("+42"), Some(42));
    assert_eq!(parse_i64("-42"), Some(-42));
    assert_eq!(parse_i64("9223372036854775807"), Some(i64::MAX));
    assert_eq!(parse_i64("-9223372036854775808"), Some(i64::MIN));
    assert_eq!(parse_i64("9223372036854775808"), None);
    assert_eq!(parse_i64("-9223372036854775809"), None);
    assert_eq!(parse_i64(""), None);
    assert_eq!(parse_i64("-"), None);
    assert_eq!(parse_i64("1 2"), None);
}

#[test]
fn u64_to_dec_renders_decimal() {
    assert_eq!(u64_to_dec(0), "0");
    assert_eq!(u64_to_dec(7), "7");
    assert_eq!(u64_to_dec(8640), "8640");
    assert_eq!(u64_to_dec(u64::MAX), "18446744073709551615");
}

#[test]
fn compare_names_orders_bytes() {
    assert!(matches!(compare_names("api", "web"), NameOrder::Before));
    assert!(matches!(compare_names("web", "api"), NameOrder::After));
    assert!(matches!(compare_names("web", "web"), NameOrder::Same));
    assert!(matches!(compare_names("web", "web2"), NameOrder::Before));
    assert!(matches!(compare_names("", "a"), NameOrder::Before));
}

#[test]
fn time_of_day_handles_runtime_timestamps() {
    // 12:34:56.789 after midnight.
    let ms = time_of_day_ms("2024-01-01T12:34:56.789012Z").unwrap();
    assert_eq!(ms, ((12 * 3600 + 34 * 60 + 56) * 1000 + 789) as u64);
    assert_eq!(
        time_of_day_ms("2024-01-01T00:00:10Z"),
        Some(10_000)
    );
    assert_eq!(time_of_day_ms("2024-01-01T23:59:59"), Some(86_399_000));
}

#[test]
fn time_of_day_rejects_malformed_timestamps() {
    assert_eq!(time_of_day_ms("no separator"), None);
    assert_eq!(time_of_day_ms("2024-01-01T12:34"), None);
    assert_eq!(time_of_day_ms("2024-01-01Tab:cd:ef"), None);
    assert_eq!(time_of_day_ms(""), None);
}
