use granite_adapter::numbers::parse_u64_str;
use granite_adapter::numbers::u64_to_string;

#[test]
fn parses_decimal_counts() {
    assert_eq!(parse_u64_str("0"), Some(0));
    assert_eq!(parse_u64_str("42"), Some(42));
    assert_eq!(parse_u64_str("007"), Some(7));
    assert_eq!(parse_u64_str("18446744073709551615"), Some(u64::MAX));
    assert_eq!(parse_u64_str("18446744073709551616"), None);
    assert_eq!(parse_u64_str(""), None);
    assert_eq!(parse_u64_str("12a"), None);
    assert_eq!(parse_u64_str("-3"), None);
    assert_eq!(parse_u64_str(" 3"), None);
}

#[test]
fn renders_decimal_counts() {
    assert_eq!(u64_to_string(0), "0");
    assert_eq!(u64_to_string(7), "7");
    assert_eq!(u64_to_string(120), "120");
    assert_eq!(u64_to_string(u64::MAX), "18446744073709551615");
}
