use hunt_summary::decimal::{parse_u32, render_decimal};

#[test]
fn renders_numbers_without_padding() {
    assert_eq!(render_decimal(0), "0");
    assert_eq!(render_decimal(7), "7");
    assert_eq!(render_decimal(10), "10");
    assert_eq!(render_decimal(4294967296), "4294967296");
    assert_eq!(render_decimal(u64::MAX), "18446744073709551615");
}

#[test]
fn parses_plain_digits() {
    assert_eq!(parse_u32("0"), Some(0));
    assert_eq!(parse_u32("42"), Some(42));
    assert_eq!(parse_u32("007"), Some(7));
    assert_eq!(parse_u32("4294967295"), Some(u32::MAX));
}

#[test]
fn parses_a_leading_plus() {
    assert_eq!(parse_u32("+3"), Some(3));
    assert_eq!(parse_u32("+"), None);
    assert_eq!(parse_u32("++3"), None);
}

#[test]
fn rejects_what_is_no_number() {
    assert_eq!(parse_u32(""), None);
    assert_eq!(parse_u32("-1"), None);
    assert_eq!(parse_u32(" 1"), None);
    assert_eq!(parse_u32("1 "), None);
    assert_eq!(parse_u32("1_000"), None);
    assert_eq!(parse_u32("twelve"), None);
    assert_eq!(parse_u32("\u{0663}"), None);
}

#[test]
fn rejects_numbers_beyond_the_range() {
    assert_eq!(parse_u32("4294967296"), None);
    assert_eq!(parse_u32("99999999999999999999999999"), None);
}

#[test]
fn parsing_agrees_with_std() {
    for text in ["0", "+0", "12", "4294967295", "4294967296", "", "+", "a", "1a", "00000000000001"] {
        assert_eq!(parse_u32(text), text.parse::<u32>().ok());
    }
}
