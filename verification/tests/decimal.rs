use roxide::decimal::{format_usize, parse_usize};

#[test]
fn format_writes_decimal_digits() {
    assert_eq!(format_usize(0), "0");
    assert_eq!(format_usize(7), "7");
    assert_eq!(format_usize(10), "10");
    assert_eq!(format_usize(1234), "1234");
    assert_eq!(format_usize(usize::MAX), usize::MAX.to_string());
}

#[test]
fn parse_reads_decimal_digits() {
    assert_eq!(parse_usize("0"), Some(0));
    assert_eq!(parse_usize("42"), Some(42));
    assert_eq!(parse_usize("007"), Some(7));
    assert_eq!(parse_usize("+5"), Some(5));
}

#[test]
fn parse_rejects_malformed_text() {
    assert_eq!(parse_usize(""), None);
    assert_eq!(parse_usize("+"), None);
    assert_eq!(parse_usize("-1"), None);
    assert_eq!(parse_usize("-0"), None);
    assert_eq!(parse_usize(" 1"), None);
    assert_eq!(parse_usize("1 "), None);
    assert_eq!(parse_usize("1a"), None);
    assert_eq!(parse_usize("++1"), None);
    assert_eq!(parse_usize("\u{661}"), None);
}

#[test]
fn parse_rejects_values_that_do_not_fit() {
    let max = usize::MAX.to_string();
    assert_eq!(parse_usize(&max), Some(usize::MAX));
    let over = format!("{}0", max);
    assert_eq!(parse_usize(&over), None);
}

#[test]
fn parse_agrees_with_std() {
    for text in ["0", "19", "+3", "-3", "", "+", "x", "12x", "99999999999999999999999", "0000000000000000000000001"] {
        assert_eq!(parse_usize(text), text.parse::<usize>().ok(), "text {:?}", text);
    }
}

#[test]
fn parse_reads_back_what_format_writes() {
    for n in [0usize, 1, 9, 10, 99, 100, 65535, 1 << 40, usize::MAX] {
        assert_eq!(parse_usize(&format_usize(n)), Some(n));
    }
}
