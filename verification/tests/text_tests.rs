use loopengine::text::{decimal_string, parse_decimal_i64, str_equal, trim};

#[test]
fn trim_removes_unicode_white_space() {
    assert_eq!(trim("  a b  "), "a b");
    assert_eq!(trim("\u{2028}\u{205f}x\u{1680}"), "x");
    assert_eq!(trim(" \t "), "");
    assert_eq!(trim(""), "");
    assert_eq!(trim("\u{200b}x"), "\u{200b}x");
}

#[test]
fn decimal_rendering() {
    assert_eq!(decimal_string(0), "0");
    assert_eq!(decimal_string(7), "7");
    assert_eq!(decimal_string(10), "10");
    assert_eq!(decimal_string(1700000000), "1700000000");
    assert_eq!(decimal_string(u64::MAX), u64::MAX.to_string());
}

#[test]
fn decimal_parsing_matches_std() {
    let cases = [
        "0", "42", "+42", "-42", "-0", "007", "", "+", "-", "1a", " 1", "1 ",
        "9223372036854775807", "9223372036854775808", "-9223372036854775808",
        "-9223372036854775809", "99999999999999999999999", "--1", "+-1",
    ];
    for c in cases {
        assert_eq!(parse_decimal_i64(c.as_bytes()), c.parse::<i64>().ok(), "case {c:?}");
    }
}

#[test]
fn string_equality() {
    assert!(str_equal("abc", "abc"));
    assert!(!str_equal("abc", "abd"));
    assert!(!str_equal("abc", "ab"));
    assert!(str_equal("", ""));
}
