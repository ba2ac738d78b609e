use action_bridge::numeric::{i32_to_dec_string, parse_i32, u64_to_dec_string};

#[test]
fn parses_plain_numbers() {
    assert_eq!(parse_i32("0"), Some(0));
    assert_eq!(parse_i32("42"), Some(42));
    assert_eq!(parse_i32("-123"), Some(-123));
    assert_eq!(parse_i32("+7"), Some(7));
    assert_eq!(parse_i32("007"), Some(7));
}

#[test]
fn trims_surrounding_whitespace() {
    assert_eq!(parse_i32("  42  "), Some(42));
    assert_eq!(parse_i32("\t-9\n"), Some(-9));
    assert_eq!(parse_i32(" \r\n "), None);
}

#[test]
fn trims_unicode_whitespace() {
    assert_eq!(parse_i32("\u{000C}42\u{000B}"), Some(42));
    assert_eq!(parse_i32("\u{00A0}7\u{3000}"), Some(7));
    assert_eq!(parse_i32("\u{2003}-5\u{2028}"), Some(-5));
    assert_eq!(parse_i32("\u{0085}+6\u{205F}"), Some(6));
    // U+200B (zero-width space) has no White_Space property and is rejected.
    assert_eq!(parse_i32("\u{200B}42"), None);
}

#[test]
fn parse_agrees_with_trimmed_std_parse() {
    let inputs = [
        "42", " 42 ", "\u{000C}-17\u{00A0}", "\u{1680}0\u{2000}", "+8", "007",
        "", "abc", "4 2", "\u{200B}9", "2147483647", "2147483648", "-2147483648",
        "-2147483649", "\u{2029}\u{202F}", "+ 7",
    ];
    for s in inputs {
        assert_eq!(parse_i32(s), s.trim().parse::<i32>().ok(), "input {s:?}");
    }
}

#[test]
fn rejects_malformed_input() {
    assert_eq!(parse_i32(""), None);
    assert_eq!(parse_i32("abc"), None);
    assert_eq!(parse_i32("12a"), None);
    assert_eq!(parse_i32("a12"), None);
    assert_eq!(parse_i32("-"), None);
    assert_eq!(parse_i32("+"), None);
    assert_eq!(parse_i32("1 2"), None);
    assert_eq!(parse_i32("--4"), None);
    assert_eq!(parse_i32("4.5"), None);
}

#[test]
fn respects_i32_range() {
    assert_eq!(parse_i32("2147483647"), Some(i32::MAX));
    assert_eq!(parse_i32("-2147483648"), Some(i32::MIN));
    assert_eq!(parse_i32("2147483648"), None);
    assert_eq!(parse_i32("-2147483649"), None);
    assert_eq!(parse_i32("99999999999999999999"), None);
}

#[test]
fn renders_decimals() {
    assert_eq!(u64_to_dec_string(0), "0");
    assert_eq!(u64_to_dec_string(10), "10");
    assert_eq!(u64_to_dec_string(65535), "65535");
    assert_eq!(i32_to_dec_string(0), "0");
    assert_eq!(i32_to_dec_string(42), "42");
    assert_eq!(i32_to_dec_string(-42), "-42");
    assert_eq!(i32_to_dec_string(i32::MIN), "-2147483648");
    assert_eq!(i32_to_dec_string(i32::MAX), "2147483647");
}

#[test]
fn parse_matches_rendering() {
    for n in [0, 1, -1, 99, -100, 123456789, -987654321, i32::MIN, i32::MAX] {
        assert_eq!(parse_i32(&i32_to_dec_string(n)), Some(n));
    }
}
