use microbench::parse::parse_u64;
use microbench::parse::parse_u64_or;

#[test]
fn plain_decimal_numbers_parse() {
    assert_eq!(parse_u64(b"0"), Some(0));
    assert_eq!(parse_u64(b"123"), Some(123));
    assert_eq!(parse_u64(b"4096"), Some(4096));
    assert_eq!(parse_u64(b"007"), Some(7));
}

#[test]
fn leading_plus_is_accepted() {
    assert_eq!(parse_u64(b"+42"), Some(42));
    assert_eq!(parse_u64(b"+0"), Some(0));
}

#[test]
fn largest_value_parses_and_one_more_does_not() {
    assert_eq!(parse_u64(b"18446744073709551615"), Some(u64::MAX));
    assert_eq!(parse_u64(b"18446744073709551616"), None);
    assert_eq!(parse_u64(b"99999999999999999999999"), None);
}

#[test]
fn malformed_input_is_rejected() {
    assert_eq!(parse_u64(b""), None);
    assert_eq!(parse_u64(b"+"), None);
    assert_eq!(parse_u64(b"abc"), None);
    assert_eq!(parse_u64(b"12a"), None);
    assert_eq!(parse_u64(b"-5"), None);
    assert_eq!(parse_u64(b"1 2"), None);
    assert_eq!(parse_u64(b"++1"), None);
}

#[test]
fn agreement_with_standard_parse() {
    let cases: [&[u8]; 8] = [b"10", b"+90", b"", b"x", b"18446744073709551615", b"18446744073709551616", b"1e3", b"007"];
    for c in cases {
        let expected = std::str::from_utf8(c).unwrap().parse::<u64>().ok();
        assert_eq!(parse_u64(c), expected);
    }
}

#[test]
fn fallback_substitutes_the_default_silently() {
    assert_eq!(parse_u64_or(b"1024", 4096), 1024);
    assert_eq!(parse_u64_or(b"", 4096), 4096);
    assert_eq!(parse_u64_or(b"junk", 90), 90);
    assert_eq!(parse_u64_or(b"18446744073709551616", 90), 90);
}
