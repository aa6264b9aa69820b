use n3::text::{format_u128, parse_i64, parse_u64};

#[test]
fn parses_unsigned_numbers() {
    assert_eq!(parse_u64("0"), Some(0));
    assert_eq!(parse_u64("+42"), Some(42));
    assert_eq!(parse_u64("18446744073709551615"), Some(u64::MAX));
    assert_eq!(parse_u64("18446744073709551616"), None);
    assert_eq!(parse_u64(""), None);
    assert_eq!(parse_u64("+"), None);
    assert_eq!(parse_u64("-1"), None);
    assert_eq!(parse_u64("1a"), None);
}

#[test]
fn parses_signed_numbers() {
    assert_eq!(parse_i64("-9223372036854775808"), Some(i64::MIN));
    assert_eq!(parse_i64("9223372036854775807"), Some(i64::MAX));
    assert_eq!(parse_i64("9223372036854775808"), None);
    assert_eq!(parse_i64("-9223372036854775809"), None);
    assert_eq!(parse_i64("-17"), Some(-17));
    assert_eq!(parse_i64("+17"), Some(17));
    assert_eq!(parse_i64("-"), None);
}

#[test]
fn parses_as_std_does() {
    for s in ["0", "7", "+7", "-7", "00012", "", "x", "12 ", "99999999999999999999"] {
        assert_eq!(parse_u64(s), s.parse::<u64>().ok(), "{}", s);
        assert_eq!(parse_i64(s), s.parse::<i64>().ok(), "{}", s);
    }
}

#[test]
fn formats_numbers() {
    assert_eq!(format_u128(0), "0");
    assert_eq!(format_u128(1203), "1203");
    assert_eq!(format_u128(u128::MAX), u128::MAX.to_string());
}
