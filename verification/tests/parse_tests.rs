use creddef_bench::parse::{parse_u64, ParseError};

#[test]
fn parses_small_numbers() {
    assert_eq!(parse_u64(b"3"), Ok(3));
    assert_eq!(parse_u64(b"42"), Ok(42));
    assert_eq!(parse_u64(b"0"), Ok(0));
}

#[test]
fn parses_leading_zeroes() {
    assert_eq!(parse_u64(b"007"), Ok(7));
    assert_eq!(parse_u64(b"000"), Ok(0));
}

#[test]
fn parses_largest_value() {
    assert_eq!(parse_u64(b"18446744073709551615"), Ok(u64::MAX));
}

#[test]
fn empty_argument_is_rejected() {
    assert_eq!(parse_u64(b""), Err(ParseError::Empty));
}

#[test]
fn non_numeric_argument_is_rejected() {
    assert_eq!(parse_u64(b"abc"), Err(ParseError::InvalidDigit));
    assert_eq!(parse_u64(b"3x"), Err(ParseError::InvalidDigit));
    assert_eq!(parse_u64(b"-3"), Err(ParseError::InvalidDigit));
    assert_eq!(parse_u64(b" 3"), Err(ParseError::InvalidDigit));
}

#[test]
fn too_large_value_is_rejected() {
    assert_eq!(parse_u64(b"18446744073709551616"), Err(ParseError::Overflow));
    assert_eq!(parse_u64(b"99999999999999999999999"), Err(ParseError::Overflow));
}

#[test]
fn non_digit_outranks_overflow() {
    assert_eq!(parse_u64(b"99999999999999999999999x"), Err(ParseError::InvalidDigit));
}
