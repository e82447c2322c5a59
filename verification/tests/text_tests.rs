use mdex_dl::text::{
    dec_width, pad_left_zeros, parse_digits, parse_digits_u32, str_eq, u64_to_dec, usize_to_dec,
    DigitParseError,
};

#[test]
fn decimal_rendering() {
    assert_eq!(u64_to_dec(0), "0");
    assert_eq!(u64_to_dec(7), "7");
    assert_eq!(u64_to_dec(1234), "1234");
    assert_eq!(u64_to_dec(u64::MAX), "18446744073709551615");
    assert_eq!(usize_to_dec(100), "100");
}

#[test]
fn decimal_width() {
    assert_eq!(dec_width(0), 1);
    assert_eq!(dec_width(9), 1);
    assert_eq!(dec_width(12), 2);
    assert_eq!(dec_width(100), 3);
}

#[test]
fn digit_parsing() {
    assert_eq!(parse_digits("123"), Ok(123));
    assert_eq!(parse_digits("0"), Ok(0));
    assert_eq!(parse_digits(""), Err(DigitParseError::Empty));
    assert_eq!(parse_digits("12a"), Err(DigitParseError::NonDigit));
    assert_eq!(parse_digits("-3"), Err(DigitParseError::NonDigit));
    assert_eq!(parse_digits("18446744073709551616"), Err(DigitParseError::Overflow));
    assert_eq!(parse_digits_u32("4294967295"), Ok(u32::MAX));
    assert_eq!(parse_digits_u32("4294967296"), Err(DigitParseError::Overflow));
}

#[test]
fn zero_padding() {
    assert_eq!(pad_left_zeros("7", 3), "007");
    assert_eq!(pad_left_zeros("123", 2), "123");
    assert_eq!(pad_left_zeros("", 2), "00");
}

#[test]
fn string_equality_by_content() {
    assert!(str_eq("abc", "abc"));
    assert!(!str_eq("abc", "abd"));
    assert!(str_eq("", ""));
}
