use bumpit::text::{
    equals_ignoring_ascii_case, parse_decimal, same_text, split_spaces_of, trimmed_quotes, unquoted,
    ParseIntError,
};

#[test]
fn decimal_values() {
    assert_eq!(parse_decimal("0", u64::MAX), Ok(0));
    assert_eq!(parse_decimal("+42", u64::MAX), Ok(42));
    assert_eq!(parse_decimal("18446744073709551615", u64::MAX), Ok(u64::MAX));
    assert_eq!(parse_decimal("18446744073709551616", u64::MAX), Err(ParseIntError::PosOverflow));
    assert_eq!(parse_decimal("", u64::MAX), Err(ParseIntError::Empty));
    assert_eq!(parse_decimal("+", u64::MAX), Err(ParseIntError::InvalidDigit));
    assert_eq!(parse_decimal("1 2", u64::MAX), Err(ParseIntError::InvalidDigit));
    assert_eq!(parse_decimal("256", 255), Err(ParseIntError::PosOverflow));
}

#[test]
fn splitting() {
    assert_eq!(split_spaces_of("N 1 2"), vec!["N", "1", "2"]);
    assert_eq!(split_spaces_of("TS  4"), vec!["TS", "", "4"]);
    assert_eq!(split_spaces_of(""), vec![""]);
}

#[test]
fn quotes() {
    assert_eq!(unquoted("\"abc\""), "abc");
    assert_eq!(unquoted("\"\"abc\"\""), "\"abc\"");
    assert_eq!(unquoted("abc\""), "abc");
    assert_eq!(trimmed_quotes("\"\"abc\"\""), "abc");
    assert_eq!(trimmed_quotes("\"\""), "");
}

#[test]
fn comparisons() {
    assert!(equals_ignoring_ascii_case("ReSoLuTiOn", "resolution"));
    assert!(!equals_ignoring_ascii_case("resolutio", "resolution"));
    assert!(same_text("Song", "Song"));
    assert!(!same_text("song", "Song"));
}
