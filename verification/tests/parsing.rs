use guessing_game::parser::{parse, ParseError};

#[test]
fn parse_accepts_plain_integer() {
    assert_eq!(parse("42"), Ok(42));
}

#[test]
fn parse_trims_whitespace_and_terminator() {
    assert_eq!(parse("  7\n"), Ok(7));
}

#[test]
fn parse_trims_tabs_and_carriage_return() {
    assert_eq!(parse("\t100\r\n"), Ok(100));
}

#[test]
fn parse_trims_unicode_whitespace() {
    assert_eq!(parse("7\u{A0}\n"), Ok(7));
    assert_eq!(parse("\u{2000}42\u{3000}"), Ok(42));
    assert_eq!(parse("\u{0B}\u{0C}9\u{85}\u{2028}\u{2029}\u{202F}\u{205F}\u{1680}"), Ok(9));
}

#[test]
fn parse_rejects_letters() {
    assert_eq!(parse("abc"), Err(ParseError));
}

#[test]
fn parse_rejects_empty() {
    assert_eq!(parse(""), Err(ParseError));
}

#[test]
fn parse_rejects_whitespace_only() {
    assert_eq!(parse(" \t\r\n "), Err(ParseError));
}

#[test]
fn parse_rejects_negative() {
    assert_eq!(parse("-3"), Err(ParseError));
}

#[test]
fn parse_rejects_plus_sign() {
    assert_eq!(parse("+5"), Err(ParseError));
}

#[test]
fn parse_rejects_inner_space() {
    assert_eq!(parse("4 2"), Err(ParseError));
}

#[test]
fn parse_rejects_trailing_letters() {
    assert_eq!(parse("12abc"), Err(ParseError));
}

#[test]
fn parse_accepts_leading_zeros() {
    assert_eq!(parse("007"), Ok(7));
}

#[test]
fn parse_accepts_largest_value() {
    assert_eq!(parse("4294967295"), Ok(u32::MAX));
}

#[test]
fn parse_rejects_value_past_the_type() {
    assert_eq!(parse("4294967296"), Err(ParseError));
    assert_eq!(parse("99999999999999999999"), Err(ParseError));
}
