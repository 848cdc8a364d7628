use auth_core::token::{AuthToken, TokenParseError};

#[test]
fn serialize_renders_decimal() {
    assert_eq!(AuthToken { unique: 0 }.serialize(), "0");
    assert_eq!(AuthToken { unique: 7 }.serialize(), "7");
    assert_eq!(AuthToken { unique: 12345 }.serialize(), "12345");
    assert_eq!(AuthToken { unique: u64::MAX }.serialize(), "18446744073709551615");
}

#[test]
fn parse_reads_decimal() {
    assert_eq!(AuthToken::parse("42"), Ok(AuthToken { unique: 42 }));
    assert_eq!(AuthToken::parse("+42"), Ok(AuthToken { unique: 42 }));
    assert_eq!(AuthToken::parse("007"), Ok(AuthToken { unique: 7 }));
    assert_eq!(
        AuthToken::parse("18446744073709551615"),
        Ok(AuthToken { unique: u64::MAX })
    );
}

#[test]
fn parse_reports_each_error() {
    assert_eq!(AuthToken::parse(""), Err(TokenParseError::Empty));
    assert_eq!(AuthToken::parse("+"), Err(TokenParseError::InvalidDigit));
    assert_eq!(AuthToken::parse("12a"), Err(TokenParseError::InvalidDigit));
    assert_eq!(AuthToken::parse("-1"), Err(TokenParseError::InvalidDigit));
    assert_eq!(
        AuthToken::parse("18446744073709551616"),
        Err(TokenParseError::Overflow)
    );
}

#[test]
fn serialize_then_deserialize_round_trips() {
    for v in [0u64, 1, 9, 10, 99, 100, 123456789, u64::MAX - 1, u64::MAX] {
        let t = AuthToken { unique: v };
        assert_eq!(AuthToken::deserialize(&t.serialize()), t);
    }
}

#[test]
fn from_str_matches_parse() {
    let t: AuthToken = "9001".parse().unwrap();
    assert_eq!(t, AuthToken { unique: 9001 });
    assert!("x".parse::<AuthToken>().is_err());
}

#[test]
fn generated_tokens_differ() {
    let a = AuthToken::generate();
    let b = AuthToken::generate();
    let c = AuthToken::generate();
    assert!(a != b || b != c);
}
