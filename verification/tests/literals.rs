use cozo::error::Error;
use cozo::lexer::tokenize;
use cozo::literal::{
    parse_int, parse_quoted_string, parse_raw_string, parse_s_quoted_string,
};
use cozo::token::{Sym, Token};
use cozo::value::Value;

#[test]
fn parse_int_drops_the_prefix() {
    assert_eq!(parse_int("0xaf", 16), Ok(0xaf));
    assert_eq!(parse_int("0o17", 8), Ok(15));
    assert_eq!(parse_int("0b101010", 2), Ok(42));
    assert_eq!(parse_int("\\u0041", 16), Ok(0x41));
    assert_eq!(parse_int("0xzz", 36), Ok(35 * 36 + 35));
}

#[test]
fn parse_int_refuses_what_is_no_number() {
    assert_eq!(parse_int("0x", 16), Err(Error::NumericParse));
    assert_eq!(parse_int("0x_", 16), Err(Error::NumericParse));
    assert_eq!(parse_int("0", 10), Err(Error::NumericParse));
    assert_eq!(parse_int("0b102", 2), Err(Error::NumericParse));
    assert_eq!(parse_int("0xg", 16), Err(Error::NumericParse));
    assert_eq!(parse_int("0x8000000000000000", 16), Err(Error::NumericParse));
    assert_eq!(parse_int("0x7fffffffffffffff", 16), Ok(i64::MAX));
}

#[test]
fn quoted_strings_decode_their_escapes() {
    assert_eq!(parse_quoted_string(r#"x \n \ty \""#), Ok("x \n \ty \"".to_string()));
    assert_eq!(parse_quoted_string("plain 'text'"), Ok("plain 'text'".to_string()));
    assert_eq!(parse_quoted_string(r#"\'"#), Err(Error::InvalidEscapeSequence));
    assert_eq!(parse_quoted_string("\\"), Err(Error::InvalidEscapeSequence));
    assert_eq!(parse_quoted_string(r#"\ud7ff"#), Ok("\u{d7ff}".to_string()));
    assert_eq!(parse_quoted_string(r#"\udfff"#), Err(Error::InvalidUtfCode));
    assert_eq!(parse_quoted_string(r#"\ue000"#), Ok("\u{e000}".to_string()));
    assert_eq!(parse_quoted_string(r#"\u00g0"#), Err(Error::InvalidEscapeSequence));
}

#[test]
fn single_quoted_strings_escape_their_own_quote() {
    assert_eq!(parse_s_quoted_string(r#""x""#), Ok("\"x\"".to_string()));
    assert_eq!(parse_s_quoted_string(r#"it\'s"#), Ok("it's".to_string()));
    assert_eq!(parse_s_quoted_string(r#"\""#), Err(Error::InvalidEscapeSequence));
}

#[test]
fn raw_strings_are_taken_as_they_stand() {
    assert_eq!(parse_raw_string(r#"x"yz\n"#), Ok("x\"yz\\n".to_string()));
}

#[test]
fn tokens_of_a_text() {
    assert_eq!(
        tokenize(" 1>=2\t!= -3.5e1 ~~(null)"),
        Ok(vec![
            Token::Lit(Value::Int(1)),
            Token::Sym(Sym::Ge),
            Token::Lit(Value::Int(2)),
            Token::Sym(Sym::NotEqual),
            Token::Sym(Sym::Dash),
            Token::Float("3.5e1".to_string()),
            Token::Sym(Sym::Coalesce),
            Token::Sym(Sym::Open),
            Token::Lit(Value::Null),
            Token::Sym(Sym::Close),
        ])
    );
    assert_eq!(tokenize("10.022_3e-100"), Ok(vec![Token::Float("10.0223e-100".to_string())]));
    assert_eq!(tokenize("0xE-2").unwrap().len(), 3);
    assert_eq!(tokenize("1e"), Err(Error::Parse));
    assert_eq!(tokenize("#"), Err(Error::Parse));
    assert_eq!(tokenize("   "), Ok(vec![]));
}
