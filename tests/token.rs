use lox::error::LexError;
use lox::token::{Literal, Token, TokenKind};

#[test]
fn get_token_fixed_kinds() {
    assert_eq!(
        Token::get_token("Print", None).unwrap(),
        Token { kind: TokenKind::Print, lexeme: "print".to_string(), literal: None, line: 1 }
    );
    assert_eq!(Token::get_token("BangEqual", Some("ignored")).unwrap().lexeme, "!=");
    assert_eq!(Token::get_token("EOF", None).unwrap().lexeme, "");
}

#[test]
fn get_token_with_values() {
    assert_eq!(
        Token::get_token("Identifier", Some("abc")).unwrap(),
        Token { kind: TokenKind::Identifier, lexeme: "abc".to_string(), literal: None, line: 1 }
    );
    assert_eq!(
        Token::get_token("StringLiteral", Some("hi")).unwrap(),
        Token {
            kind: TokenKind::StringLiteral,
            lexeme: "\"hi\"".to_string(),
            literal: Some(Literal::StringLiteral("hi".to_string())),
            line: 1,
        }
    );
    assert_eq!(
        Token::get_token("Number", Some("2.5")).unwrap().literal,
        Some(Literal::Number(2.5f64.to_bits()))
    );
}

#[test]
fn get_token_errors() {
    assert_eq!(Token::get_token("Nope", None).unwrap_err(), LexError::NotFound("Nope".to_string()));
    assert_eq!(
        Token::get_token("Identifier", None).unwrap_err(),
        LexError::ValueError("Identifier".to_string())
    );
    assert_eq!(
        Token::get_token("Number", Some("abc")).unwrap_err(),
        LexError::NumberParsingError { num_str: "abc".to_string(), line: 1 }
    );
}

#[test]
fn get_token_regex_by_name() {
    assert_eq!(Token::get_token_regex("Print").unwrap(), r"\bprint\b");
    assert_eq!(Token::get_token_regex("Identifier").unwrap(), r"[a-zA-Z_][a-zA-Z0-9_]*");
    assert_eq!(Token::get_token_regex("StringLiteral").unwrap(), r#""([^"\\]|\\.)*""#);
    assert_eq!(Token::get_token_regex("LeftParen").unwrap(), r"\(");
    assert_eq!(
        Token::get_token_regex("Unknown").unwrap_err(),
        LexError::NotFound("Unknown".to_string())
    );
}
