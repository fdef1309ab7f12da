use lox::error::LexError;
use lox::lexer::lex_program;
use lox::token::{Literal, Token, TokenKind};

fn kinds(tokens: &[Token]) -> Vec<TokenKind> {
    tokens.iter().map(|t| t.kind).collect()
}

#[test]
fn number_literal_gives_one_number_token() {
    let tokens = lex_program("12.5").unwrap();
    assert_eq!(tokens.len(), 2);
    assert_eq!(tokens[0].kind, TokenKind::Number);
    assert_eq!(tokens[0].lexeme, "12.5");
    assert_eq!(tokens[0].literal, Some(Literal::Number(12.5f64.to_bits())));
    assert_eq!(tokens[0].line, 1);
    assert_eq!(tokens[1].kind, TokenKind::EOF);
    assert_eq!(tokens[1].lexeme, "");
}

#[test]
fn integer_literal_is_parsed_as_double() {
    let tokens = lex_program("123").unwrap();
    assert_eq!(kinds(&tokens), vec![TokenKind::Number, TokenKind::EOF]);
    assert_eq!(tokens[0].literal, Some(Literal::Number(123.0f64.to_bits())));
}

#[test]
fn decimal_literal_rounds_like_f64() {
    let tokens = lex_program("0.1").unwrap();
    assert_eq!(tokens[0].literal, Some(Literal::Number("0.1".parse::<f64>().unwrap().to_bits())));
}

#[test]
fn dot_without_digit_is_not_part_of_number() {
    let tokens = lex_program("1.").unwrap();
    assert_eq!(kinds(&tokens), vec![TokenKind::Number, TokenKind::Dot, TokenKind::EOF]);
    assert_eq!(tokens[0].lexeme, "1");
}

#[test]
fn string_literal_gives_one_string_token() {
    let tokens = lex_program("\"hello world\"").unwrap();
    assert_eq!(kinds(&tokens), vec![TokenKind::StringLiteral, TokenKind::EOF]);
    assert_eq!(tokens[0].lexeme, "\"hello world\"");
    assert_eq!(tokens[0].literal, Some(Literal::StringLiteral("hello world".to_string())));
}

#[test]
fn escaped_quote_does_not_close_string() {
    let tokens = lex_program("\"a\\\"b\"").unwrap();
    assert_eq!(kinds(&tokens), vec![TokenKind::StringLiteral, TokenKind::EOF]);
    assert_eq!(tokens[0].literal, Some(Literal::StringLiteral("a\\\"b".to_string())));
}

#[test]
fn empty_string_literal() {
    let tokens = lex_program("\"\"").unwrap();
    assert_eq!(tokens[0].literal, Some(Literal::StringLiteral(String::new())));
}

#[test]
fn unterminated_string_reports_starting_line() {
    assert_eq!(lex_program("\"abc").unwrap_err(), LexError::UnterminatedString { line: 1 });
    assert_eq!(
        lex_program("\n\"abc\ndef").unwrap_err(),
        LexError::UnterminatedString { line: 2 }
    );
}

#[test]
fn multiline_string_keeps_starting_line_and_counts_newlines() {
    let tokens = lex_program("\"a\nb\" x").unwrap();
    assert_eq!(tokens[0].line, 1);
    assert_eq!(tokens[1].kind, TokenKind::Identifier);
    assert_eq!(tokens[1].line, 2);
    assert_eq!(tokens[2].line, 2);
}

#[test]
fn one_and_two_character_operators() {
    let tokens = lex_program("!= == <= >= ! = < > / ( ) { } , . - + ; *").unwrap();
    assert_eq!(
        kinds(&tokens),
        vec![
            TokenKind::BangEqual,
            TokenKind::EqualEqual,
            TokenKind::LessEqual,
            TokenKind::GreaterEqual,
            TokenKind::Bang,
            TokenKind::Equal,
            TokenKind::LessThan,
            TokenKind::GreaterThan,
            TokenKind::Slash,
            TokenKind::LeftParen,
            TokenKind::RightParen,
            TokenKind::LeftBrace,
            TokenKind::RightBrace,
            TokenKind::Comma,
            TokenKind::Dot,
            TokenKind::Minus,
            TokenKind::Plus,
            TokenKind::Semicolon,
            TokenKind::Star,
            TokenKind::EOF,
        ]
    );
    assert_eq!(tokens[0].lexeme, "!=");
    assert_eq!(tokens[4].lexeme, "!");
}

#[test]
fn comment_runs_to_end_of_line() {
    let tokens = lex_program("// a comment + 1\n+").unwrap();
    assert_eq!(kinds(&tokens), vec![TokenKind::Plus, TokenKind::EOF]);
    assert_eq!(tokens[0].line, 2);
}

#[test]
fn keywords_and_identifiers() {
    let tokens =
        lex_program("and class else false for fun if null or print return super this true var while _x1 vars")
            .unwrap();
    assert_eq!(
        kinds(&tokens),
        vec![
            TokenKind::And,
            TokenKind::Class,
            TokenKind::Else,
            TokenKind::False,
            TokenKind::For,
            TokenKind::Fun,
            TokenKind::If,
            TokenKind::Null,
            TokenKind::Or,
            TokenKind::Print,
            TokenKind::Return,
            TokenKind::Super,
            TokenKind::This,
            TokenKind::True,
            TokenKind::Var,
            TokenKind::While,
            TokenKind::Identifier,
            TokenKind::Identifier,
            TokenKind::EOF,
        ]
    );
    assert_eq!(tokens[16].lexeme, "_x1");
    assert_eq!(tokens[17].lexeme, "vars");
    assert_eq!(tokens[16].literal, None);
}

#[test]
fn unexpected_character_is_an_error() {
    assert_eq!(
        lex_program("1 +\n @").unwrap_err(),
        LexError::UnexpectedCharacter { char: '@', line: 2 }
    );
}

#[test]
fn empty_source_gives_only_terminal_token() {
    let tokens = lex_program("").unwrap();
    assert_eq!(kinds(&tokens), vec![TokenKind::EOF]);
    assert_eq!(tokens[0].line, 1);
}

#[test]
fn whitespace_and_lines() {
    let tokens = lex_program(" \t\r\nx\n\ny").unwrap();
    assert_eq!(tokens[0].line, 2);
    assert_eq!(tokens[1].line, 4);
    assert_eq!(tokens[2].line, 4);
}
