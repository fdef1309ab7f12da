use lox::ast::{BinaryOp, Expr, Stmt, UnaryOp};
use lox::error::ParseError;
use lox::lexer::lex_program;
use lox::parser::{parse_binary_op, parse_literal, parse_tokens, parse_unary_op, Parser};
use lox::token::{Literal, Token, TokenKind};

fn num(x: f64) -> Expr {
    Expr::Literal(Literal::Number(x.to_bits()))
}

fn bin(left: Expr, op: BinaryOp, right: Expr) -> Expr {
    Expr::Binary { left: Box::new(left), op, right: Box::new(right) }
}

fn parse_source(source: &str) -> Result<Vec<Stmt>, Vec<ParseError>> {
    parse_tokens(&lex_program(source).unwrap())
}

fn token(kind: TokenKind, lexeme: &str) -> Token {
    Token { kind, lexeme: lexeme.to_string(), literal: None, line: 3 }
}

#[test]
fn subtraction_is_left_associative() {
    let stmts = parse_source("1 - 2 - 3;").unwrap();
    assert_eq!(
        stmts,
        vec![Stmt::Expression(bin(bin(num(1.0), BinaryOp::Minus, num(2.0)), BinaryOp::Minus, num(3.0)))]
    );
}

#[test]
fn star_binds_tighter_than_plus() {
    let stmts = parse_source("1 + 2 * 3;").unwrap();
    assert_eq!(
        stmts,
        vec![Stmt::Expression(bin(num(1.0), BinaryOp::Plus, bin(num(2.0), BinaryOp::Star, num(3.0))))]
    );
}

#[test]
fn grouping_overrides_precedence() {
    let stmts = parse_source("(1 + 2) * 3;").unwrap();
    let group = Expr::Grouping { exp: Box::new(bin(num(1.0), BinaryOp::Plus, num(2.0))) };
    assert_eq!(stmts, vec![Stmt::Expression(bin(group, BinaryOp::Star, num(3.0)))]);
}

#[test]
fn comparison_and_equality_tiers() {
    let stmts = parse_source("1 < 2 == 3 >= 4;").unwrap();
    assert_eq!(
        stmts,
        vec![Stmt::Expression(bin(
            bin(num(1.0), BinaryOp::LessThan, num(2.0)),
            BinaryOp::EqualEqual,
            bin(num(3.0), BinaryOp::GreaterEqual, num(4.0))
        ))]
    );
}

#[test]
fn unary_operators_nest() {
    let stmts = parse_source("-!x;").unwrap();
    let inner = Expr::Unary { op: UnaryOp::Bang, right: Box::new(Expr::Variable("x".to_string())) };
    assert_eq!(
        stmts,
        vec![Stmt::Expression(Expr::Unary { op: UnaryOp::Minus, right: Box::new(inner) })]
    );
}

#[test]
fn print_and_var_statements() {
    let stmts = parse_source("var a = \"s\"; var b; print true; null;").unwrap();
    assert_eq!(
        stmts,
        vec![
            Stmt::Var {
                name: "a".to_string(),
                initializer: Some(Expr::Literal(Literal::StringLiteral("s".to_string()))),
            },
            Stmt::Var { name: "b".to_string(), initializer: None },
            Stmt::Print(Expr::Literal(Literal::True)),
            Stmt::Expression(Expr::Literal(Literal::Null)),
        ]
    );
}

#[test]
fn missing_closing_paren_is_an_error() {
    assert_eq!(
        parse_source("(1 + 2;").unwrap_err(),
        vec![ParseError::InvalidGrouping("Expect ')' after expression".to_string())]
    );
}

#[test]
fn missing_semicolons_are_errors() {
    assert_eq!(
        parse_source("print 1").unwrap_err(),
        vec![ParseError::InvalidGrouping("Expect ; after statement".to_string())]
    );
    assert_eq!(
        parse_source("var x = 1").unwrap_err(),
        vec![ParseError::InvalidGrouping("Expect ; after declaration".to_string())]
    );
    assert_eq!(
        parse_source("var 1;").unwrap_err(),
        vec![ParseError::InvalidGrouping("Expect identifier after var declaration".to_string())]
    );
}

#[test]
fn errors_accumulate_after_recovery() {
    let errors = parse_source("1 +; print 2; ); var y = 3;").unwrap_err();
    assert_eq!(
        errors,
        vec![
            ParseError::InvalidConversion("could not convert literal".to_string()),
            ParseError::InvalidConversion("could not convert literal".to_string()),
        ]
    );
}

#[test]
fn recovery_stops_at_statement_keyword() {
    let tokens = lex_program("1 2 print 3;").unwrap();
    let mut parser = Parser::new(&tokens);
    assert_eq!(
        parser.declaration().unwrap_err(),
        ParseError::InvalidGrouping("Expect ; after statement".to_string())
    );
    assert_eq!(parser.declaration().unwrap(), Stmt::Print(num(3.0)));
}

#[test]
fn token_sequence_without_terminal_token_is_refused() {
    assert_eq!(parse_tokens(&vec![]).unwrap_err(), vec![ParseError::IndexOutOfBounds]);
    assert_eq!(
        parse_tokens(&vec![token(TokenKind::Semicolon, ";")]).unwrap_err(),
        vec![ParseError::IndexOutOfBounds]
    );
}

#[test]
fn only_terminal_token_gives_no_statement() {
    assert_eq!(parse_tokens(&vec![token(TokenKind::EOF, "")]).unwrap(), vec![]);
}

#[test]
fn operator_conversions() {
    assert_eq!(parse_binary_op(&token(TokenKind::Plus, "+")).unwrap(), BinaryOp::Plus);
    assert_eq!(parse_binary_op(&token(TokenKind::BangEqual, "!=")).unwrap(), BinaryOp::BangEqual);
    assert_eq!(parse_binary_op(&token(TokenKind::Or, "or")).unwrap(), BinaryOp::Or);
    assert_eq!(
        parse_binary_op(&token(TokenKind::Bang, "!")).unwrap_err(),
        ParseError::InvalidConversion("could not convert to binary operator".to_string())
    );
    assert_eq!(parse_unary_op(&token(TokenKind::Minus, "-")).unwrap(), UnaryOp::Minus);
    assert_eq!(parse_unary_op(&token(TokenKind::Bang, "!")).unwrap(), UnaryOp::Bang);
    assert_eq!(
        parse_unary_op(&token(TokenKind::Plus, "+")).unwrap_err(),
        ParseError::InvalidConversion("could not convert to unary operator".to_string())
    );
}

#[test]
fn literal_conversion_and_missing_value() {
    assert_eq!(parse_literal(&token(TokenKind::True, "true")).unwrap(), Literal::True);
    assert_eq!(parse_literal(&token(TokenKind::False, "false")).unwrap(), Literal::False);
    assert_eq!(parse_literal(&token(TokenKind::Null, "null")).unwrap(), Literal::Null);
    assert_eq!(
        parse_literal(&token(TokenKind::Number, "7")).unwrap_err(),
        ParseError::MissingValue { val: "7".to_string(), line: 3 }
    );
    assert_eq!(
        parse_literal(&token(TokenKind::Identifier, "x")).unwrap_err(),
        ParseError::InvalidConversion("could not convert literal".to_string())
    );
    let mut t = token(TokenKind::Number, "7");
    t.literal = Some(Literal::Number(7.0f64.to_bits()));
    assert_eq!(parse_literal(&t).unwrap(), Literal::Number(7.0f64.to_bits()));
}

fn strip(e: Expr) -> Expr {
    match e {
        Expr::Grouping { exp } => strip(*exp),
        Expr::Binary { left, op, right } => {
            Expr::Binary { left: Box::new(strip(*left)), op, right: Box::new(strip(*right)) }
        }
        Expr::Unary { op, right } => Expr::Unary { op, right: Box::new(strip(*right)) },
        other => other,
    }
}

fn strip_stmt(s: Stmt) -> Stmt {
    match s {
        Stmt::Expression(e) => Stmt::Expression(strip(e)),
        Stmt::Print(e) => Stmt::Print(strip(e)),
        Stmt::Var { name, initializer } => Stmt::Var { name, initializer: initializer.map(strip) },
    }
}

#[test]
fn parenthesized_rendering_parses_back() {
    let written = parse_source("(1 + x) * -y == \"s\";").unwrap();
    let rendered = parse_source("( ( ( 1 + x ) * ( - y ) ) == \"s\" ) ;").unwrap();
    assert_eq!(written.len(), 1);
    assert_eq!(rendered.len(), 1);
    let a: Vec<Stmt> = written.into_iter().map(strip_stmt).collect();
    let b: Vec<Stmt> = rendered.into_iter().map(strip_stmt).collect();
    assert_eq!(a, b);
}

#[test]
fn rendered_declaration_parses_back() {
    let written = parse_source("var total = !(a != b);").unwrap();
    let rendered = parse_source("var total = ( ! ( ( a != b ) ) ) ;").unwrap();
    let a: Vec<Stmt> = written.into_iter().map(strip_stmt).collect();
    let b: Vec<Stmt> = rendered.into_iter().map(strip_stmt).collect();
    assert_eq!(a, b);
}
