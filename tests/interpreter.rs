use lox::environment::Environment;
use lox::error::{EnvironmentError, InterpreterError, LexError, ParseError, RunTimeError};
use lox::interpreter::{interpret, run_source, Interpreter};
use lox::ast::{Expr, Stmt};
use lox::token::Literal;
use lox::value::Value;

fn number(x: f64) -> Value {
    Value::Number(x.to_bits())
}

fn as_f64(v: &Value) -> f64 {
    match v {
        Value::Number(b) => f64::from_bits(*b),
        _ => panic!("not a number: {:?}", v),
    }
}

fn runtime_error(source: &str) -> RunTimeError {
    match run_source(source) {
        Err(InterpreterError::RunTimeError(e)) => e,
        other => panic!("expected a runtime error, got {:?}", other),
    }
}

#[test]
fn left_associative_subtraction_evaluates() {
    assert_eq!(run_source("1 - 2 - 3;").unwrap(), vec![number(-4.0)]);
}

#[test]
fn precedence_evaluates() {
    assert_eq!(run_source("1 + 2 * 3;").unwrap(), vec![number(7.0)]);
}

#[test]
fn grouping_evaluates() {
    assert_eq!(run_source("(1 + 2) * 3;").unwrap(), vec![number(9.0)]);
}

#[test]
fn number_plus_string_is_an_error() {
    assert_eq!(runtime_error("1 + \"a\";"), RunTimeError::CouldNotEval("plus".to_string()));
}

#[test]
fn variable_is_bound_then_read() {
    assert_eq!(run_source("var x = 5; print x;").unwrap(), vec![number(5.0)]);
}

#[test]
fn redefinition_is_refused() {
    assert_eq!(
        runtime_error("var x = 5; var x = 6;"),
        RunTimeError::EnvironmentError(EnvironmentError::MultipleAssignmentVariable("x".to_string()))
    );
}

#[test]
fn undefined_variable_is_an_error() {
    assert_eq!(
        runtime_error("print y;"),
        RunTimeError::EnvironmentError(EnvironmentError::UndefinedVariable("y".to_string()))
    );
}

#[test]
fn arithmetic_follows_double_rounding() {
    let out = run_source("0.1 + 0.2; 7 / 2; 2 * 0.5; 10 - 0.25;").unwrap();
    assert_eq!(as_f64(&out[0]), 0.1f64 + 0.2f64);
    assert_eq!(as_f64(&out[1]), 3.5);
    assert_eq!(as_f64(&out[2]), 1.0);
    assert_eq!(as_f64(&out[3]), 9.75);
}

#[test]
fn division_by_zero_follows_floating_point() {
    let out = run_source("1 / 0; -1 / 0; 0 / 0;").unwrap();
    assert_eq!(as_f64(&out[0]), f64::INFINITY);
    assert_eq!(as_f64(&out[1]), f64::NEG_INFINITY);
    assert!(as_f64(&out[2]).is_nan());
}

#[test]
fn negation_flips_sign() {
    assert_eq!(run_source("-3; --2;").unwrap(), vec![number(-3.0), number(2.0)]);
    assert_eq!(runtime_error("-\"a\";"), RunTimeError::CouldNotEval("- unary".to_string()));
}

#[test]
fn strings_concatenate() {
    assert_eq!(
        run_source("\"ab\" + \"cd\";").unwrap(),
        vec![Value::String("abcd".to_string())]
    );
}

#[test]
fn comparisons_give_booleans() {
    assert_eq!(
        run_source("1 < 2; 2 <= 2; 3 > 4; 4 >= 5; 0/0 < 1;").unwrap(),
        vec![
            Value::Boolean(true),
            Value::Boolean(true),
            Value::Boolean(false),
            Value::Boolean(false),
            Value::Boolean(false),
        ]
    );
    assert_eq!(runtime_error("1 < \"a\";"), RunTimeError::CouldNotEval("<".to_string()));
    assert_eq!(runtime_error("true >= 1;"), RunTimeError::CouldNotEval(">=".to_string()));
}

#[test]
fn equality_within_a_type() {
    assert_eq!(
        run_source("1 == 1; 1 != 1; \"a\" == \"a\"; true != false; 0 == -0;").unwrap(),
        vec![
            Value::Boolean(true),
            Value::Boolean(false),
            Value::Boolean(true),
            Value::Boolean(true),
            Value::Boolean(true),
        ]
    );
}

#[test]
fn equality_across_types_is_an_error() {
    assert_eq!(runtime_error("1 == \"1\";"), RunTimeError::CouldNotEval("==".to_string()));
    assert_eq!(runtime_error("null == null;"), RunTimeError::CouldNotEval("==".to_string()));
}

#[test]
fn truthiness_of_values() {
    assert_eq!(
        run_source("!null; !0; !-0; !1; !\"\"; !false; !true;").unwrap(),
        vec![
            Value::Boolean(true),
            Value::Boolean(true),
            Value::Boolean(true),
            Value::Boolean(false),
            Value::Boolean(false),
            Value::Boolean(true),
            Value::Boolean(false),
        ]
    );
}

#[test]
fn logical_operators_are_not_evaluated() {
    let stmts = vec![Stmt::Expression(Expr::Binary {
        left: Box::new(Expr::Literal(Literal::True)),
        op: lox::ast::BinaryOp::And,
        right: Box::new(Expr::Literal(Literal::False)),
    })];
    assert_eq!(
        interpret(stmts).unwrap_err(),
        RunTimeError::CouldNotEval("Operator not found".to_string())
    );
}

#[test]
fn uninitialized_variable_is_null() {
    assert_eq!(run_source("var a; print a;").unwrap(), vec![Value::Null]);
}

#[test]
fn first_runtime_error_stops_the_run() {
    let stmts = vec![
        Stmt::Print(Expr::Variable("missing".to_string())),
        Stmt::Var { name: "z".to_string(), initializer: None },
    ];
    assert_eq!(
        interpret(stmts).unwrap_err(),
        RunTimeError::EnvironmentError(EnvironmentError::UndefinedVariable("missing".to_string()))
    );
}

#[test]
fn execute_reports_shown_value() {
    let mut interpreter = Interpreter::new();
    let decl = Stmt::Var {
        name: "v".to_string(),
        initializer: Some(Expr::Literal(Literal::StringLiteral("s".to_string()))),
    };
    assert_eq!(interpreter.execute(&decl).unwrap(), None);
    let show = Stmt::Print(Expr::Variable("v".to_string()));
    assert_eq!(interpreter.execute(&show).unwrap(), Some(Value::String("s".to_string())));
    assert_eq!(
        interpreter.evaluate(&Expr::Grouping { exp: Box::new(Expr::Variable("v".to_string())) }),
        Ok(Value::String("s".to_string()))
    );
}

#[test]
fn environment_define_and_get() {
    let mut env = Environment::new();
    assert_eq!(env.get("a"), Err(EnvironmentError::UndefinedVariable("a".to_string())));
    assert_eq!(env.define("a".to_string(), Value::Boolean(true)), Ok(()));
    assert_eq!(env.get("a"), Ok(Value::Boolean(true)));
    assert_eq!(
        env.define("a".to_string(), Value::Null),
        Err(EnvironmentError::MultipleAssignmentVariable("a".to_string()))
    );
    assert_eq!(env.get("a"), Ok(Value::Boolean(true)));
}

#[test]
fn pipeline_reports_stage_errors() {
    assert_eq!(
        run_source("\"open"),
        Err(InterpreterError::LexError(LexError::UnterminatedString { line: 1 }))
    );
    assert_eq!(
        run_source("print ;"),
        Err(InterpreterError::ParseError(vec![ParseError::InvalidConversion(
            "could not convert literal".to_string()
        )]))
    );
}
