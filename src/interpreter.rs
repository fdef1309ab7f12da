use vstd::prelude::*;
use std::cmp::Ordering;
use crate::ast::{view_stmts, BinaryOp, Expr, ExprV, Stmt, StmtV, UnaryOp};
use crate::environment::Environment;
use crate::error::{
    view_parse_errors, EnvironmentErrorV, InterpreterError, RunTimeError, RunTimeErrorV,
};
use crate::lexer::{lex, lex_program};
use crate::parser::{parse, parse_tokens};
use crate::number::{
    add_doubles, compare_doubles, div_doubles, double_difference, double_is_zero, double_order,
    double_product, double_quotient, double_sum, is_zero_double, mul_doubles, negate_double,
    negated, sub_doubles,
};
use crate::parser::viewed;
use crate::token::{Literal, LiteralV};
use crate::value::{view_values, Value, ValueV};

verus! {

/// The variables of a run, as a map from names to values.
pub type Bindings = Map<Seq<char>, ValueV>;

/// The error of an operation on operands of the wrong types.
pub open spec fn could_not_eval<T>(message: Seq<char>) -> Result<T, RunTimeErrorV> {
    Err(RunTimeErrorV::CouldNotEval(message))
}

/// Truthiness: null and zero (of either sign) are false, a boolean is itself, anything else
/// is true.
pub open spec fn truthy(v: ValueV) -> bool {
    match v {
        ValueV::Null => false,
        ValueV::Boolean(b) => b,
        ValueV::Number(n) => !is_zero_double(n),
        ValueV::String(_) => true,
    }
}

/// The value of a literal.
pub open spec fn literal_value(l: LiteralV) -> ValueV {
    match l {
        LiteralV::Number(n) => ValueV::Number(n),
        LiteralV::StringLiteral(s) => ValueV::String(s),
        LiteralV::True => ValueV::Boolean(true),
        LiteralV::False => ValueV::Boolean(false),
        LiteralV::Null => ValueV::Null,
    }
}

/// Equality, defined only between two numbers, two strings or two booleans.
pub open spec fn values_equal(a: ValueV, b: ValueV) -> Result<bool, RunTimeErrorV> {
    match (a, b) {
        (ValueV::Number(x), ValueV::Number(y)) => Ok(double_order(x, y) == Some(Ordering::Equal)),
        (ValueV::String(x), ValueV::String(y)) => Ok(x == y),
        (ValueV::Boolean(x), ValueV::Boolean(y)) => Ok(x == y),
        _ => could_not_eval("=="@),
    }
}

/// The result of comparing two numbers: whether their order is less, equal or greater, as
/// `less`, `equal` and `greater` accept; false where either is a NaN.
pub open spec fn compared(
    a: ValueV,
    b: ValueV,
    less: bool,
    equal: bool,
    greater: bool,
    message: Seq<char>,
) -> Result<ValueV, RunTimeErrorV> {
    match (a, b) {
        (ValueV::Number(x), ValueV::Number(y)) => Ok(
            ValueV::Boolean(
                match double_order(x, y) {
                    Some(Ordering::Less) => less,
                    Some(Ordering::Equal) => equal,
                    Some(Ordering::Greater) => greater,
                    None => false,
                },
            ),
        ),
        _ => could_not_eval(message),
    }
}

/// The value of `a op b`.
pub open spec fn binary_value(op: BinaryOp, a: ValueV, b: ValueV) -> Result<
    ValueV,
    RunTimeErrorV,
> {
    match op {
        BinaryOp::Minus => match (a, b) {
            (ValueV::Number(x), ValueV::Number(y)) => Ok(ValueV::Number(double_difference(x, y))),
            _ => could_not_eval("minus"@),
        },
        BinaryOp::Slash => match (a, b) {
            (ValueV::Number(x), ValueV::Number(y)) => Ok(ValueV::Number(double_quotient(x, y))),
            _ => could_not_eval("slash"@),
        },
        BinaryOp::Star => match (a, b) {
            (ValueV::Number(x), ValueV::Number(y)) => Ok(ValueV::Number(double_product(x, y))),
            _ => could_not_eval("star"@),
        },
        BinaryOp::Plus => match (a, b) {
            (ValueV::Number(x), ValueV::Number(y)) => Ok(ValueV::Number(double_sum(x, y))),
            (ValueV::String(x), ValueV::String(y)) => Ok(ValueV::String(x + y)),
            _ => could_not_eval("plus"@),
        },
        BinaryOp::GreaterThan => compared(a, b, false, false, true, ">"@),
        BinaryOp::GreaterEqual => compared(a, b, false, true, true, ">="@),
        BinaryOp::LessThan => compared(a, b, true, false, false, "<"@),
        BinaryOp::LessEqual => compared(a, b, true, true, false, "<="@),
        BinaryOp::EqualEqual => match values_equal(a, b) {
            Ok(e) => Ok(ValueV::Boolean(e)),
            Err(x) => Err(x),
        },
        BinaryOp::BangEqual => match values_equal(a, b) {
            Ok(e) => Ok(ValueV::Boolean(!e)),
            Err(x) => Err(x),
        },
        _ => could_not_eval("Operator not found"@),
    }
}

/// The value of `op v`.
pub open spec fn unary_value(op: UnaryOp, v: ValueV) -> Result<ValueV, RunTimeErrorV> {
    match op {
        UnaryOp::Minus => match v {
            ValueV::Number(n) => Ok(ValueV::Number(negated(n))),
            _ => could_not_eval("- unary"@),
        },
        UnaryOp::Bang => Ok(ValueV::Boolean(!truthy(v))),
    }
}

/// The value of an expression under the bindings `env`: operands are evaluated left to right,
/// both always, and the first error is the result.
pub open spec fn eval(e: ExprV, env: Bindings) -> Result<ValueV, RunTimeErrorV>
    decreases e,
{
    match e {
        ExprV::Literal(l) => Ok(literal_value(l)),
        ExprV::Grouping { exp } => eval(*exp, env),
        ExprV::Unary { op, right } => match eval(*right, env) {
            Err(x) => Err(x),
            Ok(v) => unary_value(op, v),
        },
        ExprV::Binary { left, op, right } => match eval(*left, env) {
            Err(x) => Err(x),
            Ok(a) => match eval(*right, env) {
                Err(x) => Err(x),
                Ok(b) => binary_value(op, a, b),
            },
        },
        ExprV::Variable(name) => if env.contains_key(name) {
            Ok(env[name])
        } else {
            Err(RunTimeErrorV::EnvironmentError(EnvironmentErrorV::UndefinedVariable(name)))
        },
    }
}

/// The effect of a statement: the bindings after it and the value it shows, if any.
pub open spec fn exec_stmt(s: StmtV, env: Bindings) -> Result<
    (Bindings, Option<ValueV>),
    RunTimeErrorV,
> {
    match s {
        StmtV::Expression(e) => match eval(e, env) {
            Ok(v) => Ok((env, Some(v))),
            Err(x) => Err(x),
        },
        StmtV::Print(e) => match eval(e, env) {
            Ok(v) => Ok((env, Some(v))),
            Err(x) => Err(x),
        },
        StmtV::Var { name, initializer } => {
            let init = match initializer {
                Some(e) => eval(e, env),
                None => Ok(ValueV::Null),
            };
            match init {
                Err(x) => Err(x),
                Ok(v) => if env.contains_key(name) {
                    Err(
                        RunTimeErrorV::EnvironmentError(
                            EnvironmentErrorV::MultipleAssignmentVariable(name),
                        ),
                    )
                } else {
                    Ok((env.insert(name, v), None))
                },
            }
        },
    }
}

/// The value that a statement shows, as a sequence of none or one.
pub open spec fn shown(out: Option<ValueV>) -> Seq<ValueV> {
    match out {
        Some(v) => seq![v],
        None => seq![],
    }
}

/// The run of `stmts` from index `i` under `env`, after the values `out` were shown: every
/// value shown, or the first error.
pub open spec fn run_from(stmts: Seq<StmtV>, i: int, env: Bindings, out: Seq<ValueV>) -> Result<
    Seq<ValueV>,
    RunTimeErrorV,
>
    decreases stmts.len() - i,
{
    if i < 0 || i >= stmts.len() {
        Ok(out)
    } else {
        match exec_stmt(stmts[i], env) {
            Err(x) => Err(x),
            Ok((env2, v)) => run_from(stmts, i + 1, env2, out + shown(v)),
        }
    }
}

/// The run of a program from no bindings.
pub open spec fn run(stmts: Seq<StmtV>) -> Result<Seq<ValueV>, RunTimeErrorV> {
    run_from(stmts, 0, Map::empty(), seq![])
}

/// The number of nodes of an expression.
pub open spec fn expr_size(e: &Expr) -> nat
    decreases e,
{
    match e {
        Expr::Binary { left, right, .. } => expr_size(left) + expr_size(right) + 1,
        Expr::Unary { right, .. } => expr_size(right) + 1,
        Expr::Grouping { exp } => expr_size(exp) + 1,
        Expr::Literal(_) => 1,
        Expr::Variable(_) => 1,
    }
}

/// The evaluator, with the variables defined so far.
pub struct Interpreter {
    environment: Environment,
}

impl View for Interpreter {
    type V = Bindings;

    closed spec fn view(&self) -> Bindings {
        self.environment@
    }
}

impl Interpreter {
    /// An evaluator with no variable defined.
    pub fn new() -> (r: Interpreter)
        ensures
            r@ == Map::<Seq<char>, ValueV>::empty(),
    {
        Interpreter { environment: Environment::new() }
    }

    fn eval_literal(&self, literal: &Literal) -> (r: Value)
        ensures
            r@ == literal_value(literal@),
    {
        match literal {
            Literal::Number(n) => Value::Number(*n),
            Literal::StringLiteral(s) => Value::String(s.clone()),
            Literal::True => Value::Boolean(true),
            Literal::False => Value::Boolean(false),
            Literal::Null => Value::Null,
        }
    }

    fn is_equal(&self, v1: Value, v2: Value) -> (r: Result<bool, RunTimeError>)
        ensures
            match values_equal(v1@, v2@) {
                Ok(b) => r == Ok::<bool, RunTimeError>(b),
                Err(x) => r is Err && r->Err_0@ == x,
            },
    {
        match (v1, v2) {
            (Value::Number(n1), Value::Number(n2)) => Ok(
                match compare_doubles(n1, n2) {
                    Some(Ordering::Equal) => true,
                    _ => false,
                },
            ),
            (Value::String(s1), Value::String(s2)) => Ok(s1 == s2),
            (Value::Boolean(b1), Value::Boolean(b2)) => Ok(b1 == b2),
            (_, _) => Err(RunTimeError::CouldNotEval("==".to_string())),
        }
    }

    fn is_truthy(&self, val: &Value) -> (r: bool)
        ensures
            r == truthy(val@),
    {
        match val {
            Value::Null => false,
            Value::Boolean(b) => *b,
            Value::Number(n) => !double_is_zero(*n),
            _ => true,
        }
    }

    /// Compares two numbers: true where their order is one that the flags accept.
    fn compare(
        &self,
        left: Value,
        right: Value,
        less: bool,
        equal: bool,
        greater: bool,
        message: &str,
    ) -> (r: Result<Value, RunTimeError>)
        ensures
            viewed(r) == compared(left@, right@, less, equal, greater, message@),
    {
        match (left, right) {
            (Value::Number(n1), Value::Number(n2)) => Ok(
                Value::Boolean(
                    match compare_doubles(n1, n2) {
                        Some(Ordering::Less) => less,
                        Some(Ordering::Equal) => equal,
                        Some(Ordering::Greater) => greater,
                        None => false,
                    },
                ),
            ),
            (_, _) => Err(RunTimeError::CouldNotEval(message.to_string())),
        }
    }

    fn eval_binary(&self, left: &Expr, op: BinaryOp, right: &Expr) -> (r: Result<
        Value,
        RunTimeError,
    >)
        ensures
            viewed(r) == eval(ExprV::Binary { left: Box::new(left@), op, right: Box::new(right@) }, self@),
        decreases expr_size(left) + expr_size(right) + 1, 1nat,
    {
        let left = match self.evaluate(left) {
            Ok(left) => left,
            Err(e) => return Err(e),
        };
        let right = match self.evaluate(right) {
            Ok(right) => right,
            Err(e) => return Err(e),
        };
        match op {
            BinaryOp::Minus => match (left, right) {
                (Value::Number(n1), Value::Number(n2)) => Ok(Value::Number(sub_doubles(n1, n2))),
                (_, _) => Err(RunTimeError::CouldNotEval("minus".to_string())),
            },
            BinaryOp::Slash => match (left, right) {
                (Value::Number(n1), Value::Number(n2)) => Ok(Value::Number(div_doubles(n1, n2))),
                (_, _) => Err(RunTimeError::CouldNotEval("slash".to_string())),
            },
            BinaryOp::Star => match (left, right) {
                (Value::Number(n1), Value::Number(n2)) => Ok(Value::Number(mul_doubles(n1, n2))),
                (_, _) => Err(RunTimeError::CouldNotEval("star".to_string())),
            },
            BinaryOp::Plus => match (left, right) {
                (Value::Number(n1), Value::Number(n2)) => Ok(Value::Number(add_doubles(n1, n2))),
                (Value::String(s1), Value::String(s2)) => Ok(Value::String(s1.concat(s2.as_str()))),
                (_, _) => Err(RunTimeError::CouldNotEval("plus".to_string())),
            },
            BinaryOp::GreaterThan => self.compare(left, right, false, false, true, ">"),
            BinaryOp::GreaterEqual => self.compare(left, right, false, true, true, ">="),
            BinaryOp::LessThan => self.compare(left, right, true, false, false, "<"),
            BinaryOp::LessEqual => self.compare(left, right, true, true, false, "<="),
            BinaryOp::EqualEqual => match self.is_equal(left, right) {
                Ok(b) => Ok(Value::Boolean(b)),
                Err(e) => Err(e),
            },
            BinaryOp::BangEqual => match self.is_equal(left, right) {
                Ok(b) => Ok(Value::Boolean(!b)),
                Err(e) => Err(e),
            },
            _ => Err(RunTimeError::CouldNotEval("Operator not found".to_string())),
        }
    }

    fn eval_unary(&self, op: UnaryOp, right: &Expr) -> (r: Result<Value, RunTimeError>)
        ensures
            viewed(r) == eval(ExprV::Unary { op, right: Box::new(right@) }, self@),
        decreases expr_size(right) + 1, 1nat,
    {
        let right = match self.evaluate(right) {
            Ok(right) => right,
            Err(e) => return Err(e),
        };
        match op {
            UnaryOp::Minus => match right {
                Value::Number(n) => Ok(Value::Number(negate_double(n))),
                _ => Err(RunTimeError::CouldNotEval("- unary".to_string())),
            },
            UnaryOp::Bang => Ok(Value::Boolean(!self.is_truthy(&right))),
        }
    }

    /// The value of `exp` under the variables defined so far.
    pub fn evaluate(&self, exp: &Expr) -> (r: Result<Value, RunTimeError>)
        ensures
            viewed(r) == eval(exp@, self@),
        decreases expr_size(exp), 2nat,
    {
        match exp {
            Expr::Binary { left, op, right } => self.eval_binary(left, *op, right),
            Expr::Unary { op, right } => self.eval_unary(*op, right),
            Expr::Grouping { exp } => self.evaluate(exp),
            Expr::Literal(literal) => Ok(self.eval_literal(literal)),
            Expr::Variable(name) => match self.environment.get(name.as_str()) {
                Ok(v) => Ok(v),
                Err(e) => Err(RunTimeError::EnvironmentError(e)),
            },
        }
    }

    /// Runs one statement; the result holds the value that the statement shows, if any.
    pub fn execute(&mut self, stmt: &Stmt) -> (r: Result<Option<Value>, RunTimeError>)
        ensures
            match exec_stmt(stmt@, old(self)@) {
                Ok((env, v)) => {
                    &&& r is Ok
                    &&& final(self)@ == env
                    &&& match r->Ok_0 {
                        Some(x) => v == Some(x@),
                        None => v is None,
                    }
                },
                Err(x) => r is Err && r->Err_0@ == x && final(self)@ == old(self)@,
            },
    {
        match stmt {
            Stmt::Expression(e) => match self.evaluate(e) {
                Ok(v) => Ok(Some(v)),
                Err(err) => Err(err),
            },
            Stmt::Print(e) => match self.evaluate(e) {
                Ok(v) => Ok(Some(v)),
                Err(err) => Err(err),
            },
            Stmt::Var { name, initializer } => {
                let value = match initializer {
                    Some(e) => match self.evaluate(e) {
                        Ok(v) => v,
                        Err(err) => return Err(err),
                    },
                    None => Value::Null,
                };
                match self.environment.define(name.clone(), value) {
                    Ok(_) => Ok(None),
                    Err(e) => Err(RunTimeError::EnvironmentError(e)),
                }
            },
        }
    }
}

/// Runs `statements` in order from no variables: every value shown, or the first error,
/// after which nothing more runs.
pub fn interpret(statements: Vec<Stmt>) -> (r: Result<Vec<Value>, RunTimeError>)
    ensures
        match run(view_stmts(statements@)) {
            Ok(out) => r is Ok && view_values(r->Ok_0@) == out,
            Err(x) => r is Err && r->Err_0@ == x,
        },
{
    let ghost stmts = view_stmts(statements@);
    let mut interpreter = Interpreter::new();
    let mut out: Vec<Value> = Vec::new();
    let mut i: usize = 0;
    proof {
        assert(view_values(out@) =~= Seq::<ValueV>::empty());
    }
    while i < statements.len()
        invariant
            stmts == view_stmts(statements@),
            i <= statements.len(),
            run_from(stmts, i as int, interpreter@, view_values(out@)) == run(stmts),
        decreases statements.len() - i,
    {
        let ghost before = view_values(out@);
        match interpreter.execute(&statements[i]) {
            Ok(Some(v)) => {
                out.push(v);
                assert(view_values(out@) =~= before + shown(Some(out@.last()@)));
            },
            Ok(None) => {
                assert(view_values(out@) =~= before + shown(None));
            },
            Err(e) => return Err(e),
        }
        i = i + 1;
    }
    Ok(out)
}


/// Scans, parses and runs a source text: every value shown, or the error of the first stage
/// that failed (all the parse errors where parsing failed).
pub fn run_source(source: &str) -> (r: Result<Vec<Value>, InterpreterError>)
    requires
        source@.len() < usize::MAX,
    ensures
        match lex(source@) {
            Err(e) => r matches Err(InterpreterError::LexError(x)) && x@ == e,
            Ok(ts) => match parse(ts) {
                Err(es) => r matches Err(InterpreterError::ParseError(x)) && view_parse_errors(x@)
                    == es,
                Ok(stmts) => match run(stmts) {
                    Err(e) => r matches Err(InterpreterError::RunTimeError(x)) && x@ == e,
                    Ok(out) => r matches Ok(x) && view_values(x@) == out,
                },
            },
        },
{
    let tokens = match lex_program(source) {
        Ok(t) => t,
        Err(e) => return Err(InterpreterError::LexError(e)),
    };
    let statements = match parse_tokens(&tokens) {
        Ok(s) => s,
        Err(es) => return Err(InterpreterError::ParseError(es)),
    };
    match interpret(statements) {
        Ok(out) => Ok(out),
        Err(e) => Err(InterpreterError::RunTimeError(e)),
    }
}

} // verus!
