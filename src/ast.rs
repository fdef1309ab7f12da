use vstd::prelude::*;
use crate::token::{Literal, LiteralV};

verus! {

/// The operators of a binary expression.
#[derive(Clone, Copy, Debug, PartialEq, Eq, Structural)]
pub enum BinaryOp {
    Plus,
    Minus,
    Star,
    Slash,
    Equal,
    GreaterEqual,
    GreaterThan,
    EqualEqual,
    BangEqual,
    LessEqual,
    LessThan,
    And,
    Or,
}

/// The operators of a unary expression.
#[derive(Clone, Copy, Debug, PartialEq, Eq, Structural)]
pub enum UnaryOp {
    Bang,
    Minus,
}

impl View for BinaryOp {
    type V = BinaryOp;

    open spec fn view(&self) -> BinaryOp {
        *self
    }
}

impl View for UnaryOp {
    type V = UnaryOp;

    open spec fn view(&self) -> UnaryOp {
        *self
    }
}

/// An expression: a tree in which every node owns its sub-expressions.
#[derive(Debug, PartialEq)]
pub enum Expr {
    Binary { left: Box<Expr>, op: BinaryOp, right: Box<Expr> },
    Unary { op: UnaryOp, right: Box<Expr> },
    Grouping { exp: Box<Expr> },
    Literal(Literal),
    Variable(String),
}

/// The mathematical value of an `Expr`.
pub enum ExprV {
    Binary { left: Box<ExprV>, op: BinaryOp, right: Box<ExprV> },
    Unary { op: UnaryOp, right: Box<ExprV> },
    Grouping { exp: Box<ExprV> },
    Literal(LiteralV),
    Variable(Seq<char>),
}

/// The view of an expression, node by node.
pub open spec fn expr_view(e: &Expr) -> ExprV
    decreases e,
{
    match e {
        Expr::Binary { left, op, right } => ExprV::Binary {
            left: Box::new(expr_view(left)),
            op: *op,
            right: Box::new(expr_view(right)),
        },
        Expr::Unary { op, right } => ExprV::Unary { op: *op, right: Box::new(expr_view(right)) },
        Expr::Grouping { exp } => ExprV::Grouping { exp: Box::new(expr_view(exp)) },
        Expr::Literal(l) => ExprV::Literal(l@),
        Expr::Variable(name) => ExprV::Variable(name@),
    }
}

impl View for Expr {
    type V = ExprV;

    open spec fn view(&self) -> ExprV {
        expr_view(self)
    }
}

/// A statement; a program is a sequence of them, run in order.
#[derive(Debug, PartialEq)]
pub enum Stmt {
    Expression(Expr),
    Print(Expr),
    Var { name: String, initializer: Option<Expr> },
}

/// The mathematical value of a `Stmt`.
pub enum StmtV {
    Expression(ExprV),
    Print(ExprV),
    Var { name: Seq<char>, initializer: Option<ExprV> },
}

impl View for Stmt {
    type V = StmtV;

    open spec fn view(&self) -> StmtV {
        match self {
            Stmt::Expression(e) => StmtV::Expression(e@),
            Stmt::Print(e) => StmtV::Print(e@),
            Stmt::Var { name, initializer } => StmtV::Var {
                name: name@,
                initializer: match initializer {
                    Some(e) => Some(e@),
                    None => None,
                },
            },
        }
    }
}

/// The views of a sequence of statements.
pub open spec fn view_stmts(s: Seq<Stmt>) -> Seq<StmtV> {
    s.map_values(|st: Stmt| st@)
}

} // verus!
