//! The syntax tree: expressions and statements, each node owning its
//! children.
use crate::token::{Literal, LiteralModel, Token, TokenModel};
use vstd::prelude::*;

verus! {

pub enum Expr {
    Assign(Token, Box<Expr>),
    Literal(Literal),
    Logical(Box<Expr>, Token, Box<Expr>),
    Binary(Box<Expr>, Token, Box<Expr>),
    Unary(Token, Box<Expr>),
    Grouping(Box<Expr>),
    Variable(Token),
    /// Callee, closing parenthesis, arguments.
    Call(Box<Expr>, Token, Vec<Expr>),
}

/// `for` has no node of its own: the parser lowers it to `While` inside
/// `Block`s.
pub enum Stmt {
    Block(Vec<Stmt>),
    Expression(Box<Expr>),
    If(Box<Expr>, Box<Stmt>, Option<Box<Stmt>>),
    Print(Box<Expr>),
    Var(Token, Box<Expr>),
    /// The `while` or `for` keyword, the condition, the body.
    While(Token, Box<Expr>, Box<Stmt>),
}

/// A parsed program: its statements in source order.
pub struct AST {
    pub root: Vec<Stmt>,
}

/// An expression in mathematical terms.
pub enum ExprModel {
    Assign(TokenModel, Box<ExprModel>),
    Literal(LiteralModel),
    Logical(Box<ExprModel>, TokenModel, Box<ExprModel>),
    Binary(Box<ExprModel>, TokenModel, Box<ExprModel>),
    Unary(TokenModel, Box<ExprModel>),
    Grouping(Box<ExprModel>),
    Variable(TokenModel),
    Call(Box<ExprModel>, TokenModel, Seq<ExprModel>),
}

/// A statement in mathematical terms.
pub enum StmtModel {
    Block(Seq<StmtModel>),
    Expression(ExprModel),
    If(ExprModel, Box<StmtModel>, Option<Box<StmtModel>>),
    Print(ExprModel),
    Var(TokenModel, ExprModel),
    While(TokenModel, ExprModel, Box<StmtModel>),
}

pub open spec fn expr_model(e: Expr) -> ExprModel
    decreases e,
{
    match e {
        Expr::Assign(t, v) => ExprModel::Assign(t@, Box::new(expr_model(*v))),
        Expr::Literal(l) => ExprModel::Literal(l@),
        Expr::Logical(l, op, r) => ExprModel::Logical(Box::new(expr_model(*l)), op@, Box::new(expr_model(*r))),
        Expr::Binary(l, op, r) => ExprModel::Binary(Box::new(expr_model(*l)), op@, Box::new(expr_model(*r))),
        Expr::Unary(op, r) => ExprModel::Unary(op@, Box::new(expr_model(*r))),
        Expr::Grouping(inner) => ExprModel::Grouping(Box::new(expr_model(*inner))),
        Expr::Variable(t) => ExprModel::Variable(t@),
        Expr::Call(c, p, args) => ExprModel::Call(
            Box::new(expr_model(*c)),
            p@,
            Seq::new(args@.len(), |i: int| if 0 <= i < args@.len() { expr_model(args@[i]) } else { ExprModel::Literal(LiteralModel::Nil) }),
        ),
    }
}

pub open spec fn stmt_model(s: Stmt) -> StmtModel
    decreases s,
{
    match s {
        Stmt::Block(ss) => StmtModel::Block(
            Seq::new(ss@.len(), |i: int| if 0 <= i < ss@.len() { stmt_model(ss@[i]) } else { StmtModel::Block(Seq::empty()) }),
        ),
        Stmt::Expression(e) => StmtModel::Expression(expr_model(*e)),
        Stmt::If(c, t, e) => StmtModel::If(expr_model(*c), Box::new(stmt_model(*t)), match e {
            Some(b) => Some(Box::new(stmt_model(*b))),
            None => None,
        }),
        Stmt::Print(e) => StmtModel::Print(expr_model(*e)),
        Stmt::Var(name, init) => StmtModel::Var(name@, expr_model(*init)),
        Stmt::While(kw, c, body) => StmtModel::While(kw@, expr_model(*c), Box::new(stmt_model(*body))),
    }
}

pub open spec fn stmts_model(ss: Seq<Stmt>) -> Seq<StmtModel> {
    Seq::new(ss.len(), |i: int| stmt_model(ss[i]))
}

} // verus!
