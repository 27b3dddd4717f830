//! The program representation that the evaluator consumes: statements,
//! expressions, procedures.

use vstd::prelude::*;
use crate::number::Number;
use crate::tokenizer::Operator;

verus! {

/// The built-in procedures.
#[derive(Copy, Clone, Debug, PartialEq, Eq, Structural)]
pub enum Builtin {
    Print,
    List,
    IsEmpty,
    IsNil,
}

/// An expression. The operator of `Binary` is one with two operands, that
/// of `Unary` one with one operand; any other is an error of evaluation.
#[derive(Debug)]
pub enum Expr {
    Nil,
    Num(Number),
    Bool(bool),
    Str(String),
    Lambda(Vec<String>, Box<Statement>),
    Var(String),
    Binary(Operator, Box<Expr>, Box<Expr>),
    Unary(Operator, Box<Expr>),
    Call(Box<Expr>, Vec<Expr>),
    PrimitiveCall(Builtin, Vec<Expr>),
    Index(Box<Expr>, Box<Expr>),
}

/// A statement. Only `Block` opens a scope; the branches of `If` and the
/// body of `While` run in the scope in which the statement stands.
#[derive(Debug)]
pub enum Statement {
    Expr(Expr),
    Let(String, Expr),
    Const(String, Expr),
    Assign(String, Expr),
    If(Expr, Box<Statement>, Option<Box<Statement>>),
    While(Expr, Box<Statement>),
    Return(Option<Expr>),
    Break,
    Continue,
    Block(Vec<Statement>),
}

/// A top-level procedure.
#[derive(Debug)]
pub struct Procedure {
    pub name: String,
    pub params: Vec<String>,
    pub body: Statement,
}

/// A program: its procedures and the statement at which it starts.
#[derive(Debug)]
pub struct Program {
    pub procedures: Vec<Procedure>,
    pub main: Statement,
}

/// The names of a parameter list.
pub open spec fn names_of(params: Seq<String>) -> Seq<Seq<char>> {
    Seq::new(params.len(), |i: int| params[i]@)
}

} // verus!
