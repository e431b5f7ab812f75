//! The front end's annotated expression tree.

use vstd::prelude::*;
use crate::token::{Span, TokenKind};

verus! {

/// Arithmetic operators of the surface syntax.
#[derive(Debug, Clone, Copy, PartialEq, Eq, Structural)]
pub enum Op {
    Add,
    Sub,
    Mul,
    Div,
}

impl Op {
    /// The display text of the operator.
    pub fn text(&self) -> (r: String)
        ensures
            r@ == (match *self {
                Op::Add => "+"@,
                Op::Sub => "-"@,
                Op::Mul => "*"@,
                Op::Div => "/"@,
            }),
    {
        match self {
            Op::Add => "+".to_owned(),
            Op::Sub => "-".to_owned(),
            Op::Mul => "*".to_owned(),
            Op::Div => "/".to_owned(),
        }
    }
}

/// A value of the front end together with its source span.
#[derive(Debug, PartialEq)]
pub struct Spanned<T> {
    pub inner: T,
    pub span: Span,
}

/// One node of the expression tree. A float literal carries its source
/// text and its IEEE-754 bit pattern; the parser records the text and
/// leaves the bits zero, and the embedding resolves the text to bits
/// before lowering, since decimal-to-binary conversion is floating-point
/// work this library does not perform itself.
#[derive(Debug, PartialEq)]
pub enum ExprKind {
    Float(String, u64),
    Ident(String),
    Str(String),
    Var(String, Box<Expr>, Type),
    Int(i64),
    Binary(Box<Expr>, TokenKind, Box<Expr>),
    Unary(TokenKind, Box<Expr>),
    Ref(Box<Expr>),
    If(Box<Expr>, Vec<Expr>),
    Enum(String, Vec<String>),
    FunctionCall(String, Vec<Expr>),
    FunctionDeclaration(String, Vec<Param>, Type, Vec<Expr>),
    Bool(bool),
    Block(Vec<Expr>),
    Puts(Vec<Expr>),
    Error,
    Eof,
}

impl ExprKind {
    pub fn boxed(self) -> (r: Box<Self>)
        ensures
            *r == self,
    {
        Box::new(self)
    }
}

/// A surface type annotation.
#[derive(Debug, PartialEq)]
pub enum Type {
    String,
    Int,
    Float,
    Bool,
    Ptr(Box<Type>),
    Nothing,
}

impl Type {
    pub fn boxed(self) -> (r: Box<Self>)
        ensures
            *r == self,
    {
        Box::new(self)
    }
}

pub type Expr = Spanned<ExprKind>;

impl Expr {
    pub fn boxed(self) -> (r: Box<Self>)
        ensures
            *r == self,
    {
        Box::new(self)
    }
}

/// One parameter of a function declaration.
#[derive(Debug, PartialEq)]
pub struct Param {
    pub param_type: Type,
    pub name: String,
}

} // verus!
