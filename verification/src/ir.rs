//! The typed intermediate representation the code generator consumes.
//!
//! Every `Expr::Value` node carries its own `IrType` at the point of value
//! production; binary operands are assumed (not re-checked) to share one
//! `IrType`. Float literals carry their IEEE-754 bit pattern, resolved from
//! the literal text by the embedding before lowering.

use vstd::prelude::*;

verus! {

/// The binary operators of the IR. Pure and total over operands of one
/// `IrType`.
#[derive(Debug, Clone, Copy, PartialEq, Eq, Structural)]
pub enum BinOp {
    Add,
    Sub,
    Mul,
    Div,
    Eq,
    Neq,
    Gt,
    Lt,
    Ge,
    Le,
}

impl BinOp {
    /// The inversion is defined only for `Eq` and `Gt`; every other
    /// operand is outside its domain and excluded by precondition.
    pub fn inverse(self) -> (r: Self)
        requires
            self is Eq || self is Gt,
        ensures
            r == (if self is Eq { BinOp::Neq } else { BinOp::Lt }),
    {
        match self {
            BinOp::Eq => BinOp::Neq,
            _ => BinOp::Lt,
        }
    }
}

/// The native representation class of a value.
#[derive(Debug, Clone, Copy, PartialEq, Eq, Structural)]
pub enum IrType {
    Int,
    Float,
    Str,
    Bool,
}

/// A literal value. `Float` holds the IEEE-754 bit pattern of the literal.
#[derive(Debug, PartialEq)]
pub enum Literal {
    Bool(bool),
    Str(String),
    Int(i64),
    Float(u64),
}

/// A value-producing node: a literal, or a binary operation over two
/// sub-expressions of the same type.
#[derive(Debug, PartialEq)]
pub enum IrValue {
    Literal(Literal),
    Binary(Box<Expr>, BinOp, Box<Expr>),
}

/// An IR expression. Pure except for the `Print*` variants, which are
/// effectful leaves that also yield a value (the call result).
#[derive(Debug, PartialEq)]
pub enum Expr {
    Value(IrValue, IrType),
    GetVar(String),
    PrintStr(Box<Expr>),
    PrintInt(Box<Expr>),
    PrintFloat(Box<Expr>),
}

impl Expr {
    pub fn boxed(self) -> (r: Box<Self>)
        ensures
            *r == self,
    {
        Box::new(self)
    }
}

/// An IR statement. A statement sequence executes in program order.
#[derive(Debug, PartialEq)]
pub enum Stmt {
    ExprStmt(Expr),
    SetVar(String, Expr),
    Var(String, Expr, IrType),
    If(Expr, Vec<Stmt>, Vec<Stmt>),
}

} // verus!
