//! A thin, append-ordered construction façade over the IR.
//!
//! The construction helpers never fail; `finish` hands the accumulated
//! statements to the code-generation engine.

use vstd::prelude::*;
use crate::ir::{BinOp, IrType, Literal, IrValue, Expr, Stmt};
use crate::compiler::Compiler;

verus! {

/// Accumulates the statement sequence of the single function body under
/// construction.
pub struct Builder {
    pub code: Vec<Stmt>,
}

impl Builder {
    pub fn new() -> (r: Self)
        ensures
            r.code@ == Seq::<Stmt>::empty(),
    {
        Builder { code: Vec::new() }
    }

    /// An expression statement: evaluate and discard.
    pub fn expr(&self, expr: Expr) -> (r: Stmt)
        ensures
            r == Stmt::ExprStmt(expr),
    {
        Stmt::ExprStmt(expr)
    }

    /// Appends a finished statement to the program.
    pub fn stmt(&mut self, stmt: Stmt)
        ensures
            final(self).code@ == old(self).code@.push(stmt),
    {
        self.code.push(stmt);
    }

    /// An integer literal expression.
    pub fn integer(&self, value: i64) -> (r: Expr)
        ensures
            r == Expr::Value(IrValue::Literal(Literal::Int(value)), IrType::Int),
    {
        Expr::Value(IrValue::Literal(Literal::Int(value)), IrType::Int)
    }

    /// A float literal expression, from its IEEE-754 bit pattern.
    pub fn float(&self, bits: u64) -> (r: Expr)
        ensures
            r == Expr::Value(IrValue::Literal(Literal::Float(bits)), IrType::Float),
    {
        Expr::Value(IrValue::Literal(Literal::Float(bits)), IrType::Float)
    }

    /// A string literal expression.
    pub fn string(&self, string: &String) -> (r: Expr)
        ensures
            r == Expr::Value(IrValue::Literal(Literal::Str(*string)), IrType::Str),
    {
        Expr::Value(IrValue::Literal(Literal::Str(string.clone())), IrType::Str)
    }

    /// A boolean literal expression.
    pub fn boolean(&self, boolean: bool) -> (r: Expr)
        ensures
            r == Expr::Value(IrValue::Literal(Literal::Bool(boolean)), IrType::Bool),
    {
        Expr::Value(IrValue::Literal(Literal::Bool(boolean)), IrType::Bool)
    }

    /// A binary expression of the given result type.
    pub fn binary(&self, left: Expr, op: BinOp, right: Expr, ty: IrType) -> (r: Expr)
        ensures
            r == Expr::Value(IrValue::Binary(Box::new(left), op, Box::new(right)), ty),
    {
        Expr::Value(IrValue::Binary(left.boxed(), op, right.boxed()), ty)
    }

    /// A string-print call around the expression.
    pub fn str_print(&self, s: Expr) -> (r: Expr)
        ensures
            r == Expr::PrintStr(Box::new(s)),
    {
        Expr::PrintStr(s.boxed())
    }

    /// An integer-print call around the expression.
    pub fn int_print(&self, s: Expr) -> (r: Expr)
        ensures
            r == Expr::PrintInt(Box::new(s)),
    {
        Expr::PrintInt(s.boxed())
    }

    /// A float-print call around the expression.
    pub fn float_print(&self, s: Expr) -> (r: Expr)
        ensures
            r == Expr::PrintFloat(Box::new(s)),
    {
        Expr::PrintFloat(s.boxed())
    }

    /// A statement introducing and initializing a fresh binding.
    pub fn new_var(&mut self, name: &String, value: Expr, ty: IrType) -> (r: Stmt)
        ensures
            r == Stmt::Var(*name, value, ty),
            final(self).code@ == old(self).code@,
    {
        Stmt::Var(name.clone(), value, ty)
    }

    /// A read of an existing binding.
    pub fn get_var(&self, name: &String) -> (r: Expr)
        ensures
            r == Expr::GetVar(*name),
    {
        Expr::GetVar(name.clone())
    }

    /// Appends a mutation of an existing binding.
    pub fn set_var(&mut self, name: &String, value: Expr)
        ensures
            final(self).code@ == old(self).code@.push(Stmt::SetVar(*name, value)),
    {
        self.code.push(Stmt::SetVar(name.clone(), value));
    }

    /// A two-armed conditional with a result value.
    pub fn if_(&self, condition: Expr, stmts: Vec<Stmt>, else_: Vec<Stmt>) -> (r: Stmt)
        ensures
            r == Stmt::If(condition, stmts, else_),
    {
        Stmt::If(condition, stmts, else_)
    }

    /// Compiles the accumulated program into executable memory. The
    /// returned module owns that memory; the identifier names the
    /// generated entry point inside it, and the embedding invokes it
    /// while the module is alive. On success, the action program handed
    /// to the backend was exactly the translation of the accumulated
    /// statements and passed the emitter's checks; failures come back
    /// as errors, never as an abort.
    pub fn finish(self) -> (r: Result<(cranelift_jit::JITModule, u32), String>)
        ensures
            r is Ok ==> crate::compiler::acts_ok(
                crate::trans::spec_build_program(self.code@).0,
            ),
    {
        let compiler = match Compiler::new() {
            Ok(c) => c,
            Err(e) => {
                return Err(e);
            },
        };
        compiler.compile(&self.code)
    }
}

} // verus!
