//! Lowering from the checked expression tree to the typed IR.
//!
//! `spec_lower_stmt` says exactly which IR each supported statement
//! becomes: declared types are trusted for storage, a conditional's else
//! arm is always empty (the surface language has none yet), and a binary
//! node's IR type is the checked type of its left operand.

use vstd::prelude::*;
use crate::ast::{Expr, ExprKind, Type};
use crate::builder::Builder;
use crate::ir;
use crate::ir::{BinOp, IrType, Literal, IrValue};
use crate::token::TokenKind;
use crate::typechecker::{TypeChecker, spec_type_of, supported_expr, is_supported_expr, type_of_expr};

verus! {

/// The IR operator for a surface operator token, if it is one of the ten
/// recognized operators.
pub open spec fn tok_op(t: TokenKind) -> Option<BinOp> {
    match t {
        TokenKind::Plus => Some(BinOp::Add),
        TokenKind::Minus => Some(BinOp::Sub),
        TokenKind::Asterisk => Some(BinOp::Mul),
        TokenKind::Slash => Some(BinOp::Div),
        TokenKind::EqualTo => Some(BinOp::Eq),
        TokenKind::NotEqual => Some(BinOp::Neq),
        TokenKind::GreaterThan => Some(BinOp::Gt),
        TokenKind::LessThan => Some(BinOp::Lt),
        TokenKind::GreaterThanEqual => Some(BinOp::Ge),
        TokenKind::LessThanEqual => Some(BinOp::Le),
        _ => None,
    }
}

/// The IR type for a surface type, where one exists.
pub open spec fn to_ir_ty(t: Type) -> Option<IrType> {
    match t {
        Type::String => Some(IrType::Str),
        Type::Int => Some(IrType::Int),
        Type::Float => Some(IrType::Float),
        Type::Bool => Some(IrType::Bool),
        _ => None,
    }
}

/// Which expressions lower: the five literal and variable forms, binary
/// nodes over a recognized operator whose left operand's checked type
/// has an IR type, and an output call with at least one argument (only
/// the first is lowered).
pub open spec fn lowerable_expr(e: ExprKind) -> bool
    decreases e, 0nat,
{
    match e {
        ExprKind::Float(_, _) => true,
        ExprKind::Ident(_) => true,
        ExprKind::Str(_) => true,
        ExprKind::Int(_) => true,
        ExprKind::Bool(_) => true,
        ExprKind::Binary(l, tok, r) => tok_op(tok) is Some
            && to_ir_ty(spec_type_of((*l).inner)) is Some && supported_expr((*l).inner)
            && lowerable_expr((*l).inner) && lowerable_expr((*r).inner),
        ExprKind::Puts(args) => args@.len() > 0 && lowerable_expr(args@[0].inner),
        _ => false,
    }
}

/// The IR an expression lowers to.
pub open spec fn spec_lower_expr(e: ExprKind) -> ir::Expr
    decreases e, 0nat,
{
    match e {
        ExprKind::Float(_, bits) => ir::Expr::Value(
            IrValue::Literal(Literal::Float(bits)),
            IrType::Float,
        ),
        ExprKind::Ident(name) => ir::Expr::GetVar(name),
        ExprKind::Str(s) => ir::Expr::Value(IrValue::Literal(Literal::Str(s)), IrType::Str),
        ExprKind::Int(i) => ir::Expr::Value(IrValue::Literal(Literal::Int(i)), IrType::Int),
        ExprKind::Bool(b) => ir::Expr::Value(IrValue::Literal(Literal::Bool(b)), IrType::Bool),
        ExprKind::Binary(l, tok, r) => {
            let op = match tok_op(tok) {
                Some(op) => op,
                None => BinOp::Add,
            };
            let ty = match to_ir_ty(spec_type_of((*l).inner)) {
                Some(t) => t,
                None => IrType::Int,
            };
            ir::Expr::Value(
                IrValue::Binary(
                    Box::new(spec_lower_expr((*l).inner)),
                    op,
                    Box::new(spec_lower_expr((*r).inner)),
                ),
                ty,
            )
        },
        ExprKind::Puts(args) => {
            if args@.len() > 0 {
                ir::Expr::PrintStr(Box::new(spec_lower_expr(args@[0].inner)))
            } else {
                ir::Expr::PrintStr(
                    Box::new(ir::Expr::Value(IrValue::Literal(Literal::Int(0)), IrType::Int)),
                )
            }
        },
        _ => ir::Expr::Value(IrValue::Literal(Literal::Int(0)), IrType::Int),
    }
}

/// Which statements lower: typed declarations whose type and initializer
/// lower, conditionals whose condition and body lower, and bare
/// lowerable expressions.
pub open spec fn lowerable_stmt(e: ExprKind) -> bool
    decreases e, 1nat, 0nat,
{
    match e {
        ExprKind::Var(_, value, ty) => to_ir_ty(ty) is Some && lowerable_expr((*value).inner),
        ExprKind::If(c, then_body) => lowerable_expr((*c).inner) && lowerable_stmts(
            then_body@,
            0,
        ),
        _ => lowerable_expr(e),
    }
}

pub open spec fn lowerable_stmts(es: Seq<Expr>, i: int) -> bool
    decreases es, es.len() - i, 2nat,
{
    i < 0 || i >= es.len() || (lowerable_stmt(es[i].inner) && lowerable_stmts(es, i + 1))
}

/// What IR statement a statement-level expression lowers to. The
/// declared type, not an inferred one, is trusted for storage; the else
/// arm of a conditional is always empty.
pub open spec fn stmt_lowers_to(e: ExprKind, s: ir::Stmt) -> bool
    decreases e, 1nat, 0nat,
{
    match e {
        ExprKind::Var(name, value, ty) => {
            let irty = match to_ir_ty(ty) {
                Some(t) => t,
                None => IrType::Int,
            };
            s == ir::Stmt::Var(name, spec_lower_expr((*value).inner), irty)
        },
        ExprKind::If(c, then_body) => s matches ir::Stmt::If(cond, blk, els)
            && cond == spec_lower_expr((*c).inner) && stmts_lower_to(then_body@, blk@)
            && els@ == Seq::<ir::Stmt>::empty(),
        _ => s == ir::Stmt::ExprStmt(spec_lower_expr(e)),
    }
}

pub open spec fn stmts_lower_to(es: Seq<Expr>, out: Seq<ir::Stmt>) -> bool
    decreases es, es.len(), 2nat,
{
    out.len() == es.len() && forall|i: int|
        0 <= i < es.len() ==> stmt_lowers_to(#[trigger] es[i].inner, out[i])
}

/// The lowering stage: walks the checked tree and appends IR statements
/// to the builder, consulting the type checker at binary sites.
pub struct Lower<'a> {
    pub ast: &'a Vec<Expr>,
    pub builder: Builder,
    pub checker: TypeChecker<'a>,
}

impl<'a> Lower<'a> {
    pub fn new(ast: &'a Vec<Expr>, checker: TypeChecker<'a>) -> (r: Self)
        ensures
            r.ast == ast,
            r.builder.code@ == Seq::<ir::Stmt>::empty(),
            r.checker == checker,
    {
        Lower { ast, builder: Builder::new(), checker }
    }

    /// Lowers every top-level statement into the builder, in program
    /// order.
    pub fn translate(&mut self)
        requires
            lowerable_stmts(old(self).ast@, 0),
        ensures
            final(self).builder.code@.len() == old(self).builder.code@.len()
                + old(self).ast@.len(),
            final(self).builder.code@.take(old(self).builder.code@.len() as int) == old(
                self,
            ).builder.code@,
            stmts_lower_to(
                old(self).ast@,
                final(self).builder.code@.skip(old(self).builder.code@.len() as int),
            ),
            final(self).ast == old(self).ast,
    {
        let ast = self.ast;
        let ghost base = self.builder.code@;
        let mut i: usize = 0;
        while i < ast.len()
            invariant
                i <= ast.len(),
                self.ast == ast,
                base == old(self).builder.code@,
                lowerable_stmts(ast@, 0),
                lowerable_stmts(ast@, i as int),
                self.builder.code@.len() == base.len() + i,
                self.builder.code@.take(base.len() as int) == base,
                forall|j: int|
                    0 <= j < i ==> stmt_lowers_to(
                        #[trigger] ast@[j].inner,
                        self.builder.code@[base.len() + j],
                    ),
            decreases ast.len() - i,
        {
            let s = self.translate_stmt(&ast[i]);
            self.builder.stmt(s);
            i = i + 1;
            proof {
                assert(self.builder.code@.take(base.len() as int) =~= base);
            }
        }
        proof {
            let added = self.builder.code@.skip(base.len() as int);
            assert(added.len() == ast@.len());
            assert forall|j: int| 0 <= j < ast@.len() implies stmt_lowers_to(
                #[trigger] ast@[j].inner,
                added[j],
            ) by {
                assert(added[j] == self.builder.code@[base.len() + j]);
            }
        }
    }

    /// Lowers one statement-level expression.
    pub fn translate_stmt(&mut self, stmt: &Expr) -> (r: ir::Stmt)
        requires
            lowerable_stmt(stmt.inner),
        ensures
            stmt_lowers_to(stmt.inner, r),
            final(self).ast == old(self).ast,
            final(self).builder.code@ == old(self).builder.code@,
        decreases stmt.inner, 1nat, 0nat,
    {
        match &stmt.inner {
            ExprKind::Var(name, value, ty) => {
                let ir_ty = self.to_ir_type(ty);
                let value_ir = self.translate_expr(&**value);
                self.builder.new_var(name, value_ir, ir_ty)
            },
            ExprKind::If(if_, then_body) => {
                proof {
                    assert(stmt.inner == ExprKind::If(*if_, *then_body));
                }
                let condition = self.translate_expr(&**if_);
                let mut block: Vec<ir::Stmt> = Vec::new();
                let mut k: usize = 0;
                while k < then_body.len()
                    invariant
                        k <= then_body.len(),
                        stmt.inner == ExprKind::If(*if_, *then_body),
                        lowerable_stmts(then_body@, 0),
                        lowerable_stmts(then_body@, k as int),
                        block@.len() == k,
                        forall|j: int|
                            0 <= j < k ==> stmt_lowers_to(
                                #[trigger] then_body@[j].inner,
                                block@[j],
                            ),
                        self.ast == old(self).ast,
                        self.builder.code@ == old(self).builder.code@,
                    decreases then_body.len() - k,
                {
                    proof {
                        let ev = stmt.inner;
                        match ev {
                            ExprKind::If(_gc, gb) => {
                                assert(gb == *then_body);
                                assert(decreases_to!(ev => gb));
                                assert(decreases_to!(gb => gb@));
                                assert(decreases_to!(gb@ => gb@[k as int]));
                            },
                            _ => {},
                        }
                        assert(decreases_to!(stmt.inner => then_body@[k as int]));
                    }
                    let s = self.translate_stmt(&then_body[k]);
                    block.push(s);
                    k = k + 1;
                }
                proof {
                    assert(stmts_lower_to(then_body@, block@));
                }
                let els: Vec<ir::Stmt> = Vec::new();
                proof {
                    assert(els@ =~= Seq::<ir::Stmt>::empty());
                }
                self.builder.if_(condition, block, els)
            },
            _ => {
                let expr = self.translate_expr(stmt);
                self.builder.expr(expr)
            },
        }
    }

    /// Lowers one expression. At a binary site the result type is the
    /// checked type of the left operand alone; operand types are assumed
    /// equal upstream.
    pub fn translate_expr(&mut self, expr: &Expr) -> (r: ir::Expr)
        requires
            lowerable_expr(expr.inner),
        ensures
            r == spec_lower_expr(expr.inner),
            final(self).ast == old(self).ast,
            final(self).builder.code@ == old(self).builder.code@,
        decreases expr.inner, 0nat, 0nat,
    {
        match &expr.inner {
            ExprKind::Float(_text, bits) => self.builder.float(*bits),
            ExprKind::Ident(ident) => self.builder.get_var(ident),
            ExprKind::Str(s) => self.builder.string(s),
            ExprKind::Int(i) => self.builder.integer(*i),
            ExprKind::Bool(b) => self.builder.boolean(*b),
            ExprKind::Binary(left, tok, right) => {
                let op = match tok {
                    TokenKind::Plus => BinOp::Add,
                    TokenKind::Minus => BinOp::Sub,
                    TokenKind::Asterisk => BinOp::Mul,
                    TokenKind::Slash => BinOp::Div,
                    TokenKind::EqualTo => BinOp::Eq,
                    TokenKind::NotEqual => BinOp::Neq,
                    TokenKind::GreaterThan => BinOp::Gt,
                    TokenKind::LessThan => BinOp::Lt,
                    TokenKind::GreaterThanEqual => BinOp::Ge,
                    TokenKind::LessThanEqual => BinOp::Le,
                    _ => BinOp::Add,
                };
                let ty = self.checker.handle(&**left);
                let left_ir = self.translate_expr(&**left);
                let right_ir = self.translate_expr(&**right);
                let ir_type = self.to_ir_type(&ty);
                self.builder.binary(left_ir, op, right_ir, ir_type)
            },
            ExprKind::Puts(args) => {
                proof {
                    assert(expr.inner == ExprKind::Puts(*args));
                    let ev = expr.inner;
                    match ev {
                        ExprKind::Puts(ga) => {
                            assert(ga == *args);
                            assert(decreases_to!(ev => ga));
                            assert(decreases_to!(ga => ga@));
                            assert(decreases_to!(ga@ => ga@[0]));
                        },
                        _ => {},
                    }
                    assert(decreases_to!(expr.inner => args@[0]));
                }
                let s = self.translate_expr(&args[0]);
                self.builder.str_print(s)
            },
            _ => {
                // Outside `lowerable_expr`, which the precondition rules
                // out.
                self.builder.integer(0)
            },
        }
    }

    /// The IR type of a surface type.
    fn to_ir_type(&self, ty: &Type) -> (r: IrType)
        requires
            to_ir_ty(*ty) is Some,
        ensures
            Some(r) == to_ir_ty(*ty),
    {
        match ty {
            Type::String => IrType::Str,
            Type::Int => IrType::Int,
            Type::Float => IrType::Float,
            Type::Bool => IrType::Bool,
            _ => IrType::Int,
        }
    }

    /// Compiles the lowered program into executable memory; the returned
    /// module owns it and the identifier names the entry point. On
    /// success, the action program handed to the backend was exactly
    /// the translation of the lowered statements.
    pub fn finish(self) -> (r: Result<(cranelift_jit::JITModule, u32), String>)
        ensures
            r is Ok ==> crate::compiler::acts_ok(
                crate::trans::spec_build_program(self.builder.code@).0,
            ),
    {
        self.builder.finish()
    }
}


/// Decides `lowerable_expr`, so an embedding can test a checked tree
/// before lowering it.
pub fn is_lowerable_expr(e: &Expr) -> (r: bool)
    ensures
        r == lowerable_expr(e.inner),
    decreases e.inner, 0nat,
{
    match &e.inner {
        ExprKind::Float(_, _) => true,
        ExprKind::Ident(_) => true,
        ExprKind::Str(_) => true,
        ExprKind::Int(_) => true,
        ExprKind::Bool(_) => true,
        ExprKind::Binary(l, tok, r) => {
            let op_known = matches!(
                tok,
                TokenKind::Plus | TokenKind::Minus | TokenKind::Asterisk | TokenKind::Slash
                    | TokenKind::EqualTo | TokenKind::NotEqual | TokenKind::GreaterThan
                    | TokenKind::LessThan | TokenKind::GreaterThanEqual
                    | TokenKind::LessThanEqual,
            );
            if !op_known {
                return false;
            }
            let lt = type_of_expr(&**l);
            let ty_known = matches!(lt, Type::String | Type::Int | Type::Float | Type::Bool);
            if !ty_known {
                return false;
            }
            is_supported_expr(&**l) && is_lowerable_expr(&**l) && is_lowerable_expr(&**r)
        },
        ExprKind::Puts(args) => {
            proof {
                assert(e.inner == ExprKind::Puts(*args));
            }
            if args.len() == 0 {
                return false;
            }
            proof {
                let ev = e.inner;
                match ev {
                    ExprKind::Puts(ga) => {
                        assert(ga == *args);
                        assert(decreases_to!(ev => ga));
                        assert(decreases_to!(ga => ga@));
                        assert(decreases_to!(ga@ => ga@[0]));
                    },
                    _ => {},
                }
                assert(decreases_to!(e.inner => args@[0]));
            }
            is_lowerable_expr(&args[0])
        },
        _ => false,
    }
}

/// Decides `lowerable_stmt`.
pub fn is_lowerable_stmt(e: &Expr) -> (r: bool)
    ensures
        r == lowerable_stmt(e.inner),
    decreases e.inner, 1nat, 0nat,
{
    match &e.inner {
        ExprKind::Var(_, value, ty) => {
            let ty_known = matches!(ty, Type::String | Type::Int | Type::Float | Type::Bool);
            ty_known && is_lowerable_expr(&**value)
        },
        ExprKind::If(c, then_body) => {
            proof {
                assert(e.inner == ExprKind::If(*c, *then_body));
            }
            if !is_lowerable_expr(&**c) {
                return false;
            }
            let mut k: usize = 0;
            while k < then_body.len()
                invariant
                    k <= then_body.len(),
                    e.inner == ExprKind::If(*c, *then_body),
                    lowerable_stmts(then_body@, 0) == lowerable_stmts(then_body@, k as int),
                decreases then_body.len() - k,
            {
                proof {
                    let ev = e.inner;
                    match ev {
                        ExprKind::If(_gc, gb) => {
                            assert(gb == *then_body);
                            assert(decreases_to!(ev => gb));
                            assert(decreases_to!(gb => gb@));
                            assert(decreases_to!(gb@ => gb@[k as int]));
                        },
                        _ => {},
                    }
                    assert(decreases_to!(e.inner => then_body@[k as int]));
                }
                if !is_lowerable_stmt(&then_body[k]) {
                    return false;
                }
                k = k + 1;
            }
            true
        },
        _ => is_lowerable_expr(e),
    }
}

/// Decides `lowerable_stmts` over a whole program.
pub fn is_lowerable_program(ast: &Vec<Expr>) -> (r: bool)
    ensures
        r == lowerable_stmts(ast@, 0),
{
    let mut k: usize = 0;
    while k < ast.len()
        invariant
            k <= ast.len(),
            lowerable_stmts(ast@, 0) == lowerable_stmts(ast@, k as int),
        decreases ast.len() - k,
    {
        if !is_lowerable_stmt(&ast[k]) {
            return false;
        }
        k = k + 1;
    }
    true
}

} // verus!
