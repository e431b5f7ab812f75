//! The static type checker the lowering stage consults.
//!
//! `handle` both computes an expression's type and records a diagnostic
//! for every operand-type mismatch it meets, exactly one per mismatched
//! variable initializer or binary node.

use vstd::prelude::*;
use crate::ast::{Expr, ExprKind, Param, Type};
use crate::error::Error;

verus! {

/// The expression kinds this checker covers; the remaining kinds are
/// upstream work in progress and outside every contract here.
pub open spec fn supported_expr(e: ExprKind) -> bool
    decreases e, 0nat,
{
    match e {
        ExprKind::Unary(_, _) => false,
        ExprKind::FunctionCall(_, _) => false,
        ExprKind::Ref(_) => false,
        ExprKind::Var(_, v, _) => supported_expr((*v).inner),
        ExprKind::Binary(l, _, r) => supported_expr((*l).inner) && supported_expr((*r).inner),
        ExprKind::If(c, body) => supported_expr((*c).inner) && supported_exprs(body@, 0),
        ExprKind::Block(body) => supported_exprs(body@, 0),
        _ => true,
    }
}

pub open spec fn supported_exprs(es: Seq<Expr>, i: int) -> bool
    decreases es, es.len() - i, 1nat,
{
    i < 0 || i >= es.len() || (supported_expr(es[i].inner) && supported_exprs(es, i + 1))
}

/// The type the checker assigns to an expression. An identifier is
/// always taken as an integer: this checker does not yet track binding
/// types, and the backend trusts declared types instead.
pub open spec fn spec_type_of(e: ExprKind) -> Type
    decreases e,
{
    match e {
        ExprKind::Int(_) => Type::Int,
        ExprKind::Float(_, _) => Type::Float,
        ExprKind::Ident(_) => Type::Int,
        ExprKind::Str(_) => Type::String,
        ExprKind::Binary(l, _, _) => spec_type_of((*l).inner),
        ExprKind::Bool(_) => Type::Bool,
        _ => Type::Nothing,
    }
}

/// How many mismatch diagnostics checking an expression records: one per
/// variable initializer whose type differs from the declared one, and
/// one per binary node whose operand types differ.
pub open spec fn expr_errs(e: ExprKind) -> nat
    decreases e, 0nat,
{
    match e {
        ExprKind::Var(_, v, ty) => expr_errs((*v).inner) + if spec_type_of((*v).inner) != ty {
            1nat
        } else {
            0nat
        },
        ExprKind::Binary(l, _, r) => expr_errs((*l).inner) + expr_errs((*r).inner) + if
            spec_type_of((*l).inner) != spec_type_of((*r).inner) {
            1nat
        } else {
            0nat
        },
        ExprKind::If(c, body) => expr_errs((*c).inner) + exprs_errs(body@, 0),
        ExprKind::Block(body) => exprs_errs(body@, 0),
        _ => 0,
    }
}

pub open spec fn exprs_errs(es: Seq<Expr>, i: int) -> nat
    decreases es, es.len() - i, 1nat,
{
    if i < 0 || i >= es.len() {
        0
    } else {
        expr_errs(es[i].inner) + exprs_errs(es, i + 1)
    }
}

/// Structural equality of surface types.
fn type_eq(a: &Type, b: &Type) -> (r: bool)
    ensures
        r == (a == b),
    decreases *a,
{
    match (a, b) {
        (Type::String, Type::String) => true,
        (Type::Int, Type::Int) => true,
        (Type::Float, Type::Float) => true,
        (Type::Bool, Type::Bool) => true,
        (Type::Nothing, Type::Nothing) => true,
        (Type::Ptr(x), Type::Ptr(y)) => type_eq(&**x, &**y),
        _ => false,
    }
}

/// A copy of a surface type.
fn type_dup(t: &Type) -> (r: Type)
    ensures
        r == *t,
    decreases *t,
{
    match t {
        Type::String => Type::String,
        Type::Int => Type::Int,
        Type::Float => Type::Float,
        Type::Bool => Type::Bool,
        Type::Nothing => Type::Nothing,
        Type::Ptr(x) => Type::Ptr(Box::new(type_dup(&**x))),
    }
}

/// The lower-case display text of a surface type, as diagnostics name
/// types.
fn type_text(t: &Type) -> (r: String)
    decreases *t,
{
    match t {
        Type::String => "string".to_owned(),
        Type::Int => "int".to_owned(),
        Type::Float => "float".to_owned(),
        Type::Bool => "bool".to_owned(),
        Type::Nothing => "nothing".to_owned(),
        Type::Ptr(x) => "ptr(".to_owned().concat(type_text(&**x).as_str()).concat(")"),
    }
}

/// A function's recorded signature.
pub struct FuncSig {
    pub return_type: Type,
    pub params_type: Vec<Type>,
}

/// The checker: walks the tree, collects mismatch diagnostics, and
/// records function signatures.
pub struct TypeChecker<'a> {
    pub ast: &'a Vec<Expr>,
    pub errors: Vec<Error>,
    pub sigs: Vec<(String, FuncSig)>,
    pub source: String,
    pub filename: String,
}

impl<'a> TypeChecker<'a> {
    pub fn new(ast: &'a Vec<Expr>, source: &str, filename: &str) -> (r: Self)
        ensures
            r.errors@ == Seq::<Error>::empty(),
            r.ast == ast,
    {
        TypeChecker {
            ast,
            source: source.to_owned(),
            filename: filename.to_owned(),
            errors: Vec::new(),
            sigs: Vec::new(),
        }
    }

    /// Checks every top-level expression and says whether any
    /// diagnostic — earlier or newly found — stands afterwards.
    pub fn check(&mut self) -> (r: bool)
        requires
            supported_exprs(old(self).ast@, 0),
        ensures
            final(self).errors@.len() == old(self).errors@.len() + exprs_errs(
                old(self).ast@,
                0,
            ),
            r == (old(self).errors@.len() + exprs_errs(old(self).ast@, 0) > 0),
            final(self).ast == old(self).ast,
    {
        let ast = self.ast;
        let ghost base = self.errors@.len();
        let mut i: usize = 0;
        while i < ast.len()
            invariant
                i <= ast.len(),
                self.ast == ast,
                supported_exprs(ast@, 0),
                base + exprs_errs(ast@, 0) == self.errors@.len() + exprs_errs(ast@, i as int),
                supported_exprs(ast@, i as int),
            decreases ast.len() - i,
        {
            let _t = self.handle(&ast[i]);
            i = i + 1;
        }
        self.had_errors()
    }

    /// Computes the expression's type, recording one diagnostic per
    /// operand-type mismatch met on the way.
    pub fn handle(&mut self, expr: &Expr) -> (t: Type)
        requires
            supported_expr(expr.inner),
        ensures
            t == spec_type_of(expr.inner),
            final(self).errors@.len() == old(self).errors@.len() + expr_errs(expr.inner),
            final(self).ast == old(self).ast,
            final(self).source == old(self).source,
            final(self).filename == old(self).filename,
        decreases expr.inner, 0nat,
    {
        match &expr.inner {
            ExprKind::Int(_) => Type::Int,
            ExprKind::Float(_, _) => Type::Float,
            ExprKind::Ident(_) => Type::Int,
            ExprKind::Str(_) => Type::String,
            ExprKind::Var(_, val, ty) => {
                let ty_val = self.handle(&**val);
                if !type_eq(&ty_val, ty) {
                    let msg = "Expected type ".to_owned().concat(
                        type_text(ty).as_str(),
                    ).concat(" found type ").concat(type_text(&ty_val).as_str());
                    let err = Error {
                        source: self.source.clone(),
                        file_name: self.filename.clone(),
                        message: msg,
                        span: val.span,
                        help: "".to_owned(),
                    };
                    self.errors.push(err);
                }
                Type::Nothing
            },
            ExprKind::Binary(lhs, _, rhs) => {
                let lhs_ty = self.handle(&**lhs);
                let rhs_ty = self.handle(&**rhs);
                if !type_eq(&lhs_ty, &rhs_ty) {
                    let err = Error {
                        source: self.source.clone(),
                        file_name: self.filename.clone(),
                        message: "Cannot do binary operations, with different types".to_owned(),
                        span: expr.span,
                        help: "".to_owned(),
                    };
                    self.errors.push(err);
                }
                lhs_ty
            },
            ExprKind::If(condition, exprs) => {
                proof {
                    assert(expr.inner == ExprKind::If(*condition, *exprs));
                }
                let _c = self.handle(&**condition);
                let ghost base = self.errors@.len();
                let mut k: usize = 0;
                while k < exprs.len()
                    invariant
                        k <= exprs.len(),
                        supported_exprs(exprs@, 0),
                        supported_exprs(exprs@, k as int),
                        base + exprs_errs(exprs@, 0) == self.errors@.len() + exprs_errs(
                            exprs@,
                            k as int,
                        ),
                        self.ast == old(self).ast,
                        self.source == old(self).source,
                        self.filename == old(self).filename,
                        expr.inner == ExprKind::If(*condition, *exprs),
                    decreases exprs.len() - k,
                {
                    proof {
                        let ev = expr.inner;
                        match ev {
                            ExprKind::If(_gc, gb) => {
                                assert(gb == *exprs);
                                assert(decreases_to!(ev => gb));
                                assert(decreases_to!(gb => gb@));
                                assert(decreases_to!(gb@ => gb@[k as int]));
                            },
                            _ => {},
                        }
                        assert(decreases_to!(expr.inner => exprs@[k as int]));
                        assert(decreases_to!(exprs@[k as int] => exprs@[k as int].inner));
                    }
                    let _t = self.handle(&exprs[k]);
                    k = k + 1;
                }
                Type::Nothing
            },
            ExprKind::Enum(_, _) => Type::Nothing,
            ExprKind::FunctionDeclaration(name, params, return_type, _exprs) => {
                let mut params_type: Vec<Type> = Vec::new();
                let mut k: usize = 0;
                while k < params.len()
                    invariant
                        k <= params.len(),
                    decreases params.len() - k,
                {
                    params_type.push(type_dup(&params[k].param_type));
                    k = k + 1;
                }
                let sig = FuncSig { return_type: type_dup(return_type), params_type };
                self.sigs.push((name.clone(), sig));
                Type::Nothing
            },
            ExprKind::Bool(_) => Type::Bool,
            ExprKind::Block(exprs) => {
                proof {
                    assert(expr.inner == ExprKind::Block(*exprs));
                }
                let ghost base = self.errors@.len();
                let mut k: usize = 0;
                while k < exprs.len()
                    invariant
                        k <= exprs.len(),
                        supported_exprs(exprs@, 0),
                        supported_exprs(exprs@, k as int),
                        base + exprs_errs(exprs@, 0) == self.errors@.len() + exprs_errs(
                            exprs@,
                            k as int,
                        ),
                        self.ast == old(self).ast,
                        self.source == old(self).source,
                        self.filename == old(self).filename,
                        expr.inner == ExprKind::Block(*exprs),
                    decreases exprs.len() - k,
                {
                    proof {
                        let ev = expr.inner;
                        match ev {
                            ExprKind::Block(gb) => {
                                assert(gb == *exprs);
                                assert(decreases_to!(ev => gb));
                                assert(decreases_to!(gb => gb@));
                                assert(decreases_to!(gb@ => gb@[k as int]));
                            },
                            _ => {},
                        }
                        assert(decreases_to!(expr.inner => exprs@[k as int]));
                    }
                    let _t = self.handle(&exprs[k]);
                    k = k + 1;
                }
                Type::Nothing
            },
            ExprKind::Error => Type::Nothing,
            ExprKind::Eof => Type::Nothing,
            ExprKind::Puts(_) => Type::Nothing,
            ExprKind::Unary(_, _) => Type::Nothing,
            ExprKind::FunctionCall(_, _) => Type::Nothing,
            ExprKind::Ref(_) => Type::Nothing,
        }
    }

    /// Whether any diagnostic has been recorded.
    pub fn had_errors(&self) -> (r: bool)
        ensures
            r == (self.errors@.len() > 0),
    {
        self.errors.len() > 0
    }
}


/// A pure computation of the type the checker assigns, for callers that
/// must know it before running the checker.
pub fn type_of_expr(e: &Expr) -> (t: Type)
    ensures
        t == spec_type_of(e.inner),
    decreases e.inner,
{
    match &e.inner {
        ExprKind::Int(_) => Type::Int,
        ExprKind::Float(_, _) => Type::Float,
        ExprKind::Ident(_) => Type::Int,
        ExprKind::Str(_) => Type::String,
        ExprKind::Binary(l, _, _) => type_of_expr(&**l),
        ExprKind::Bool(_) => Type::Bool,
        _ => Type::Nothing,
    }
}

/// Decides `supported_expr`, so an embedding can test a tree before
/// handing it to the checker.
pub fn is_supported_expr(e: &Expr) -> (r: bool)
    ensures
        r == supported_expr(e.inner),
    decreases e.inner, 0nat,
{
    match &e.inner {
        ExprKind::Unary(_, _) => false,
        ExprKind::FunctionCall(_, _) => false,
        ExprKind::Ref(_) => false,
        ExprKind::Var(_, v, _) => is_supported_expr(&**v),
        ExprKind::Binary(l, _, r) => is_supported_expr(&**l) && is_supported_expr(&**r),
        ExprKind::If(c, body) => {
            proof {
                assert(e.inner == ExprKind::If(*c, *body));
            }
            if !is_supported_expr(&**c) {
                return false;
            }
            let mut k: usize = 0;
            while k < body.len()
                invariant
                    k <= body.len(),
                    e.inner == ExprKind::If(*c, *body),
                    supported_expr((*c).inner),
                    supported_exprs(body@, 0) == supported_exprs(body@, k as int),
                decreases body.len() - k,
            {
                proof {
                    let ev = e.inner;
                    match ev {
                        ExprKind::If(_gc, gb) => {
                            assert(gb == *body);
                            assert(decreases_to!(ev => gb));
                            assert(decreases_to!(gb => gb@));
                            assert(decreases_to!(gb@ => gb@[k as int]));
                        },
                        _ => {},
                    }
                    assert(decreases_to!(e.inner => body@[k as int]));
                }
                if !is_supported_expr(&body[k]) {
                    return false;
                }
                k = k + 1;
            }
            true
        },
        ExprKind::Block(body) => {
            proof {
                assert(e.inner == ExprKind::Block(*body));
            }
            let mut k: usize = 0;
            while k < body.len()
                invariant
                    k <= body.len(),
                    e.inner == ExprKind::Block(*body),
                    supported_exprs(body@, 0) == supported_exprs(body@, k as int),
                decreases body.len() - k,
            {
                proof {
                    let ev = e.inner;
                    match ev {
                        ExprKind::Block(gb) => {
                            assert(gb == *body);
                            assert(decreases_to!(ev => gb));
                            assert(decreases_to!(gb => gb@));
                            assert(decreases_to!(gb@ => gb@[k as int]));
                        },
                        _ => {},
                    }
                    assert(decreases_to!(e.inner => body@[k as int]));
                }
                if !is_supported_expr(&body[k]) {
                    return false;
                }
                k = k + 1;
            }
            true
        },
        _ => true,
    }
}

/// Decides `supported_exprs` over a whole program.
pub fn is_supported_program(ast: &Vec<Expr>) -> (r: bool)
    ensures
        r == supported_exprs(ast@, 0),
{
    let mut k: usize = 0;
    while k < ast.len()
        invariant
            k <= ast.len(),
            supported_exprs(ast@, 0) == supported_exprs(ast@, k as int),
        decreases ast.len() - k,
    {
        if !is_supported_expr(&ast[k]) {
            return false;
        }
        k = k + 1;
    }
    true
}

} // verus!
