//! How IR statements become code-generation actions, as spec functions.
//!
//! `spec_build_program` is the single source of truth for what native code
//! the backend constructs: which blocks are created and sealed when, which
//! instruction family each operator selects (float against integer, with
//! signed comparisons and unsigned division on the integer side), where
//! literal blobs are placed, and how the two-armed conditional merges its
//! result through a block parameter. The executable translator in
//! `compiler` is proved to produce exactly this action sequence.

use vstd::prelude::*;
use crate::acts::{Act, TyCode, IntCond, FloatCond, BinOpc};
use crate::ir::{BinOp, IrType, Literal, IrValue, Expr, Stmt};

verus! {

/// A 64-bit counter step, wrapping; the wrap is unreachable for any
/// program that fits in memory.
pub open spec fn inc(x: u64) -> u64 {
    if x == 0xffff_ffff_ffff_ffff {
        0
    } else {
        (x + 1) as u64
    }
}

/// The sentinel returned for a name that no binding covers; no real slot
/// index reaches it, so emission fails on it rather than touching another
/// binding's slot.
pub open spec fn no_slot() -> u64 {
    0xffff_ffff_ffff_ffff
}

/// The binding environment: name to storage-slot index, later bindings
/// shadowing earlier ones.
pub open spec fn env_find(env: Seq<(Seq<char>, u64)>, name: Seq<char>) -> Option<u64>
    decreases env.len(),
{
    if env.len() == 0 {
        None
    } else if env.last().0 == name {
        Some(env.last().1)
    } else {
        env_find(env.drop_last(), name)
    }
}

/// The slot for a name, or the sentinel when it is unbound.
pub open spec fn env_slot(env: Seq<(Seq<char>, u64)>, name: Seq<char>) -> u64 {
    match env_find(env, name) {
        Some(v) => v,
        None => no_slot(),
    }
}

/// The native type code for each IR type: strings are word-sized handles,
/// booleans byte-sized condition values.
pub open spec fn ty_code(t: IrType) -> TyCode {
    match t {
        IrType::Int => TyCode::I64,
        IrType::Float => TyCode::F64,
        IrType::Str => TyCode::I64,
        IrType::Bool => TyCode::I8,
    }
}

/// Type-directed instruction selection: the float family when the
/// expression's type is `Float`, else the integer family with signed
/// ordering comparisons and unsigned division.
pub open spec fn op_code(op: BinOp, float: bool) -> BinOpc {
    if float {
        match op {
            BinOp::Add => BinOpc::FAdd,
            BinOp::Sub => BinOpc::FSub,
            BinOp::Mul => BinOpc::FMul,
            BinOp::Div => BinOpc::FDiv,
            BinOp::Eq => BinOpc::FCmp(FloatCond::Eq),
            BinOp::Neq => BinOpc::FCmp(FloatCond::Ne),
            BinOp::Gt => BinOpc::FCmp(FloatCond::Gt),
            BinOp::Lt => BinOpc::FCmp(FloatCond::Lt),
            BinOp::Ge => BinOpc::FCmp(FloatCond::Ge),
            BinOp::Le => BinOpc::FCmp(FloatCond::Le),
        }
    } else {
        match op {
            BinOp::Add => BinOpc::IAdd,
            BinOp::Sub => BinOpc::ISub,
            BinOp::Mul => BinOpc::IMul,
            BinOp::Div => BinOpc::UDiv,
            BinOp::Eq => BinOpc::ICmp(IntCond::Eq),
            BinOp::Neq => BinOpc::ICmp(IntCond::Ne),
            BinOp::Gt => BinOpc::ICmp(IntCond::Sgt),
            BinOp::Lt => BinOpc::ICmp(IntCond::Slt),
            BinOp::Ge => BinOpc::ICmp(IntCond::Sge),
            BinOp::Le => BinOpc::ICmp(IntCond::Sle),
        }
    }
}

/// The bytes of a string literal's anonymous data blob: its UTF-8
/// encoding followed by one terminating NUL.
pub open spec fn blob_of(s: Seq<char>) -> Seq<u8> {
    vstd::utf8::encode_utf8(s).push(0u8)
}

/// The integer print path's format blob: "%d\n" and a NUL.
pub open spec fn fmt_int_blob() -> Seq<u8> {
    seq![37u8, 100u8, 10u8, 0u8]
}

/// The float print path's format blob: "%f\n" and a NUL.
pub open spec fn fmt_float_blob() -> Seq<u8> {
    seq![37u8, 102u8, 10u8, 0u8]
}

/// The translation state: the next value, block and storage-slot indices
/// (all allocated densely from zero), the binding environment, and the
/// string-blob table filled so far.
#[verifier::ext_equal]
pub struct BSt {
    pub nv: u64,
    pub nb: u64,
    pub nvar: u64,
    pub env: Seq<(Seq<char>, u64)>,
    pub strs: Seq<Seq<u8>>,
}

impl BSt {
    /// The state translation starts from.
    pub open spec fn init() -> BSt {
        BSt { nv: 0, nb: 0, nvar: 0, env: Seq::empty(), strs: Seq::empty() }
    }
}

/// What translating one expression yields: the actions emitted, the state
/// after, and the index of the value that holds the expression's result.
#[verifier::ext_equal]
pub struct ExprOut {
    pub acts: Seq<Act>,
    pub st: BSt,
    pub val: u64,
}

/// Translation of one expression, in the order requests are made.
pub open spec fn spec_build_expr(e: Expr, st: BSt) -> ExprOut
    decreases e, 0nat,
{
    match e {
        Expr::GetVar(name) => ExprOut {
            acts: seq![Act::UseVar(env_slot(st.env, name@), st.nv)],
            st: BSt { nv: inc(st.nv), ..st },
            val: st.nv,
        },
        Expr::Value(v, ty) => spec_build_value(v, ty, st),
        Expr::PrintStr(a) => {
            let ao = spec_build_expr(*a, st);
            ExprOut {
                acts: ao.acts.push(Act::CallPuts(ao.val, ao.st.nv)),
                st: BSt { nv: inc(ao.st.nv), ..ao.st },
                val: ao.st.nv,
            }
        },
        Expr::PrintInt(a) => {
            // The format string is materialized first, then the
            // argument, then the call is performed.
            let fmt = st.nv;
            let st1 = BSt { nv: inc(st.nv), strs: st.strs.push(fmt_int_blob()), ..st };
            let ao = spec_build_expr(*a, st1);
            ExprOut {
                acts: seq![Act::StrData(st.strs.len() as u64, fmt)] + ao.acts
                    + seq![Act::CallPrintfInt(fmt, ao.val, ao.st.nv)],
                st: BSt { nv: inc(ao.st.nv), ..ao.st },
                val: ao.st.nv,
            }
        },
        Expr::PrintFloat(a) => {
            let fmt = st.nv;
            let st1 = BSt { nv: inc(st.nv), strs: st.strs.push(fmt_float_blob()), ..st };
            let ao = spec_build_expr(*a, st1);
            ExprOut {
                acts: seq![Act::StrData(st.strs.len() as u64, fmt)] + ao.acts
                    + seq![Act::CallPrintfFloat(fmt, ao.val, ao.st.nv)],
                st: BSt { nv: inc(ao.st.nv), ..ao.st },
                val: ao.st.nv,
            }
        },
    }
}

/// Translation of a value-producing node. Integer and boolean literals
/// embed as immediates typed by the node's own type; floats embed their
/// bit pattern; a string is placed as a fresh blob on every occurrence,
/// with no interning. A binary node generates its left operand, then its
/// right, then one instruction selected by `op_code`.
pub open spec fn spec_build_value(v: IrValue, ty: IrType, st: BSt) -> ExprOut
    decreases v, 1nat,
{
    match v {
        IrValue::Literal(l) => match l {
            Literal::Int(i) => ExprOut {
                acts: seq![Act::IConst(ty_code(ty), i, st.nv)],
                st: BSt { nv: inc(st.nv), ..st },
                val: st.nv,
            },
            Literal::Bool(b) => ExprOut {
                acts: seq![Act::IConst(ty_code(ty), if b { 1i64 } else { 0i64 }, st.nv)],
                st: BSt { nv: inc(st.nv), ..st },
                val: st.nv,
            },
            Literal::Float(bits) => ExprOut {
                acts: seq![Act::F64Const(bits, st.nv)],
                st: BSt { nv: inc(st.nv), ..st },
                val: st.nv,
            },
            Literal::Str(s) => ExprOut {
                acts: seq![Act::StrData(st.strs.len() as u64, st.nv)],
                st: BSt { nv: inc(st.nv), strs: st.strs.push(blob_of(s@)), ..st },
                val: st.nv,
            },
        },
        IrValue::Binary(l, op, r) => {
            let lo = spec_build_expr(*l, st);
            let ro = spec_build_expr(*r, lo.st);
            ExprOut {
                acts: lo.acts + ro.acts
                    + seq![Act::Bin(op_code(op, ty is Float), lo.val, ro.val, ro.st.nv)],
                st: BSt { nv: inc(ro.st.nv), ..ro.st },
                val: ro.st.nv,
            }
        },
    }
}

/// What translating a statement (or a statement list) yields; `val` is
/// the value the statement leaves for an enclosing conditional arm.
#[verifier::ext_equal]
pub struct StmtOut {
    pub acts: Seq<Act>,
    pub st: BSt,
    pub val: u64,
}

/// Translation of one statement, in the order requests are made.
/// Every straight-line statement leaves a fresh zero word as its value;
/// a conditional leaves its merge block's parameter.
pub open spec fn spec_build_stmt(s: Stmt, st: BSt) -> StmtOut
    decreases s, 0nat,
{
    match s {
        Stmt::ExprStmt(e) => {
            let eo = spec_build_expr(e, st);
            StmtOut {
                acts: eo.acts.push(Act::IConst(TyCode::I64, 0, eo.st.nv)),
                st: BSt { nv: inc(eo.st.nv), ..eo.st },
                val: eo.st.nv,
            }
        },
        Stmt::SetVar(name, e) => {
            let eo = spec_build_expr(e, st);
            let slot = env_slot(eo.st.env, name@);
            StmtOut {
                acts: eo.acts + seq![
                    Act::DefVar(slot, eo.val),
                    Act::IConst(TyCode::I64, 0, eo.st.nv),
                ],
                st: BSt { nv: inc(eo.st.nv), ..eo.st },
                val: eo.st.nv,
            }
        },
        Stmt::Var(name, e, ty) => {
            // The initializer is generated before the binding is added, so
            // it cannot see the binding it initializes; the slot itself is
            // always fresh, never a reuse of a shadowed name's slot.
            let eo = spec_build_expr(e, st);
            let slot = eo.st.nvar;
            StmtOut {
                acts: eo.acts + seq![
                    Act::DeclareVar(ty_code(ty), slot),
                    Act::DefVar(slot, eo.val),
                    Act::IConst(TyCode::I64, 0, eo.st.nv),
                ],
                st: BSt {
                    nv: inc(eo.st.nv),
                    nvar: inc(eo.st.nvar),
                    env: eo.st.env.push((name@, slot)),
                    ..eo.st
                },
                val: eo.st.nv,
            }
        },
        Stmt::If(cond, then_body, else_body) => {
            let co = spec_build_expr(cond, st);
            let tb = co.st.nb;
            let eb = inc(co.st.nb);
            let mb = inc(inc(co.st.nb));
            let phi = co.st.nv;
            let st1 = BSt { nb: inc(mb), nv: inc(phi), ..co.st };
            // Then arm: its default value is a zero word; each statement
            // of the arm replaces it with its own value.
            let tz = st1.nv;
            let st2 = BSt { nv: inc(st1.nv), ..st1 };
            let to = spec_build_stmts(then_body@, 0, st2, tz);
            // Else arm, identically.
            let ez = to.st.nv;
            let st3 = BSt { nv: inc(to.st.nv), ..to.st };
            let eo = spec_build_stmts(else_body@, 0, st3, ez);
            StmtOut {
                acts: co.acts + seq![
                    Act::CreateBlock(tb),
                    Act::CreateBlock(eb),
                    Act::CreateBlock(mb),
                    Act::BlockParam(mb, TyCode::I64, phi),
                    Act::Brif(co.val, tb, eb),
                    Act::SwitchTo(tb),
                    Act::Seal(tb),
                    Act::IConst(TyCode::I64, 0, tz),
                ] + to.acts + seq![
                    Act::Jump1(mb, to.val),
                    Act::SwitchTo(eb),
                    Act::Seal(eb),
                    Act::IConst(TyCode::I64, 0, ez),
                ] + eo.acts + seq![
                    Act::Jump1(mb, eo.val),
                    Act::SwitchTo(mb),
                    Act::Seal(mb),
                ],
                st: eo.st,
                val: phi,
            }
        },
    }
}

/// Translation of the statements of `ss` from index `i` on; `last` is the
/// value the sequence leaves when no statement follows.
pub open spec fn spec_build_stmts(ss: Seq<Stmt>, i: int, st: BSt, last: u64) -> StmtOut
    decreases ss, ss.len() - i, 1nat,
{
    if i < 0 || i >= ss.len() {
        StmtOut { acts: Seq::empty(), st, val: last }
    } else {
        let so = spec_build_stmt(ss[i], st);
        let rest = spec_build_stmts(ss, i + 1, so.st, so.val);
        StmtOut { acts: so.acts + rest.acts, st: rest.st, val: rest.val }
    }
}

/// Translation of a whole program into one native function body: the
/// entry block is created, given the function's parameters, entered and
/// sealed; the statements follow in program order; the function ends by
/// returning a zero word.
pub open spec fn spec_build_program(stmts: Seq<Stmt>) -> (Seq<Act>, Seq<Seq<u8>>) {
    let st1 = BSt { nb: 1, ..BSt::init() };
    let body = spec_build_stmts(stmts, 0, st1, 0);
    let acts = seq![
        Act::CreateBlock(0),
        Act::FuncParams(0),
        Act::SwitchTo(0),
        Act::Seal(0),
    ] + body.acts + seq![
        Act::IConst(TyCode::I64, 0, body.st.nv),
        Act::Ret(body.st.nv),
    ];
    (acts, body.st.strs)
}

/// Well-formedness of an expression against the set of bound names:
/// every variable read is bound, and no integer or boolean literal is
/// annotated as a float (the upstream type checker guarantees both).
pub open spec fn wf_expr(e: Expr, env: Seq<(Seq<char>, u64)>) -> bool
    decreases e, 0nat,
{
    match e {
        Expr::GetVar(name) => env_find(env, name@) is Some,
        Expr::Value(v, ty) => wf_value(v, ty, env),
        Expr::PrintStr(a) => wf_expr(*a, env),
        Expr::PrintInt(a) => wf_expr(*a, env),
        Expr::PrintFloat(a) => wf_expr(*a, env),
    }
}

pub open spec fn wf_value(v: IrValue, ty: IrType, env: Seq<(Seq<char>, u64)>) -> bool
    decreases v, 1nat,
{
    match v {
        IrValue::Literal(l) => match l {
            Literal::Int(_) => !(ty is Float),
            Literal::Bool(_) => !(ty is Float),
            Literal::Float(_) => true,
            Literal::Str(_) => true,
        },
        IrValue::Binary(l, _, r) => wf_expr(*l, env) && wf_expr(*r, env),
    }
}

/// Well-formedness of one statement: its expressions are well-formed
/// and a `SetVar` names an existing binding. The environment threads as
/// the translation threads it: a binding introduced inside a
/// conditional arm stays visible afterwards, since this layer's
/// environment is flat.
pub open spec fn wf_stmt(s: Stmt, st: BSt) -> bool
    decreases s, 0nat,
{
    match s {
        Stmt::ExprStmt(e) => wf_expr(e, st.env),
        Stmt::SetVar(name, e) => wf_expr(e, st.env) && env_find(st.env, name@) is Some,
        Stmt::Var(_, e, _) => wf_expr(e, st.env),
        Stmt::If(cond, then_body, else_body) => {
            let co = spec_build_expr(cond, st);
            let st1 = BSt { nb: inc(inc(inc(co.st.nb))), nv: inc(co.st.nv), ..co.st };
            let st2 = BSt { nv: inc(st1.nv), ..st1 };
            let to = spec_build_stmts(then_body@, 0, st2, st1.nv);
            let st3 = BSt { nv: inc(to.st.nv), ..to.st };
            wf_expr(cond, st.env) && wf_stmts(then_body@, 0, st2) && wf_stmts(
                else_body@,
                0,
                st3,
            )
        },
    }
}

pub open spec fn wf_stmts(ss: Seq<Stmt>, i: int, st: BSt) -> bool
    decreases ss, ss.len() - i, 1nat,
{
    i < 0 || i >= ss.len() || {
        wf_stmt(ss[i], st) && wf_stmts(ss, i + 1, spec_build_stmt(ss[i], st).st)
    }
}

/// Well-formedness of a whole program, from the empty environment.
pub open spec fn wf_program(stmts: Seq<Stmt>) -> bool {
    wf_stmts(stmts, 0, BSt { nb: 1, ..BSt::init() })
}

} // verus!
