//! Laws of the code generator, proved against the action-level
//! translation in `trans`.

use vstd::prelude::*;
use crate::acts::{Act, TyCode, IntCond, FloatCond, BinOpc};
use crate::ir::{BinOp, IrType, Literal, IrValue, Expr, Stmt};
use crate::trans::{
    BSt, inc, env_slot, env_find, ty_code, op_code, blob_of, fmt_int_blob, fmt_float_blob,
    spec_build_expr, spec_build_value, spec_build_stmt, spec_build_stmts, spec_build_program,
    wf_expr, wf_value, wf_stmt, wf_stmts, wf_program,
};
use crate::compiler::{vcnt, bcnt, varcnt, act_vdef, act_bdef, act_vardef, act_ok, acts_ok};
use crate::semantics::{nvals_expr, nvals_value, nvals_stmt, nvals_stmts};

verus! {

/// Instruction selection is type-directed and asymmetric on the integer
/// side: ordering comparisons are signed while division is unsigned; the
/// float family is selected exactly for float-typed operands.
pub proof fn lemma_type_directed_selection()
    ensures
        op_code(BinOp::Div, false) == BinOpc::UDiv,
        op_code(BinOp::Gt, false) == BinOpc::ICmp(IntCond::Sgt),
        op_code(BinOp::Lt, false) == BinOpc::ICmp(IntCond::Slt),
        op_code(BinOp::Ge, false) == BinOpc::ICmp(IntCond::Sge),
        op_code(BinOp::Le, false) == BinOpc::ICmp(IntCond::Sle),
        op_code(BinOp::Eq, false) == BinOpc::ICmp(IntCond::Eq),
        op_code(BinOp::Neq, false) == BinOpc::ICmp(IntCond::Ne),
        op_code(BinOp::Add, false) == BinOpc::IAdd,
        op_code(BinOp::Sub, false) == BinOpc::ISub,
        op_code(BinOp::Mul, false) == BinOpc::IMul,
        forall|op: BinOp| (#[trigger] op_code(op, true)) matches BinOpc::FAdd
            || op_code(op, true) matches BinOpc::FSub || op_code(op, true) matches BinOpc::FMul
            || op_code(op, true) matches BinOpc::FDiv || op_code(op, true) matches BinOpc::FCmp(_),
{
}

/// Every slot an environment binds lies below the given bound.
pub open spec fn env_slots_below(env: Seq<(Seq<char>, u64)>, k: u64) -> bool {
    forall|i: int| 0 <= i < env.len() ==> (#[trigger] env[i]).1 < k
}

/// Expressions allocate no storage slots and change no bindings.
pub proof fn lemma_expr_keeps_env(e: Expr, st: BSt)
    ensures
        spec_build_expr(e, st).st.nvar == st.nvar,
        spec_build_expr(e, st).st.env == st.env,
    decreases e, 0nat,
{
    match e {
        Expr::GetVar(_) => {},
        Expr::Value(v, ty) => {
            lemma_value_keeps_env(v, ty, st);
        },
        Expr::PrintStr(a) => {
            lemma_expr_keeps_env(*a, st);
        },
        Expr::PrintInt(a) => {
            let st1 = BSt { nv: inc(st.nv), strs: st.strs.push(fmt_int_blob()), ..st };
            lemma_expr_keeps_env(*a, st1);
        },
        Expr::PrintFloat(a) => {
            let st1 = BSt { nv: inc(st.nv), strs: st.strs.push(fmt_float_blob()), ..st };
            lemma_expr_keeps_env(*a, st1);
        },
    }
}

pub proof fn lemma_value_keeps_env(v: IrValue, ty: IrType, st: BSt)
    ensures
        spec_build_value(v, ty, st).st.nvar == st.nvar,
        spec_build_value(v, ty, st).st.env == st.env,
    decreases v, 1nat,
{
    match v {
        IrValue::Literal(_) => {},
        IrValue::Binary(l, _, r) => {
            lemma_expr_keeps_env(*l, st);
            lemma_expr_keeps_env(*r, spec_build_expr(*l, st).st);
        },
    }
}

/// Expressions only ever append to the blob table.
pub proof fn lemma_expr_strs_extend(e: Expr, st: BSt)
    ensures
        st.strs.is_prefix_of(spec_build_expr(e, st).st.strs),
    decreases e, 0nat,
{
    match e {
        Expr::GetVar(_) => {
            assert(st.strs.is_prefix_of(st.strs));
        },
        Expr::Value(v, ty) => {
            lemma_value_strs_extend(v, ty, st);
        },
        Expr::PrintStr(a) => {
            lemma_expr_strs_extend(*a, st);
        },
        Expr::PrintInt(a) => {
            let st1 = BSt { nv: inc(st.nv), strs: st.strs.push(fmt_int_blob()), ..st };
            lemma_expr_strs_extend(*a, st1);
            assert(st.strs.is_prefix_of(st1.strs));
            lemma_prefix_trans(st.strs, st1.strs, spec_build_expr(*a, st1).st.strs);
        },
        Expr::PrintFloat(a) => {
            let st1 = BSt { nv: inc(st.nv), strs: st.strs.push(fmt_float_blob()), ..st };
            lemma_expr_strs_extend(*a, st1);
            assert(st.strs.is_prefix_of(st1.strs));
            lemma_prefix_trans(st.strs, st1.strs, spec_build_expr(*a, st1).st.strs);
        },
    }
}

pub proof fn lemma_value_strs_extend(v: IrValue, ty: IrType, st: BSt)
    ensures
        st.strs.is_prefix_of(spec_build_value(v, ty, st).st.strs),
    decreases v, 1nat,
{
    match v {
        IrValue::Literal(l) => {
            if l is Str {
                assert(st.strs.is_prefix_of(spec_build_value(v, ty, st).st.strs));
            } else {
                assert(st.strs.is_prefix_of(st.strs));
            }
        },
        IrValue::Binary(l, _, r) => {
            let lo = spec_build_expr(*l, st);
            lemma_expr_strs_extend(*l, st);
            lemma_expr_strs_extend(*r, lo.st);
            lemma_prefix_trans(st.strs, lo.st.strs, spec_build_expr(*r, lo.st).st.strs);
        },
    }
}

pub proof fn lemma_prefix_trans(a: Seq<Seq<u8>>, b: Seq<Seq<u8>>, c: Seq<Seq<u8>>)
    requires
        a.is_prefix_of(b),
        b.is_prefix_of(c),
    ensures
        a.is_prefix_of(c),
{
    assert(c.subrange(0, a.len() as int) =~= b.subrange(0, a.len() as int));
}

/// How many storage slots a statement's translation allocates.
pub open spec fn nvars_stmt(s: Stmt) -> nat
    decreases s, 0nat,
{
    match s {
        Stmt::Var(_, _, _) => 1,
        Stmt::If(_, tb, eb) => nvars_stmts(tb@, 0) + nvars_stmts(eb@, 0),
        _ => 0,
    }
}

pub open spec fn nvars_stmts(ss: Seq<Stmt>, i: int) -> nat
    decreases ss, ss.len() - i, 1nat,
{
    if i < 0 || i >= ss.len() {
        0
    } else {
        nvars_stmt(ss[i]) + nvars_stmts(ss, i + 1)
    }
}

/// Slot accounting: a statement's translation hands out exactly the next
/// `nvars_stmt` slot indices, never reusing one, and keeps every binding
/// below the slot counter.
pub proof fn lemma_stmt_slots(s: Stmt, st: BSt)
    requires
        env_slots_below(st.env, st.nvar),
        st.nvar + nvars_stmt(s) < 0xffff_ffff_ffff_ffff,
    ensures
        spec_build_stmt(s, st).st.nvar == st.nvar + nvars_stmt(s),
        env_slots_below(spec_build_stmt(s, st).st.env, spec_build_stmt(s, st).st.nvar),
    decreases s, 0nat,
{
    match s {
        Stmt::ExprStmt(e) => {
            lemma_expr_keeps_env(e, st);
        },
        Stmt::SetVar(_, e) => {
            lemma_expr_keeps_env(e, st);
        },
        Stmt::Var(_, e, _) => {
            lemma_expr_keeps_env(e, st);
        },
        Stmt::If(cond, tb, eb) => {
            let co = spec_build_expr(cond, st);
            lemma_expr_keeps_env(cond, st);
            let st1 = BSt { nb: inc(inc(inc(co.st.nb))), nv: inc(co.st.nv), ..co.st };
            let st2 = BSt { nv: inc(st1.nv), ..st1 };
            lemma_stmts_slots(tb@, 0, st2, st2.nv);
            let to = spec_build_stmts(tb@, 0, st2, st1.nv);
            let st3 = BSt { nv: inc(to.st.nv), ..to.st };
            lemma_stmts_slots(eb@, 0, st3, st3.nv);
        },
    }
}

pub proof fn lemma_stmts_slots(ss: Seq<Stmt>, i: int, st: BSt, last: u64)
    requires
        env_slots_below(st.env, st.nvar),
        st.nvar + nvars_stmts(ss, i) < 0xffff_ffff_ffff_ffff,
    ensures
        spec_build_stmts(ss, i, st, last).st.nvar == st.nvar + nvars_stmts(ss, i),
        env_slots_below(
            spec_build_stmts(ss, i, st, last).st.env,
            spec_build_stmts(ss, i, st, last).st.nvar,
        ),
    decreases ss, ss.len() - i, 1nat,
{
    if 0 <= i < ss.len() {
        lemma_stmt_slots(ss[i], st);
        let so = spec_build_stmt(ss[i], st);
        lemma_stmts_slots(ss, i + 1, so.st, so.val);
    }
}

/// A declaration always binds a fresh slot: the new binding's slot index
/// is the current counter, which no earlier binding carries, so writing
/// through the new binding can never be observed through a binding made
/// before it — in particular not through a shadowed binding of the same
/// name.
pub proof fn lemma_declaration_slot_fresh(s: Stmt, st: BSt)
    requires
        s is Var,
        env_slots_below(st.env, st.nvar),
        st.nvar < 0xffff_ffff_ffff_ffff,
    ensures
        ({
            match s {
                Stmt::Var(name, e, ty) => {
                    let out = spec_build_stmt(s, st);
                    out.st.env == st.env.push((name@, st.nvar)) && forall|i: int|
                        0 <= i < st.env.len() ==> (#[trigger] st.env[i]).1 != st.nvar
                },
                _ => false,
            }
        }),
{
    match s {
        Stmt::Var(name, e, ty) => {
            lemma_expr_keeps_env(e, st);
        },
        _ => {},
    }
}

/// Every string literal occurrence is placed as its own fresh blob,
/// holding exactly the literal's UTF-8 bytes followed by one NUL; no
/// interning takes place.
pub proof fn lemma_string_blob_per_occurrence(v: IrValue, ty: IrType, st: BSt)
    requires
        v matches IrValue::Literal(Literal::Str(_)),
    ensures
        ({
            match v {
                IrValue::Literal(Literal::Str(s)) => {
                    let o = spec_build_value(v, ty, st);
                    o.st.strs == st.strs.push(blob_of(s@)) && o.acts == seq![
                        Act::StrData(st.strs.len() as u64, st.nv),
                    ] && blob_of(s@) == vstd::utf8::encode_utf8(s@).push(0u8)
                },
                _ => false,
            }
        }),
{
}

/// The integer and float print paths are distinct: each materializes its
/// own fresh format blob — "%d\n" against "%f\n" — and calls a different
/// output entry, one taking a word, the other a 64-bit float.
pub proof fn lemma_print_paths_distinct(pi: Expr, pf: Expr, st: BSt)
    requires
        pi is PrintInt,
        pf is PrintFloat,
    ensures
        fmt_int_blob() != fmt_float_blob(),
        ({
            let o = spec_build_expr(pi, st);
            &&& o.st.strs[st.strs.len() as int] == fmt_int_blob()
            &&& o.acts[0] == Act::StrData(st.strs.len() as u64, st.nv)
            &&& o.acts.last() matches Act::CallPrintfInt(f, _, _) && f == st.nv
        }),
        ({
            let o = spec_build_expr(pf, st);
            &&& o.st.strs[st.strs.len() as int] == fmt_float_blob()
            &&& o.acts[0] == Act::StrData(st.strs.len() as u64, st.nv)
            &&& o.acts.last() matches Act::CallPrintfFloat(f, _, _) && f == st.nv
        }),
{
    assert(fmt_int_blob()[1] == 100u8 && fmt_float_blob()[1] == 102u8);
    match pi {
        Expr::PrintInt(a) => {
            let st1 = BSt { nv: inc(st.nv), strs: st.strs.push(fmt_int_blob()), ..st };
            lemma_expr_strs_extend(*a, st1);
            let ao = spec_build_expr(*a, st1);
            assert(ao.st.strs.subrange(0, st1.strs.len() as int) =~= st1.strs);
            assert(st1.strs[st.strs.len() as int] == fmt_int_blob());
            assert(ao.st.strs.subrange(0, st1.strs.len() as int)[st.strs.len() as int]
                == ao.st.strs[st.strs.len() as int]);
            assert(ao.st.strs[st.strs.len() as int] == fmt_int_blob());
        },
        _ => {},
    }
    match pf {
        Expr::PrintFloat(a) => {
            let st1 = BSt { nv: inc(st.nv), strs: st.strs.push(fmt_float_blob()), ..st };
            lemma_expr_strs_extend(*a, st1);
            let ao = spec_build_expr(*a, st1);
            assert(ao.st.strs.subrange(0, st1.strs.len() as int) =~= st1.strs);
            assert(st1.strs[st.strs.len() as int] == fmt_float_blob());
            assert(ao.st.strs.subrange(0, st1.strs.len() as int)[st.strs.len() as int]
                == ao.st.strs[st.strs.len() as int]);
            assert(ao.st.strs[st.strs.len() as int] == fmt_float_blob());
        },
        _ => {},
    }
}

/// The two-armed conditional's block choreography: the branch goes to
/// the then block on a nonzero condition and to the else block on zero;
/// each arm is sealed as soon as its single predecessor edge exists and
/// jumps to the merge block with its result — the value of the arm's
/// last statement, or its fresh zero literal when the arm is empty (the
/// else arm always is in the current surface language); the merge block
/// is sealed only after both incoming jumps exist, and its word-sized
/// parameter is the conditional's value.
pub proof fn lemma_conditional_choreography(s: Stmt, st: BSt)
    requires
        s is If,
    ensures
        ({
            match s {
                Stmt::If(cond, then_body, else_body) => {
                    let co = spec_build_expr(cond, st);
                    let tb = co.st.nb;
                    let eb = inc(co.st.nb);
                    let mb = inc(inc(co.st.nb));
                    let phi = co.st.nv;
                    let st1 = BSt { nb: inc(mb), nv: inc(phi), ..co.st };
                    let tz = st1.nv;
                    let st2 = BSt { nv: inc(st1.nv), ..st1 };
                    let to = spec_build_stmts(then_body@, 0, st2, tz);
                    let ez = to.st.nv;
                    let st3 = BSt { nv: inc(to.st.nv), ..to.st };
                    let eo = spec_build_stmts(else_body@, 0, st3, ez);
                    let out = spec_build_stmt(s, st);
                    let base = co.acts.len() as int;
                    &&& out.val == phi
                    &&& out.acts[base + 3] == Act::BlockParam(mb, TyCode::I64, phi)
                    &&& out.acts[base + 4] == Act::Brif(co.val, tb, eb)
                    &&& out.acts[base + 5] == Act::SwitchTo(tb)
                    &&& out.acts[base + 6] == Act::Seal(tb)
                    &&& out.acts[base + 7] == Act::IConst(TyCode::I64, 0, tz)
                    &&& out.acts[base + 8 + to.acts.len()] == Act::Jump1(mb, to.val)
                    &&& (then_body@.len() == 0 ==> to.val == tz)
                    &&& out.acts[base + 9 + to.acts.len()] == Act::SwitchTo(eb)
                    &&& out.acts[base + 10 + to.acts.len()] == Act::Seal(eb)
                    &&& out.acts[base + 11 + to.acts.len()] == Act::IConst(TyCode::I64, 0, ez)
                    &&& out.acts[out.acts.len() - 3] == Act::Jump1(mb, eo.val)
                    &&& (else_body@.len() == 0 ==> eo.val == ez)
                    &&& out.acts[out.acts.len() - 2] == Act::SwitchTo(mb)
                    &&& out.acts.last() == Act::Seal(mb)
                },
                _ => false,
            }
        }),
{
    match s {
        Stmt::If(cond, then_body, else_body) => {
            let out = spec_build_stmt(s, st);
            assert(out.acts.len() >= 0);
        },
        _ => {},
    }
}

/// How many blocks a statement's translation creates.
pub open spec fn nblks_stmt(s: Stmt) -> nat
    decreases s, 0nat,
{
    match s {
        Stmt::If(_, tb, eb) => 3 + nblks_stmts(tb@, 0) + nblks_stmts(eb@, 0),
        _ => 0,
    }
}

pub open spec fn nblks_stmts(ss: Seq<Stmt>, i: int) -> nat
    decreases ss, ss.len() - i, 1nat,
{
    if i < 0 || i >= ss.len() {
        0
    } else {
        nblks_stmt(ss[i]) + nblks_stmts(ss, i + 1)
    }
}

/// A bound name's slot lies below any bound that covers every binding.
proof fn lemma_bound_slot_below(env: Seq<(Seq<char>, u64)>, name: Seq<char>, k: u64)
    requires
        env_find(env, name) is Some,
        env_slots_below(env, k),
    ensures
        env_slot(env, name) < k,
    decreases env.len(),
{
    if env.len() > 0 {
        if env.last().0 == name {
            assert(env[env.len() - 1].1 < k);
        } else {
            assert(env_slots_below(env.drop_last(), k)) by {
                assert(forall|i: int|
                    0 <= i < env.drop_last().len() ==> #[trigger] env.drop_last()[i] == env[i]);
            }
            lemma_bound_slot_below(env.drop_last(), name, k);
        }
    }
}

/// Consistency of an action sequence appended after a prefix that has
/// already defined the given numbers of values, blocks and slots.
pub open spec fn acts_ok_from(s: Seq<Act>, vs0: int, bs0: int, vars0: int) -> bool {
    forall|j: int|
        0 <= j < s.len() ==> act_ok(
            #[trigger] s[j],
            vs0 + vcnt(s.take(j)),
            bs0 + bcnt(s.take(j)),
            vars0 + varcnt(s.take(j)),
        )
}

/// Counts of the empty sequence.
proof fn lemma_cnt_empty()
    ensures
        vcnt(Seq::<Act>::empty()) == 0,
        bcnt(Seq::<Act>::empty()) == 0,
        varcnt(Seq::<Act>::empty()) == 0,
{
}

/// Counts of a single action.
proof fn lemma_cnt_single(a: Act)
    ensures
        vcnt(seq![a]) == act_vdef(a),
        bcnt(seq![a]) == act_bdef(a),
        varcnt(seq![a]) == act_vardef(a),
{
    lemma_cnt_empty();
    assert(seq![a].drop_last() =~= Seq::<Act>::empty());
    assert(seq![a].last() == a);
}

/// Defined-index counts distribute over concatenation.
pub proof fn lemma_cnt_append(a: Seq<Act>, b: Seq<Act>)
    ensures
        vcnt(a + b) == vcnt(a) + vcnt(b),
        bcnt(a + b) == bcnt(a) + bcnt(b),
        varcnt(a + b) == varcnt(a) + varcnt(b),
    decreases b.len(),
{
    if b.len() == 0 {
        assert(a + b =~= a);
    } else {
        assert((a + b).drop_last() =~= a + b.drop_last());
        assert((a + b).last() == b.last());
        lemma_cnt_append(a, b.drop_last());
    }
}

/// Facts about a one-action sequence used at its consistency check.
proof fn proof_cnt_single_glue(s: Seq<Act>)
    requires
        s.len() == 1,
    ensures
        s.take(0) == Seq::<Act>::empty(),
        vcnt(s) == act_vdef(s[0]),
        bcnt(s) == act_bdef(s[0]),
        varcnt(s) == act_vardef(s[0]),
        vcnt(s.take(0)) == 0,
        bcnt(s.take(0)) == 0,
        varcnt(s.take(0)) == 0,
{
    lemma_cnt_empty();
    assert(s.take(0) =~= Seq::<Act>::empty());
    assert(s =~= seq![s[0]]);
    lemma_cnt_single(s[0]);
}

/// Consistency of two halves gives consistency of their concatenation.
pub proof fn lemma_acts_ok_from_concat(a: Seq<Act>, b: Seq<Act>, vs0: int, bs0: int, vars0: int)
    requires
        acts_ok_from(a, vs0, bs0, vars0),
        acts_ok_from(b, vs0 + vcnt(a), bs0 + bcnt(a), vars0 + varcnt(a)),
    ensures
        acts_ok_from(a + b, vs0, bs0, vars0),
{
    assert forall|j: int| 0 <= j < (a + b).len() implies act_ok(
        #[trigger] (a + b)[j],
        vs0 + vcnt((a + b).take(j)),
        bs0 + bcnt((a + b).take(j)),
        vars0 + varcnt((a + b).take(j)),
    ) by {
        if j < a.len() {
            assert((a + b).take(j) =~= a.take(j));
            assert((a + b)[j] == a[j]);
        } else {
            assert((a + b).take(j) =~= a + b.take(j - a.len()));
            assert((a + b)[j] == b[j - a.len()]);
            lemma_cnt_append(a, b.take(j - a.len()));
        }
    }
}

/// The translation of an expression is consistent with the state's own
/// counters: references point at already defined indices, definitions
/// are dense, and the counters advance by exactly what is defined.
pub proof fn lemma_expr_acts_ok(e: Expr, st: BSt)
    requires
        wf_expr(e, st.env),
        env_slots_below(st.env, st.nvar),
        st.nv + nvals_expr(e) < 0xffff_ffff_ffff_ffff,
    ensures
        ({
            let o = spec_build_expr(e, st);
            &&& o.st.nv == st.nv + nvals_expr(e)
            &&& o.st.nb == st.nb
            &&& vcnt(o.acts) == nvals_expr(e)
            &&& bcnt(o.acts) == 0
            &&& varcnt(o.acts) == 0
            &&& st.nv <= o.val < o.st.nv
            &&& acts_ok_from(o.acts, st.nv as int, st.nb as int, st.nvar as int)
        }),
    decreases e, 0nat,
{
    let o = spec_build_expr(e, st);
    match e {
        Expr::GetVar(name) => {
            lemma_bound_slot_below(st.env, name@, st.nvar);
            proof_cnt_single_glue(o.acts);
            assert(acts_ok_from(o.acts, st.nv as int, st.nb as int, st.nvar as int));
        },
        Expr::Value(v, ty) => {
            lemma_value_acts_ok(v, ty, st);
        },
        Expr::PrintStr(a) => {
            lemma_expr_acts_ok(*a, st);
            let ao = spec_build_expr(*a, st);
            let tail = seq![Act::CallPuts(ao.val, ao.st.nv)];
            assert(o.acts =~= ao.acts + tail);
            lemma_cnt_append(ao.acts, tail);
            proof_cnt_single_glue(tail);
            assert(acts_ok_from(
                tail,
                st.nv + vcnt(ao.acts),
                st.nb as int,
                st.nvar as int,
            ));
            lemma_acts_ok_from_concat(ao.acts, tail, st.nv as int, st.nb as int, st.nvar as int);
        },
        Expr::PrintInt(a) => {
            let fmt = st.nv;
            let st1 = BSt { nv: inc(st.nv), strs: st.strs.push(fmt_int_blob()), ..st };
            lemma_expr_acts_ok(*a, st1);
            let ao = spec_build_expr(*a, st1);
            let head = seq![Act::StrData(st.strs.len() as u64, fmt)];
            let tail = seq![Act::CallPrintfInt(fmt, ao.val, ao.st.nv)];
            assert(o.acts =~= head + (ao.acts + tail));
            lemma_cnt_append(ao.acts, tail);
            lemma_cnt_append(head, ao.acts + tail);
            proof_cnt_single_glue(head);
            proof_cnt_single_glue(tail);
            assert(acts_ok_from(head, st.nv as int, st.nb as int, st.nvar as int));
            assert(acts_ok_from(
                tail,
                st1.nv + vcnt(ao.acts),
                st.nb as int,
                st.nvar as int,
            ));
            lemma_acts_ok_from_concat(
                ao.acts,
                tail,
                st1.nv as int,
                st.nb as int,
                st.nvar as int,
            );
            lemma_acts_ok_from_concat(
                head,
                ao.acts + tail,
                st.nv as int,
                st.nb as int,
                st.nvar as int,
            );
        },
        Expr::PrintFloat(a) => {
            let fmt = st.nv;
            let st1 = BSt { nv: inc(st.nv), strs: st.strs.push(fmt_float_blob()), ..st };
            lemma_expr_acts_ok(*a, st1);
            let ao = spec_build_expr(*a, st1);
            let head = seq![Act::StrData(st.strs.len() as u64, fmt)];
            let tail = seq![Act::CallPrintfFloat(fmt, ao.val, ao.st.nv)];
            assert(o.acts =~= head + (ao.acts + tail));
            lemma_cnt_append(ao.acts, tail);
            lemma_cnt_append(head, ao.acts + tail);
            proof_cnt_single_glue(head);
            proof_cnt_single_glue(tail);
            assert(acts_ok_from(head, st.nv as int, st.nb as int, st.nvar as int));
            assert(acts_ok_from(
                tail,
                st1.nv + vcnt(ao.acts),
                st.nb as int,
                st.nvar as int,
            ));
            lemma_acts_ok_from_concat(
                ao.acts,
                tail,
                st1.nv as int,
                st.nb as int,
                st.nvar as int,
            );
            lemma_acts_ok_from_concat(
                head,
                ao.acts + tail,
                st.nv as int,
                st.nb as int,
                st.nvar as int,
            );
        },
    }
}

pub proof fn lemma_value_acts_ok(v: IrValue, ty: IrType, st: BSt)
    requires
        wf_value(v, ty, st.env),
        env_slots_below(st.env, st.nvar),
        st.nv + nvals_value(v) < 0xffff_ffff_ffff_ffff,
    ensures
        ({
            let o = spec_build_value(v, ty, st);
            &&& o.st.nv == st.nv + nvals_value(v)
            &&& o.st.nb == st.nb
            &&& vcnt(o.acts) == nvals_value(v)
            &&& bcnt(o.acts) == 0
            &&& varcnt(o.acts) == 0
            &&& st.nv <= o.val < o.st.nv
            &&& acts_ok_from(o.acts, st.nv as int, st.nb as int, st.nvar as int)
        }),
    decreases v, 1nat,
{
    let o = spec_build_value(v, ty, st);
    match v {
        IrValue::Literal(l) => {
            proof_cnt_single_glue(o.acts);
            assert(acts_ok_from(o.acts, st.nv as int, st.nb as int, st.nvar as int));
        },
        IrValue::Binary(l, op, r) => {
            lemma_expr_acts_ok(*l, st);
            let lo = spec_build_expr(*l, st);
            crate::laws::lemma_expr_keeps_env(*l, st);
            lemma_expr_acts_ok(*r, lo.st);
            let ro = spec_build_expr(*r, lo.st);
            let tail = seq![Act::Bin(op_code(op, ty is Float), lo.val, ro.val, ro.st.nv)];
            assert(o.acts =~= lo.acts + (ro.acts + tail));
            lemma_cnt_append(ro.acts, tail);
            lemma_cnt_append(lo.acts, ro.acts + tail);
            proof_cnt_single_glue(tail);
            assert(acts_ok_from(
                tail,
                lo.st.nv + vcnt(ro.acts),
                st.nb as int,
                st.nvar as int,
            ));
            lemma_acts_ok_from_concat(
                ro.acts,
                tail,
                lo.st.nv as int,
                st.nb as int,
                st.nvar as int,
            );
            lemma_acts_ok_from_concat(
                lo.acts,
                ro.acts + tail,
                st.nv as int,
                st.nb as int,
                st.nvar as int,
            );
        },
    }
}

/// How many values a statement's translation defines, conditionals
/// included.
pub open spec fn stmt_vals(s: Stmt) -> nat
    decreases s, 0nat,
{
    match s {
        Stmt::ExprStmt(e) => nvals_expr(e) + 1,
        Stmt::SetVar(_, e) => nvals_expr(e) + 1,
        Stmt::Var(_, e, _) => nvals_expr(e) + 1,
        Stmt::If(cond, tb, eb) => nvals_expr(cond) + 2 + stmts_vals(tb@, 0) + 1 + stmts_vals(
            eb@,
            0,
        ),
    }
}

pub open spec fn stmts_vals(ss: Seq<Stmt>, i: int) -> nat
    decreases ss, ss.len() - i, 1nat,
{
    if i < 0 || i >= ss.len() {
        0
    } else {
        stmt_vals(ss[i]) + stmts_vals(ss, i + 1)
    }
}

/// Appending one consistent action keeps a sequence consistent.
proof fn lemma_acts_ok_push(s: Seq<Act>, a: Act, vs0: int, bs0: int, vars0: int)
    requires
        acts_ok_from(s, vs0, bs0, vars0),
        act_ok(a, vs0 + vcnt(s), bs0 + bcnt(s), vars0 + varcnt(s)),
    ensures
        acts_ok_from(s.push(a), vs0, bs0, vars0),
        vcnt(s.push(a)) == vcnt(s) + act_vdef(a),
        bcnt(s.push(a)) == bcnt(s) + act_bdef(a),
        varcnt(s.push(a)) == varcnt(s) + act_vardef(a),
{
    assert(s.push(a).drop_last() =~= s);
    assert(s.push(a).last() == a);
    assert forall|j: int| 0 <= j < s.push(a).len() implies act_ok(
        #[trigger] s.push(a)[j],
        vs0 + vcnt(s.push(a).take(j)),
        bs0 + bcnt(s.push(a).take(j)),
        vars0 + varcnt(s.push(a).take(j)),
    ) by {
        if j < s.len() {
            assert(s.push(a).take(j) =~= s.take(j));
            assert(s.push(a)[j] == s[j]);
        } else {
            assert(s.push(a).take(j) =~= s);
            assert(s.push(a)[j] == a);
        }
    }
}

/// The translation of a statement is consistent with the state's own
/// counters, and advances them by exactly what it defines.
#[verifier::spinoff_prover]
#[verifier::rlimit(100)]
pub proof fn lemma_stmt_acts_ok(s: Stmt, st: BSt)
    requires
        wf_stmt(s, st),
        env_slots_below(st.env, st.nvar),
        st.nv + stmt_vals(s) < 0xffff_ffff_ffff_ffff,
        st.nvar + nvars_stmt(s) < 0xffff_ffff_ffff_ffff,
        st.nb + nblks_stmt(s) < 0xffff_ffff_ffff_ffff,
    ensures
        ({
            let o = spec_build_stmt(s, st);
            &&& o.st.nv == st.nv + stmt_vals(s)
            &&& o.st.nvar == st.nvar + nvars_stmt(s)
            &&& o.st.nb == st.nb + nblks_stmt(s)
            &&& vcnt(o.acts) == stmt_vals(s)
            &&& bcnt(o.acts) == nblks_stmt(s)
            &&& varcnt(o.acts) == nvars_stmt(s)
            &&& o.val < o.st.nv
            &&& env_slots_below(o.st.env, o.st.nvar)
            &&& acts_ok_from(o.acts, st.nv as int, st.nb as int, st.nvar as int)
        }),
    decreases s, 0nat,
{
    let o = spec_build_stmt(s, st);
    match s {
        Stmt::ExprStmt(e) => {
            lemma_expr_acts_ok(e, st);
            crate::laws::lemma_expr_keeps_env(e, st);
            let eo = spec_build_expr(e, st);
            lemma_acts_ok_push(
                eo.acts,
                Act::IConst(TyCode::I64, 0, eo.st.nv),
                st.nv as int,
                st.nb as int,
                st.nvar as int,
            );
            assert(o.acts =~= eo.acts.push(Act::IConst(TyCode::I64, 0, eo.st.nv)));
        },
        Stmt::SetVar(name, e) => {
            lemma_expr_acts_ok(e, st);
            crate::laws::lemma_expr_keeps_env(e, st);
            let eo = spec_build_expr(e, st);
            let slot = env_slot(eo.st.env, name@);
            lemma_bound_slot_below(st.env, name@, st.nvar);
            lemma_acts_ok_push(
                eo.acts,
                Act::DefVar(slot, eo.val),
                st.nv as int,
                st.nb as int,
                st.nvar as int,
            );
            lemma_acts_ok_push(
                eo.acts.push(Act::DefVar(slot, eo.val)),
                Act::IConst(TyCode::I64, 0, eo.st.nv),
                st.nv as int,
                st.nb as int,
                st.nvar as int,
            );
            assert(o.acts =~= eo.acts.push(Act::DefVar(slot, eo.val)).push(
                Act::IConst(TyCode::I64, 0, eo.st.nv),
            ));
        },
        Stmt::Var(name, e, ty) => {
            lemma_expr_acts_ok(e, st);
            crate::laws::lemma_expr_keeps_env(e, st);
            let eo = spec_build_expr(e, st);
            let slot = eo.st.nvar;
            let s1 = eo.acts.push(Act::DeclareVar(ty_code(ty), slot));
            let s2 = s1.push(Act::DefVar(slot, eo.val));
            lemma_acts_ok_push(
                eo.acts,
                Act::DeclareVar(ty_code(ty), slot),
                st.nv as int,
                st.nb as int,
                st.nvar as int,
            );
            lemma_acts_ok_push(
                s1,
                Act::DefVar(slot, eo.val),
                st.nv as int,
                st.nb as int,
                st.nvar as int,
            );
            lemma_acts_ok_push(
                s2,
                Act::IConst(TyCode::I64, 0, eo.st.nv),
                st.nv as int,
                st.nb as int,
                st.nvar as int,
            );
            assert(o.acts =~= s2.push(Act::IConst(TyCode::I64, 0, eo.st.nv)));
            assert(env_slots_below(o.st.env, o.st.nvar)) by {
                assert(forall|i: int|
                    0 <= i < st.env.len() ==> #[trigger] o.st.env[i] == st.env[i]);
                assert(o.st.env.last().1 == slot);
            }
        },
        Stmt::If(cond, then_body, else_body) => {
            lemma_if_acts_ok(cond, then_body, else_body, st, s);
        },
    }
}

/// The conditional's opening choreography is consistent after any
/// consistent prefix: three dense fresh blocks, the merge parameter,
/// the branch, entry into the then arm, and its zero default.
#[verifier::spinoff_prover]
#[verifier::rlimit(100)]
proof fn lemma_if_open_ok(
    base: Seq<Act>,
    vs0: int,
    bs0: int,
    vars0: int,
    tb: u64,
    eb: u64,
    mb: u64,
    phi: u64,
    cv: u64,
    tz: u64,
)
    requires
        acts_ok_from(base, vs0, bs0, vars0),
        tb == bs0 + bcnt(base),
        eb == bs0 + bcnt(base) + 1,
        mb == bs0 + bcnt(base) + 2,
        phi == vs0 + vcnt(base),
        cv < vs0 + vcnt(base),
        tz == vs0 + vcnt(base) + 1,
    ensures
        ({
            let g = base + seq![
                Act::CreateBlock(tb),
                Act::CreateBlock(eb),
                Act::CreateBlock(mb),
                Act::BlockParam(mb, TyCode::I64, phi),
                Act::Brif(cv, tb, eb),
                Act::SwitchTo(tb),
                Act::Seal(tb),
                Act::IConst(TyCode::I64, 0, tz),
            ];
            &&& acts_ok_from(g, vs0, bs0, vars0)
            &&& vcnt(g) == vcnt(base) + 2
            &&& bcnt(g) == bcnt(base) + 3
            &&& varcnt(g) == varcnt(base)
        }),
{
    let m1 = base.push(Act::CreateBlock(tb));
    lemma_acts_ok_push(base, Act::CreateBlock(tb), vs0, bs0, vars0);
    let m2 = m1.push(Act::CreateBlock(eb));
    lemma_acts_ok_push(m1, Act::CreateBlock(eb), vs0, bs0, vars0);
    let m3 = m2.push(Act::CreateBlock(mb));
    lemma_acts_ok_push(m2, Act::CreateBlock(mb), vs0, bs0, vars0);
    let m4 = m3.push(Act::BlockParam(mb, TyCode::I64, phi));
    lemma_acts_ok_push(m3, Act::BlockParam(mb, TyCode::I64, phi), vs0, bs0, vars0);
    let m5 = m4.push(Act::Brif(cv, tb, eb));
    lemma_acts_ok_push(m4, Act::Brif(cv, tb, eb), vs0, bs0, vars0);
    let m6 = m5.push(Act::SwitchTo(tb));
    lemma_acts_ok_push(m5, Act::SwitchTo(tb), vs0, bs0, vars0);
    let m7 = m6.push(Act::Seal(tb));
    lemma_acts_ok_push(m6, Act::Seal(tb), vs0, bs0, vars0);
    let m8 = m7.push(Act::IConst(TyCode::I64, 0, tz));
    lemma_acts_ok_push(m7, Act::IConst(TyCode::I64, 0, tz), vs0, bs0, vars0);
    assert(base + seq![
        Act::CreateBlock(tb),
        Act::CreateBlock(eb),
        Act::CreateBlock(mb),
        Act::BlockParam(mb, TyCode::I64, phi),
        Act::Brif(cv, tb, eb),
        Act::SwitchTo(tb),
        Act::Seal(tb),
        Act::IConst(TyCode::I64, 0, tz),
    ] =~= m8);
}

/// Closing one arm and opening the other is consistent after any
/// consistent prefix: the jump into the merge block, entry into the
/// other arm, and its zero default.
#[verifier::spinoff_prover]
#[verifier::rlimit(100)]
proof fn lemma_if_swap_ok(
    base: Seq<Act>,
    vs0: int,
    bs0: int,
    vars0: int,
    mb: u64,
    arg: u64,
    nxt: u64,
    z: u64,
)
    requires
        acts_ok_from(base, vs0, bs0, vars0),
        mb < bs0 + bcnt(base),
        nxt < bs0 + bcnt(base),
        arg < vs0 + vcnt(base),
        z == vs0 + vcnt(base),
    ensures
        ({
            let g = base + seq![
                Act::Jump1(mb, arg),
                Act::SwitchTo(nxt),
                Act::Seal(nxt),
                Act::IConst(TyCode::I64, 0, z),
            ];
            &&& acts_ok_from(g, vs0, bs0, vars0)
            &&& vcnt(g) == vcnt(base) + 1
            &&& bcnt(g) == bcnt(base)
            &&& varcnt(g) == varcnt(base)
        }),
{
    let m1 = base.push(Act::Jump1(mb, arg));
    lemma_acts_ok_push(base, Act::Jump1(mb, arg), vs0, bs0, vars0);
    let m2 = m1.push(Act::SwitchTo(nxt));
    lemma_acts_ok_push(m1, Act::SwitchTo(nxt), vs0, bs0, vars0);
    let m3 = m2.push(Act::Seal(nxt));
    lemma_acts_ok_push(m2, Act::Seal(nxt), vs0, bs0, vars0);
    let m4 = m3.push(Act::IConst(TyCode::I64, 0, z));
    lemma_acts_ok_push(m3, Act::IConst(TyCode::I64, 0, z), vs0, bs0, vars0);
    assert(base + seq![
        Act::Jump1(mb, arg),
        Act::SwitchTo(nxt),
        Act::Seal(nxt),
        Act::IConst(TyCode::I64, 0, z),
    ] =~= m4);
}

/// Closing the conditional is consistent after any consistent prefix:
/// the else arm's jump into the merge block, entry into it, and its
/// seal.
#[verifier::spinoff_prover]
#[verifier::rlimit(100)]
proof fn lemma_if_close_ok(base: Seq<Act>, vs0: int, bs0: int, vars0: int, mb: u64, arg: u64)
    requires
        acts_ok_from(base, vs0, bs0, vars0),
        mb < bs0 + bcnt(base),
        arg < vs0 + vcnt(base),
    ensures
        ({
            let g = base + seq![Act::Jump1(mb, arg), Act::SwitchTo(mb), Act::Seal(mb)];
            &&& acts_ok_from(g, vs0, bs0, vars0)
            &&& vcnt(g) == vcnt(base)
            &&& bcnt(g) == bcnt(base)
            &&& varcnt(g) == varcnt(base)
        }),
{
    let m1 = base.push(Act::Jump1(mb, arg));
    lemma_acts_ok_push(base, Act::Jump1(mb, arg), vs0, bs0, vars0);
    let m2 = m1.push(Act::SwitchTo(mb));
    lemma_acts_ok_push(m1, Act::SwitchTo(mb), vs0, bs0, vars0);
    let m3 = m2.push(Act::Seal(mb));
    lemma_acts_ok_push(m2, Act::Seal(mb), vs0, bs0, vars0);
    assert(base + seq![Act::Jump1(mb, arg), Act::SwitchTo(mb), Act::Seal(mb)] =~= m3);
}

/// The conditional case of `lemma_stmt_acts_ok`, separated for the
/// prover's sake.
#[verifier::spinoff_prover]
#[verifier::rlimit(100)]
proof fn lemma_if_acts_ok(cond: Expr, then_body: Vec<Stmt>, else_body: Vec<Stmt>, st: BSt, s: Stmt)
    requires
        s == Stmt::If(cond, then_body, else_body),
        wf_stmt(s, st),
        env_slots_below(st.env, st.nvar),
        st.nv + stmt_vals(s) < 0xffff_ffff_ffff_ffff,
        st.nvar + nvars_stmt(s) < 0xffff_ffff_ffff_ffff,
        st.nb + nblks_stmt(s) < 0xffff_ffff_ffff_ffff,
    ensures
        ({
            let o = spec_build_stmt(s, st);
            &&& o.st.nv == st.nv + stmt_vals(s)
            &&& o.st.nvar == st.nvar + nvars_stmt(s)
            &&& o.st.nb == st.nb + nblks_stmt(s)
            &&& vcnt(o.acts) == stmt_vals(s)
            &&& bcnt(o.acts) == nblks_stmt(s)
            &&& varcnt(o.acts) == nvars_stmt(s)
            &&& o.val < o.st.nv
            &&& env_slots_below(o.st.env, o.st.nvar)
            &&& acts_ok_from(o.acts, st.nv as int, st.nb as int, st.nvar as int)
        }),
    decreases s, 0nat, 0nat,
{
    let o = spec_build_stmt(s, st);
    lemma_expr_acts_ok(cond, st);
    crate::laws::lemma_expr_keeps_env(cond, st);
    let co = spec_build_expr(cond, st);
    let tb = co.st.nb;
    let eb = inc(co.st.nb);
    let mb = inc(inc(co.st.nb));
    let phi = co.st.nv;
    let st1 = BSt { nb: inc(mb), nv: inc(phi), ..co.st };
    let tz = st1.nv;
    let st2 = BSt { nv: inc(st1.nv), ..st1 };
    let to = spec_build_stmts(then_body@, 0, st2, tz);
    let ez = to.st.nv;
    let st3 = BSt { nv: inc(to.st.nv), ..to.st };
    let eo = spec_build_stmts(else_body@, 0, st3, ez);
    let vs0 = st.nv as int;
    let bs0 = st.nb as int;
    let vars0 = st.nvar as int;
    let s8 = seq![
        Act::CreateBlock(tb),
        Act::CreateBlock(eb),
        Act::CreateBlock(mb),
        Act::BlockParam(mb, TyCode::I64, phi),
        Act::Brif(co.val, tb, eb),
        Act::SwitchTo(tb),
        Act::Seal(tb),
        Act::IConst(TyCode::I64, 0, tz),
    ];
    let s4 = seq![
        Act::Jump1(mb, to.val),
        Act::SwitchTo(eb),
        Act::Seal(eb),
        Act::IConst(TyCode::I64, 0, ez),
    ];
    let s3 = seq![Act::Jump1(mb, eo.val), Act::SwitchTo(mb), Act::Seal(mb)];
    lemma_if_open_ok(co.acts, vs0, bs0, vars0, tb, eb, mb, phi, co.val, tz);
    let g1 = co.acts + s8;
    lemma_cnt_append(co.acts, s8);
    lemma_stmts_acts_ok(then_body@, 0, st2, tz);
    assert(to.val < to.st.nv);
    lemma_acts_ok_from_concat(g1, to.acts, vs0, bs0, vars0);
    lemma_cnt_append(g1, to.acts);
    let g2 = g1 + to.acts;
    lemma_if_swap_ok(g2, vs0, bs0, vars0, mb, to.val, eb, ez);
    let g3 = g2 + s4;
    lemma_cnt_append(g2, s4);
    lemma_stmts_acts_ok(else_body@, 0, st3, ez);
    assert(eo.val < eo.st.nv);
    lemma_acts_ok_from_concat(g3, eo.acts, vs0, bs0, vars0);
    lemma_cnt_append(g3, eo.acts);
    let g4 = g3 + eo.acts;
    lemma_if_close_ok(g4, vs0, bs0, vars0, mb, eo.val);
    let g5 = g4 + s3;
    lemma_cnt_append(g4, s3);
    assert(o.acts =~= g5);
}

/// The translation of a statement list is consistent with the state's
/// own counters.
#[verifier::spinoff_prover]
#[verifier::rlimit(100)]
pub proof fn lemma_stmts_acts_ok(ss: Seq<Stmt>, i: int, st: BSt, last: u64)
    requires
        0 <= i,
        wf_stmts(ss, i, st),
        env_slots_below(st.env, st.nvar),
        st.nv + stmts_vals(ss, i) < 0xffff_ffff_ffff_ffff,
        st.nvar + nvars_stmts(ss, i) < 0xffff_ffff_ffff_ffff,
        st.nb + nblks_stmts(ss, i) < 0xffff_ffff_ffff_ffff,
    ensures
        ({
            let o = spec_build_stmts(ss, i, st, last);
            &&& o.st.nv == st.nv + stmts_vals(ss, i)
            &&& o.st.nvar == st.nvar + nvars_stmts(ss, i)
            &&& o.st.nb == st.nb + nblks_stmts(ss, i)
            &&& vcnt(o.acts) == stmts_vals(ss, i)
            &&& bcnt(o.acts) == nblks_stmts(ss, i)
            &&& varcnt(o.acts) == nvars_stmts(ss, i)
            &&& (o.val < o.st.nv || o.val == last)
            &&& env_slots_below(o.st.env, o.st.nvar)
            &&& acts_ok_from(o.acts, st.nv as int, st.nb as int, st.nvar as int)
        }),
    decreases ss, ss.len() - i, 1nat,
{
    let o = spec_build_stmts(ss, i, st, last);
    if i >= ss.len() {
        lemma_cnt_empty();
        assert(o.acts =~= Seq::<Act>::empty());
        assert(acts_ok_from(o.acts, st.nv as int, st.nb as int, st.nvar as int));
    } else {
        lemma_stmt_acts_ok(ss[i], st);
        let so = spec_build_stmt(ss[i], st);
        lemma_stmts_acts_ok(ss, i + 1, so.st, so.val);
        let rest = spec_build_stmts(ss, i + 1, so.st, so.val);
        lemma_acts_ok_from_concat(so.acts, rest.acts, st.nv as int, st.nb as int, st.nvar as int);
        lemma_cnt_append(so.acts, rest.acts);
        assert(o.acts =~= so.acts + rest.acts);
    }
}

/// Whenever every read and write in a program is bound and its size
/// stays within the index space, its translation is consistent: every
/// reference the action program makes was defined before it, and every
/// definition is the next dense index. The emitter's own index checks
/// can therefore never refuse a translated well-bound program.
#[verifier::spinoff_prover]
#[verifier::rlimit(100)]
pub proof fn lemma_translator_output_consistent(stmts: Seq<Stmt>)
    requires
        wf_program(stmts),
        stmts_vals(stmts, 0) + 1 < 0xffff_ffff_ffff_ffff,
        nvars_stmts(stmts, 0) < 0xffff_ffff_ffff_ffff,
        nblks_stmts(stmts, 0) + 1 < 0xffff_ffff_ffff_ffff,
    ensures
        acts_ok(spec_build_program(stmts).0),
{
    let st1 = BSt { nb: 1, ..BSt::init() };
    let body = spec_build_stmts(stmts, 0, st1, 0);
    let entry = Seq::<Act>::empty().push(Act::CreateBlock(0)).push(Act::FuncParams(0)).push(
        Act::SwitchTo(0),
    ).push(Act::Seal(0));
    lemma_cnt_empty();
    assert(acts_ok_from(Seq::<Act>::empty(), 0, 0, 0));
    lemma_acts_ok_push(Seq::<Act>::empty(), Act::CreateBlock(0), 0, 0, 0);
    lemma_acts_ok_push(Seq::<Act>::empty().push(Act::CreateBlock(0)), Act::FuncParams(0), 0, 0, 0);
    lemma_acts_ok_push(
        Seq::<Act>::empty().push(Act::CreateBlock(0)).push(Act::FuncParams(0)),
        Act::SwitchTo(0),
        0,
        0,
        0,
    );
    lemma_acts_ok_push(
        Seq::<Act>::empty().push(Act::CreateBlock(0)).push(Act::FuncParams(0)).push(
            Act::SwitchTo(0),
        ),
        Act::Seal(0),
        0,
        0,
        0,
    );
    assert(env_slots_below(st1.env, st1.nvar));
    lemma_stmts_acts_ok(stmts, 0, st1, 0);
    lemma_acts_ok_from_concat(entry, body.acts, 0, 0, 0);
    lemma_cnt_append(entry, body.acts);
    let g = entry + body.acts;
    lemma_acts_ok_push(g, Act::IConst(TyCode::I64, 0, body.st.nv), 0, 0, 0);
    lemma_acts_ok_push(
        g.push(Act::IConst(TyCode::I64, 0, body.st.nv)),
        Act::Ret(body.st.nv),
        0,
        0,
        0,
    );
    let full = g.push(Act::IConst(TyCode::I64, 0, body.st.nv)).push(Act::Ret(body.st.nv));
    assert(spec_build_program(stmts).0 =~= full);
    assert forall|j: int| 0 <= j < full.len() implies act_ok(
        #[trigger] full[j],
        vcnt(full.take(j)),
        bcnt(full.take(j)),
        varcnt(full.take(j)),
    ) by {
        assert(act_ok(full[j], 0 + vcnt(full.take(j)), 0 + bcnt(full.take(j)), 0 + varcnt(
            full.take(j),
        )));
    }
}

} // verus!
