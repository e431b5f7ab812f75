//! A machine semantics for straight-line action programs, and the
//! output-correspondence theorem: for a conditional-free, float-free,
//! well-bound program, the action sequence the translation emits drives
//! the machine through exactly the print events that direct evaluation
//! of the IR prescribes, with the same values.
//!
//! The machine reads an action sequence literally: immediates load
//! registers, blob placements load a blob's bytes, binary instructions
//! combine registers under the backend's arithmetic (wrapping integer
//! arithmetic, signed comparisons, unsigned division), slot writes and
//! reads move values between registers and storage, and each output call
//! appends one event.

use vstd::prelude::*;
use vstd::map::*;
use crate::acts::{Act, IntCond, BinOpc};
use crate::ir::{IrType, Literal, IrValue, Expr, Stmt};
use crate::trans::{
    BSt, inc, env_find, env_slot, op_code, blob_of, fmt_int_blob, fmt_float_blob,
    spec_build_expr, spec_build_value, spec_build_stmt, spec_build_stmts, spec_build_program,
};

verus! {

/// A machine value: a word, or the address of a blob (stood for by the
/// blob's bytes).
pub enum MVal {
    W(i64),
    B(Seq<u8>),
}

/// One output event: a text line handed to the string routine, or a
/// word handed to the integer format.
pub enum OutEv {
    Text(Seq<u8>),
    Word(i64),
}

/// The machine's state.
#[verifier::ext_equal]
pub struct MState {
    pub regs: Map<u64, MVal>,
    pub slots: Map<u64, MVal>,
    pub out: Seq<OutEv>,
}

impl MState {
    pub open spec fn init() -> MState {
        MState { regs: Map::empty(), slots: Map::empty(), out: Seq::empty() }
    }
}

/// The word in a machine value; a blob address has no word reading.
pub open spec fn mval_w(v: MVal) -> i64 {
    match v {
        MVal::W(w) => w,
        MVal::B(_) => 0,
    }
}

/// The blob in a machine value.
pub open spec fn mval_b(v: MVal) -> Seq<u8> {
    match v {
        MVal::W(_) => Seq::empty(),
        MVal::B(b) => b,
    }
}

/// A signed word from its unbounded value, wrapping.
pub open spec fn wrap_i(x: int) -> i64 {
    let m = x % 0x1_0000_0000_0000_0000;
    if m >= 0x8000_0000_0000_0000 {
        (m - 0x1_0000_0000_0000_0000) as i64
    } else {
        m as i64
    }
}

/// The unsigned reading of a signed word.
pub open spec fn to_u64(x: i64) -> u64 {
    if x >= 0 {
        x as u64
    } else {
        (x + 0x1_0000_0000_0000_0000) as u64
    }
}

/// The backend's binary arithmetic on machine values: wrapping integer
/// arithmetic, unsigned division, signed comparisons. Float
/// instructions are outside this machine and give the zero word.
pub open spec fn binsem(opc: BinOpc, x: MVal, y: MVal) -> MVal {
    let a = mval_w(x);
    let b = mval_w(y);
    match opc {
        BinOpc::IAdd => MVal::W(wrap_i(a + b)),
        BinOpc::ISub => MVal::W(wrap_i(a - b)),
        BinOpc::IMul => MVal::W(wrap_i(a * b)),
        BinOpc::UDiv => MVal::W(
            if to_u64(b) == 0 {
                0i64
            } else {
                wrap_i((to_u64(a) / to_u64(b)) as int)
            },
        ),
        BinOpc::ICmp(cc) => MVal::W(
            match cc {
                IntCond::Eq => if a == b { 1 } else { 0 },
                IntCond::Ne => if a != b { 1 } else { 0 },
                IntCond::Sgt => if a > b { 1 } else { 0 },
                IntCond::Slt => if a < b { 1 } else { 0 },
                IntCond::Sge => if a >= b { 1 } else { 0 },
                IntCond::Sle => if a <= b { 1 } else { 0 },
            },
        ),
        _ => MVal::W(0),
    }
}

/// One machine step. Control actions are inert on a straight-line
/// machine; an output call's result register holds the zero word.
pub open spec fn run_act(a: Act, strs: Seq<Seq<u8>>, ms: MState) -> MState {
    match a {
        Act::IConst(_, imm, o) => MState { regs: ms.regs.insert(o, MVal::W(imm)), ..ms },
        Act::StrData(sid, o) => MState {
            regs: ms.regs.insert(o, MVal::B(strs[sid as int])),
            ..ms
        },
        Act::Bin(opc, l, r, o) => MState {
            regs: ms.regs.insert(o, binsem(opc, ms.regs[l], ms.regs[r])),
            ..ms
        },
        Act::DeclareVar(_, _) => ms,
        Act::DefVar(var, v) => MState { slots: ms.slots.insert(var, ms.regs[v]), ..ms },
        Act::UseVar(var, o) => MState { regs: ms.regs.insert(o, ms.slots[var]), ..ms },
        Act::CallPuts(arg, o) => MState {
            regs: ms.regs.insert(o, MVal::W(0)),
            out: ms.out.push(OutEv::Text(mval_b(ms.regs[arg]))),
            ..ms
        },
        Act::CallPrintfInt(_, arg, o) => MState {
            regs: ms.regs.insert(o, MVal::W(0)),
            out: ms.out.push(OutEv::Word(mval_w(ms.regs[arg]))),
            ..ms
        },
        Act::F64Const(_, o) => MState { regs: ms.regs.insert(o, MVal::W(0)), ..ms },
        Act::CallPrintfFloat(_, arg, o) => MState {
            regs: ms.regs.insert(o, MVal::W(0)),
            ..ms
        },
        _ => ms,
    }
}

/// Runs an action sequence left to right.
pub open spec fn run(acts: Seq<Act>, strs: Seq<Seq<u8>>, ms: MState) -> MState
    decreases acts.len(),
{
    if acts.len() == 0 {
        ms
    } else {
        run(acts.drop_first(), strs, run_act(acts.first(), strs, ms))
    }
}

/// Running a concatenation runs the two halves in order.
pub proof fn lemma_run_append(a: Seq<Act>, b: Seq<Act>, strs: Seq<Seq<u8>>, ms: MState)
    ensures
        run(a + b, strs, ms) == run(b, strs, run(a, strs, ms)),
    decreases a.len(),
{
    if a.len() == 0 {
        assert(a + b =~= b);
    } else {
        assert((a + b).first() == a.first());
        assert((a + b).drop_first() =~= a.drop_first() + b);
        lemma_run_append(a.drop_first(), b, strs, run_act(a.first(), strs, ms));
    }
}

/// What direct evaluation of an expression yields: a value and the
/// output events its print leaves produce, in program order.
pub struct EvOut {
    pub val: MVal,
    pub out: Seq<OutEv>,
}

/// Direct evaluation of a conditional-free, float-free expression under
/// a binding environment. Arithmetic is the backend's own: the operator
/// family selected for non-float operands, over words.
pub open spec fn eval_expr(e: Expr, env: Map<Seq<char>, MVal>) -> EvOut
    decreases e, 0nat,
{
    match e {
        Expr::GetVar(name) => EvOut { val: env[name@], out: Seq::empty() },
        Expr::Value(v, ty) => eval_value(v, ty, env),
        Expr::PrintStr(a) => {
            let ao = eval_expr(*a, env);
            EvOut { val: MVal::W(0), out: ao.out.push(OutEv::Text(mval_b(ao.val))) }
        },
        Expr::PrintInt(a) => {
            let ao = eval_expr(*a, env);
            EvOut { val: MVal::W(0), out: ao.out.push(OutEv::Word(mval_w(ao.val))) }
        },
        Expr::PrintFloat(a) => {
            let ao = eval_expr(*a, env);
            EvOut { val: MVal::W(0), out: ao.out }
        },
    }
}

pub open spec fn eval_value(v: IrValue, ty: IrType, env: Map<Seq<char>, MVal>) -> EvOut
    decreases v, 1nat,
{
    match v {
        IrValue::Literal(l) => match l {
            Literal::Int(i) => EvOut { val: MVal::W(i), out: Seq::empty() },
            Literal::Bool(b) => EvOut {
                val: MVal::W(if b { 1 } else { 0 }),
                out: Seq::empty(),
            },
            Literal::Float(_) => EvOut { val: MVal::W(0), out: Seq::empty() },
            Literal::Str(s) => EvOut { val: MVal::B(blob_of(s@)), out: Seq::empty() },
        },
        IrValue::Binary(l, op, r) => {
            let lo = eval_expr(*l, env);
            let ro = eval_expr(*r, env);
            EvOut {
                val: binsem(op_code(op, ty is Float), lo.val, ro.val),
                out: lo.out + ro.out,
            }
        },
    }
}

/// The expressions the straight-line theorem covers: every variable
/// read is bound, no float literal or float-typed binary node appears,
/// and no division whose divisor evaluates to the zero word (division
/// by zero traps in the generated code and stops this machine's
/// correspondence).
pub open spec fn p1_expr_ok(e: Expr, env: Map<Seq<char>, MVal>) -> bool
    decreases e, 0nat,
{
    match e {
        Expr::GetVar(name) => env.contains_key(name@),
        Expr::Value(v, ty) => p1_value_ok(v, ty, env),
        Expr::PrintStr(a) => p1_expr_ok(*a, env),
        Expr::PrintInt(a) => p1_expr_ok(*a, env),
        Expr::PrintFloat(a) => false,
    }
}

pub open spec fn p1_value_ok(v: IrValue, ty: IrType, env: Map<Seq<char>, MVal>) -> bool
    decreases v, 1nat,
{
    match v {
        IrValue::Literal(l) => !(l is Float) && !(ty is Float),
        IrValue::Binary(l, op, r) => !(ty is Float) && p1_expr_ok(*l, env) && p1_expr_ok(*r, env)
            && (op is Div ==> to_u64(mval_w(eval_expr(*r, env).val)) != 0),
    }
}

/// How many values an expression's translation defines.
pub open spec fn nvals_expr(e: Expr) -> nat
    decreases e, 0nat,
{
    match e {
        Expr::GetVar(_) => 1,
        Expr::Value(v, _) => nvals_value(v),
        Expr::PrintStr(a) => nvals_expr(*a) + 1,
        Expr::PrintInt(a) => nvals_expr(*a) + 2,
        Expr::PrintFloat(a) => nvals_expr(*a) + 2,
    }
}

pub open spec fn nvals_value(v: IrValue) -> nat
    decreases v, 1nat,
{
    match v {
        IrValue::Literal(_) => 1,
        IrValue::Binary(l, _, r) => nvals_expr(*l) + nvals_expr(*r) + 1,
    }
}

/// The correspondence between the translator's binding environment and
/// the evaluator's: the same names are bound, every bound name's slot
/// holds its value, and slots ascend strictly (so no two bindings share
/// one).
pub open spec fn env_rel(
    benv: Seq<(Seq<char>, u64)>,
    env: Map<Seq<char>, MVal>,
    slots: Map<u64, MVal>,
) -> bool {
    &&& forall|n: Seq<char>| #[trigger] env.contains_key(n) <==> env_find(benv, n) is Some
    &&& forall|n: Seq<char>|
        #[trigger] env.contains_key(n) ==> slots.contains_key(env_slot(benv, n)) && slots[
            env_slot(benv, n)
        ] == env[n]
}

/// Slots ascend strictly along the binding environment.
pub open spec fn env_ascending(benv: Seq<(Seq<char>, u64)>) -> bool {
    forall|i: int, j: int| 0 <= i < j < benv.len() ==> (#[trigger] benv[i]).1 < (#[trigger] benv[j]).1
}

/// A bound name's slot is the slot of some binding of that name.
proof fn lemma_env_find_is_member(benv: Seq<(Seq<char>, u64)>, n: Seq<char>)
    requires
        env_find(benv, n) is Some,
    ensures
        exists|i: int|
            0 <= i < benv.len() && (#[trigger] benv[i]).0 == n && benv[i].1 == env_slot(benv, n),
    decreases benv.len(),
{
    if benv.len() > 0 {
        if benv.last().0 == n {
            assert(benv[benv.len() - 1].0 == n && benv[benv.len() - 1].1 == env_slot(benv, n));
        } else {
            lemma_env_find_is_member(benv.drop_last(), n);
            let i = choose|i: int|
                0 <= i < benv.drop_last().len() && (#[trigger] benv.drop_last()[i]).0 == n
                    && benv.drop_last()[i].1 == env_slot(benv.drop_last(), n);
            assert(benv[i].0 == n && benv[i].1 == env_slot(benv, n));
        }
    }
}

/// Two distinct bound names never share a slot, since slots ascend
/// strictly along the environment.
proof fn lemma_distinct_names_distinct_slots(
    benv: Seq<(Seq<char>, u64)>,
    m: Seq<char>,
    n: Seq<char>,
)
    requires
        env_ascending(benv),
        env_find(benv, m) is Some,
        env_find(benv, n) is Some,
        m != n,
    ensures
        env_slot(benv, m) != env_slot(benv, n),
{
    lemma_env_find_is_member(benv, m);
    lemma_env_find_is_member(benv, n);
    let i = choose|i: int|
        0 <= i < benv.len() && (#[trigger] benv[i]).0 == m && benv[i].1 == env_slot(benv, m);
    let j = choose|j: int|
        0 <= j < benv.len() && (#[trigger] benv[j]).0 == n && benv[j].1 == env_slot(benv, n);
    assert(i != j);
}

/// Pushing a binding changes only that name's lookup.
proof fn lemma_env_find_push(benv: Seq<(Seq<char>, u64)>, p: (Seq<char>, u64), n: Seq<char>)
    ensures
        env_find(benv.push(p), n) == (if p.0 == n {
            Some(p.1)
        } else {
            env_find(benv, n)
        }),
{
    assert(benv.push(p).last() == p);
    assert(benv.push(p).drop_last() =~= benv);
}

/// Running one action.
proof fn lemma_run_one(a: Act, strs: Seq<Seq<u8>>, ms: MState)
    ensures
        run(seq![a], strs, ms) == run_act(a, strs, ms),
{
    let one = seq![a];
    assert(one.len() == 1);
    assert(one.first() == a);
    assert(one.drop_first() =~= Seq::<Act>::empty());
    assert(run(one, strs, ms) == run(one.drop_first(), strs, run_act(a, strs, ms)));
    assert(run(Seq::<Act>::empty(), strs, run_act(a, strs, ms)) == run_act(a, strs, ms));
}

/// The expression simulation: running the actions an expression
/// translates to takes the machine to the directly evaluated value,
/// appending exactly the evaluator's output events, touching no slots,
/// and writing no register below the translation's starting index.
pub proof fn p1_expr_sim(
    e: Expr,
    st: BSt,
    env: Map<Seq<char>, MVal>,
    strs: Seq<Seq<u8>>,
    ms: MState,
)
    requires
        p1_expr_ok(e, env),
        env_rel(st.env, env, ms.slots),
        spec_build_expr(e, st).st.strs.is_prefix_of(strs),
        strs.len() < 0x1_0000_0000_0000_0000,
        st.nv + nvals_expr(e) < 0xffff_ffff_ffff_ffff,
    ensures
        ({
            let o = spec_build_expr(e, st);
            let ev = eval_expr(e, env);
            let ms2 = run(o.acts, strs, ms);
            &&& o.st.nv == st.nv + nvals_expr(e)
            &&& st.nv <= o.val < o.st.nv
            &&& ms2.slots == ms.slots
            &&& ms2.out == ms.out + ev.out
            &&& ms2.regs.contains_key(o.val)
            &&& ms2.regs[o.val] == ev.val
            &&& forall|id: u64|
                id < st.nv ==> #[trigger] ms2.regs.contains_key(id) == ms.regs.contains_key(id)
            &&& forall|id: u64|
                id < st.nv && ms.regs.contains_key(id) ==> #[trigger] ms2.regs[id] == ms.regs[id]
        }),
    decreases e, 0nat,
{
    let o = spec_build_expr(e, st);
    let ev = eval_expr(e, env);
    match e {
        Expr::GetVar(name) => {
            lemma_env_find_is_member(st.env, name@);
            assert(o.acts =~= seq![Act::UseVar(env_slot(st.env, name@), st.nv)]);
            lemma_run_one(Act::UseVar(env_slot(st.env, name@), st.nv), strs, ms);
            assert(ms.slots.contains_key(env_slot(st.env, name@)));
            assert(ms.slots[env_slot(st.env, name@)] == env[name@]);
            assert(run(o.acts, strs, ms).out =~= ms.out + ev.out);
        },
        Expr::Value(v, ty) => {
            p1_value_sim(v, ty, st, env, strs, ms);
        },
        Expr::PrintStr(a) => {
            let ao = spec_build_expr(*a, st);
            p1_expr_sim(*a, st, env, strs, ms);
            let ms1 = run(ao.acts, strs, ms);
            assert(o.acts =~= ao.acts + seq![Act::CallPuts(ao.val, ao.st.nv)]);
            lemma_run_append(ao.acts, seq![Act::CallPuts(ao.val, ao.st.nv)], strs, ms);
            let tail = seq![Act::CallPuts(ao.val, ao.st.nv)];
            lemma_run_one(Act::CallPuts(ao.val, ao.st.nv), strs, ms1);
            assert(run(o.acts, strs, ms).out =~= ms.out + ev.out);
        },
        Expr::PrintInt(a) => {
            let fmt = st.nv;
            let st1 = BSt { nv: inc(st.nv), strs: st.strs.push(fmt_int_blob()), ..st };
            let ao = spec_build_expr(*a, st1);
            let head = seq![Act::StrData(st.strs.len() as u64, fmt)];
            let tail = seq![Act::CallPrintfInt(fmt, ao.val, ao.st.nv)];
            assert(o.acts =~= head + (ao.acts + tail));
            assert(head.drop_first() =~= Seq::<Act>::empty());
            let ms1 = run_act(head.first(), strs, ms);
            lemma_run_append(head, ao.acts + tail, strs, ms);
            lemma_run_one(head.first(), strs, ms);
            assert(run(head, strs, ms) == ms1);
            crate::laws::lemma_expr_strs_extend(*a, st1);
            assert(st1.strs.is_prefix_of(strs)) by {
                crate::laws::lemma_prefix_trans(st1.strs, ao.st.strs, strs);
            }
            p1_expr_sim(*a, st1, env, strs, ms1);
            let ms2 = run(ao.acts, strs, ms1);
            lemma_run_append(ao.acts, tail, strs, ms1);
            lemma_run_one(tail.first(), strs, ms2);
            assert(run(o.acts, strs, ms).out =~= ms.out + ev.out);
        },
        Expr::PrintFloat(a) => {
            assert(false);
        },
    }
}

/// The value-node simulation.
pub proof fn p1_value_sim(
    v: IrValue,
    ty: IrType,
    st: BSt,
    env: Map<Seq<char>, MVal>,
    strs: Seq<Seq<u8>>,
    ms: MState,
)
    requires
        p1_value_ok(v, ty, env),
        env_rel(st.env, env, ms.slots),
        spec_build_value(v, ty, st).st.strs.is_prefix_of(strs),
        strs.len() < 0x1_0000_0000_0000_0000,
        st.nv + nvals_value(v) < 0xffff_ffff_ffff_ffff,
    ensures
        ({
            let o = spec_build_value(v, ty, st);
            let ev = eval_value(v, ty, env);
            let ms2 = run(o.acts, strs, ms);
            &&& o.st.nv == st.nv + nvals_value(v)
            &&& st.nv <= o.val < o.st.nv
            &&& ms2.slots == ms.slots
            &&& ms2.out == ms.out + ev.out
            &&& ms2.regs.contains_key(o.val)
            &&& ms2.regs[o.val] == ev.val
            &&& forall|id: u64|
                id < st.nv ==> #[trigger] ms2.regs.contains_key(id) == ms.regs.contains_key(id)
            &&& forall|id: u64|
                id < st.nv && ms.regs.contains_key(id) ==> #[trigger] ms2.regs[id] == ms.regs[id]
        }),
    decreases v, 1nat,
{
    let o = spec_build_value(v, ty, st);
    let ev = eval_value(v, ty, env);
    match v {
        IrValue::Literal(l) => {
            assert(o.acts.len() == 1);
            lemma_run_one(o.acts.first(), strs, ms);
            assert(o.acts =~= seq![o.acts.first()]);
            assert(run(o.acts, strs, ms) == run_act(o.acts.first(), strs, ms));
            match l {
                Literal::Str(s) => {
                    // The blob placed for this literal is the one the
                    // action references.
                    assert(o.st.strs[st.strs.len() as int] == blob_of(s@));
                    assert(strs.subrange(0, o.st.strs.len() as int) =~= o.st.strs);
                    assert(strs[st.strs.len() as int] == blob_of(s@));
                    assert(st.strs.len() < strs.len());
                    assert(((st.strs.len() as u64) as int) == st.strs.len());
                },
                _ => {},
            }
            let msf = run_act(o.acts.first(), strs, ms);
            assert(o.st.nv == st.nv + nvals_value(v));
            assert(st.nv <= o.val < o.st.nv);
            assert(msf.slots == ms.slots);
            assert(msf.out =~= ms.out + ev.out);
            assert(msf.regs.contains_key(o.val));
            assert(msf.regs[o.val] == ev.val);
            assert(forall|id: u64|
                id < st.nv ==> #[trigger] msf.regs.contains_key(id) == ms.regs.contains_key(id));
            assert(forall|id: u64|
                id < st.nv && ms.regs.contains_key(id) ==> #[trigger] msf.regs[id] == ms.regs[id]);
        },
        IrValue::Binary(l, op, r) => {
            let lo = spec_build_expr(*l, st);
            let ro = spec_build_expr(*r, lo.st);
            let tail = seq![Act::Bin(op_code(op, ty is Float), lo.val, ro.val, ro.st.nv)];
            assert(o.acts =~= lo.acts + (ro.acts + tail));
            crate::laws::lemma_expr_strs_extend(*r, lo.st);
            assert(lo.st.strs.is_prefix_of(strs)) by {
                crate::laws::lemma_prefix_trans(lo.st.strs, ro.st.strs, strs);
            }
            crate::laws::lemma_expr_keeps_env(*l, st);
            p1_expr_sim(*l, st, env, strs, ms);
            let ms1 = run(lo.acts, strs, ms);
            lemma_run_append(lo.acts, ro.acts + tail, strs, ms);
            p1_expr_sim(*r, lo.st, env, strs, ms1);
            let ms2 = run(ro.acts, strs, ms1);
            lemma_run_append(ro.acts, tail, strs, ms1);
            lemma_run_one(tail.first(), strs, ms2);
            assert(tail =~= seq![tail.first()]);
            assert(run(tail, strs, ms2) == run_act(tail.first(), strs, ms2));
            // The left operand's register survives the right operand's
            // actions.
            assert(ms2.regs[lo.val] == eval_expr(*l, env).val);
            assert(ms2.regs[ro.val] == eval_expr(*r, env).val);
            assert(run(o.acts, strs, ms).out =~= ms.out + ev.out);
        },
    }
}

/// The statements the straight-line theorem covers: no conditional, a
/// mutation only of a bound name, and every expression covered.
pub open spec fn p1_stmt_ok(s: Stmt, env: Map<Seq<char>, MVal>) -> bool {
    match s {
        Stmt::ExprStmt(e) => p1_expr_ok(e, env),
        Stmt::SetVar(name, e) => p1_expr_ok(e, env) && env.contains_key(name@),
        Stmt::Var(_, e, _) => p1_expr_ok(e, env),
        Stmt::If(_, _, _) => false,
    }
}

/// What direct execution of one statement yields: the environment after
/// it, and its output events.
pub struct StOut {
    pub env: Map<Seq<char>, MVal>,
    pub out: Seq<OutEv>,
}

pub open spec fn eval_stmt(s: Stmt, env: Map<Seq<char>, MVal>) -> StOut {
    match s {
        Stmt::ExprStmt(e) => StOut { env, out: eval_expr(e, env).out },
        Stmt::SetVar(name, e) => {
            let eo = eval_expr(e, env);
            StOut { env: env.insert(name@, eo.val), out: eo.out }
        },
        Stmt::Var(name, e, _) => {
            let eo = eval_expr(e, env);
            StOut { env: env.insert(name@, eo.val), out: eo.out }
        },
        Stmt::If(_, _, _) => StOut { env, out: Seq::empty() },
    }
}

pub open spec fn p1_stmts_ok(ss: Seq<Stmt>, i: int, env: Map<Seq<char>, MVal>) -> bool
    decreases ss.len() - i
        when i >= 0
{
    i >= ss.len() || (p1_stmt_ok(ss[i], env) && p1_stmts_ok(ss, i + 1, eval_stmt(ss[i], env).env))
}

pub open spec fn eval_stmts(ss: Seq<Stmt>, i: int, env: Map<Seq<char>, MVal>) -> StOut
    decreases ss.len() - i
        when i >= 0
{
    if i < 0 || i >= ss.len() {
        StOut { env, out: Seq::empty() }
    } else {
        let so = eval_stmt(ss[i], env);
        let rest = eval_stmts(ss, i + 1, so.env);
        StOut { env: rest.env, out: so.out + rest.out }
    }
}

/// How many values a statement's translation defines.
pub open spec fn nvals_stmt(s: Stmt) -> nat {
    match s {
        Stmt::ExprStmt(e) => nvals_expr(e) + 1,
        Stmt::SetVar(_, e) => nvals_expr(e) + 1,
        Stmt::Var(_, e, _) => nvals_expr(e) + 1,
        Stmt::If(_, _, _) => 0,
    }
}

pub open spec fn nvals_stmts(ss: Seq<Stmt>, i: int) -> nat
    decreases ss.len() - i
        when i >= 0
{
    if i < 0 || i >= ss.len() {
        0
    } else {
        nvals_stmt(ss[i]) + nvals_stmts(ss, i + 1)
    }
}

/// No conditional among the statements from `i` on.
pub open spec fn no_ifs(ss: Seq<Stmt>, i: int) -> bool {
    forall|j: int| i <= j < ss.len() ==> !((#[trigger] ss[j]) is If)
}

/// A straight-line statement only appends to the blob table.
proof fn lemma_stmt_strs_extend(s: Stmt, st: BSt)
    requires
        !(s is If),
    ensures
        st.strs.is_prefix_of(spec_build_stmt(s, st).st.strs),
{
    match s {
        Stmt::ExprStmt(e) => {
            crate::laws::lemma_expr_strs_extend(e, st);
        },
        Stmt::SetVar(_, e) => {
            crate::laws::lemma_expr_strs_extend(e, st);
        },
        Stmt::Var(_, e, _) => {
            crate::laws::lemma_expr_strs_extend(e, st);
        },
        Stmt::If(_, _, _) => {
            assert(st.strs.is_prefix_of(st.strs));
        },
    }
}

proof fn lemma_stmts_strs_extend(ss: Seq<Stmt>, i: int, st: BSt, last: u64)
    requires
        no_ifs(ss, i),
    ensures
        st.strs.is_prefix_of(spec_build_stmts(ss, i, st, last).st.strs),
    decreases ss.len() - i,
{
    if i < 0 {
        assert(st.strs.is_prefix_of(st.strs));
        assert(spec_build_stmts(ss, i, st, last).st == st);
    } else if i >= ss.len() {
        assert(st.strs.is_prefix_of(st.strs));
    } else {
        let so = spec_build_stmt(ss[i], st);
        lemma_stmt_strs_extend(ss[i], st);
        lemma_stmts_strs_extend(ss, i + 1, so.st, so.val);
        crate::laws::lemma_prefix_trans(
            st.strs,
            so.st.strs,
            spec_build_stmts(ss, i + 1, so.st, so.val).st.strs,
        );
    }
}

/// The statement simulation: running a straight-line statement's
/// actions produces its evaluation's output events and keeps the
/// binding correspondence.
pub proof fn p1_stmt_sim(
    s: Stmt,
    st: BSt,
    env: Map<Seq<char>, MVal>,
    strs: Seq<Seq<u8>>,
    ms: MState,
)
    requires
        p1_stmt_ok(s, env),
        env_rel(st.env, env, ms.slots),
        env_ascending(st.env),
        crate::laws::env_slots_below(st.env, st.nvar),
        spec_build_stmt(s, st).st.strs.is_prefix_of(strs),
        strs.len() < 0x1_0000_0000_0000_0000,
        st.nv + nvals_stmt(s) < 0xffff_ffff_ffff_ffff,
        st.nvar + crate::laws::nvars_stmt(s) < 0xffff_ffff_ffff_ffff,
    ensures
        ({
            let so = spec_build_stmt(s, st);
            let ev = eval_stmt(s, env);
            let ms2 = run(so.acts, strs, ms);
            &&& so.st.nv == st.nv + nvals_stmt(s)
            &&& so.st.nvar == st.nvar + crate::laws::nvars_stmt(s)
            &&& env_rel(so.st.env, ev.env, ms2.slots)
            &&& env_ascending(so.st.env)
            &&& crate::laws::env_slots_below(so.st.env, so.st.nvar)
            &&& ms2.out == ms.out + ev.out
        }),
{
    let so = spec_build_stmt(s, st);
    let ev = eval_stmt(s, env);
    match s {
        Stmt::ExprStmt(e) => {
            let eo = spec_build_expr(e, st);
            crate::laws::lemma_expr_keeps_env(e, st);
            assert(so.acts =~= eo.acts + seq![Act::IConst(crate::acts::TyCode::I64, 0, eo.st.nv)]);
            p1_expr_sim(e, st, env, strs, ms);
            let ms1 = run(eo.acts, strs, ms);
            lemma_run_append(
                eo.acts,
                seq![Act::IConst(crate::acts::TyCode::I64, 0, eo.st.nv)],
                strs,
                ms,
            );
            lemma_run_one(Act::IConst(crate::acts::TyCode::I64, 0, eo.st.nv), strs, ms1);
            assert(run(so.acts, strs, ms).out =~= ms.out + ev.out);
        },
        Stmt::SetVar(name, e) => {
            let eo = spec_build_expr(e, st);
            crate::laws::lemma_expr_keeps_env(e, st);
            let slot = env_slot(st.env, name@);
            let tail = seq![
                Act::DefVar(slot, eo.val),
                Act::IConst(crate::acts::TyCode::I64, 0, eo.st.nv),
            ];
            assert(so.acts =~= eo.acts + tail);
            p1_expr_sim(e, st, env, strs, ms);
            let ms1 = run(eo.acts, strs, ms);
            lemma_run_append(eo.acts, tail, strs, ms);
            assert(tail =~= seq![tail[0]] + seq![tail[1]]);
            lemma_run_append(seq![tail[0]], seq![tail[1]], strs, ms1);
            lemma_run_one(tail[0], strs, ms1);
            let msa = run_act(tail[0], strs, ms1);
            lemma_run_one(tail[1], strs, msa);
            let ms2 = run(so.acts, strs, ms);
            assert(ms2.slots == ms1.slots.insert(slot, ms1.regs[eo.val]));
            assert(ms1.regs[eo.val] == eval_expr(e, env).val);
            // The updated slot carries the new value; every other bound
            // name's slot differs from it and is untouched.
            assert forall|m: Seq<char>| #[trigger] ev.env.contains_key(m) implies ms2
                .slots.contains_key(env_slot(so.st.env, m)) && ms2.slots[env_slot(so.st.env, m)]
                == ev.env[m] by {
                if m != name@ {
                    lemma_distinct_names_distinct_slots(st.env, m, name@);
                }
            }
            assert(env_rel(so.st.env, ev.env, ms2.slots));
            assert(ms2.out =~= ms.out + ev.out);
        },
        Stmt::Var(name, e, ty) => {
            let eo = spec_build_expr(e, st);
            crate::laws::lemma_expr_keeps_env(e, st);
            let slot = eo.st.nvar;
            let tail = seq![
                Act::DeclareVar(crate::trans::ty_code(ty), slot),
                Act::DefVar(slot, eo.val),
                Act::IConst(crate::acts::TyCode::I64, 0, eo.st.nv),
            ];
            assert(so.acts =~= eo.acts + tail);
            p1_expr_sim(e, st, env, strs, ms);
            let ms1 = run(eo.acts, strs, ms);
            lemma_run_append(eo.acts, tail, strs, ms);
            assert(tail =~= seq![tail[0]] + (seq![tail[1]] + seq![tail[2]]));
            lemma_run_append(seq![tail[0]], seq![tail[1]] + seq![tail[2]], strs, ms1);
            lemma_run_one(tail[0], strs, ms1);
            let msa = run_act(tail[0], strs, ms1);
            lemma_run_append(seq![tail[1]], seq![tail[2]], strs, msa);
            lemma_run_one(tail[1], strs, msa);
            let msb = run_act(tail[1], strs, msa);
            lemma_run_one(tail[2], strs, msb);
            let ms2 = run(so.acts, strs, ms);
            assert(ms2.slots == ms1.slots.insert(slot, ms1.regs[eo.val]));
            assert(ms1.regs[eo.val] == eval_expr(e, env).val);
            assert(so.st.env == st.env.push((name@, slot)));
            // The fresh binding reads back its value; older bindings
            // keep their slots, all strictly below the fresh one.
            assert forall|m: Seq<char>| #[trigger] ev.env.contains_key(m) implies ms2
                .slots.contains_key(env_slot(so.st.env, m)) && ms2.slots[env_slot(so.st.env, m)]
                == ev.env[m] by {
                lemma_env_find_push(st.env, (name@, slot), m);
                if m != name@ {
                    lemma_env_find_is_member(st.env, m);
                }
            }
            assert forall|m: Seq<char>| #[trigger] ev.env.contains_key(m) <==> env_find(
                so.st.env,
                m,
            ) is Some by {
                lemma_env_find_push(st.env, (name@, slot), m);
            }
            assert(env_rel(so.st.env, ev.env, ms2.slots));
            assert forall|i: int, j: int| 0 <= i < j < so.st.env.len() implies (
            #[trigger] so.st.env[i]).1 < (#[trigger] so.st.env[j]).1 by {
                if j == so.st.env.len() - 1 {
                    assert(so.st.env[i] == st.env[i]);
                }
            }
            assert(env_ascending(so.st.env));
            assert(crate::laws::env_slots_below(so.st.env, so.st.nvar));
            assert(ms2.out =~= ms.out + ev.out);
        },
        Stmt::If(_, _, _) => {
            assert(false);
        },
    }
}

/// The statement-list simulation.
pub proof fn p1_stmts_sim(
    ss: Seq<Stmt>,
    i: int,
    st: BSt,
    last: u64,
    env: Map<Seq<char>, MVal>,
    strs: Seq<Seq<u8>>,
    ms: MState,
)
    requires
        0 <= i,
        p1_stmts_ok(ss, i, env),
        no_ifs(ss, i),
        env_rel(st.env, env, ms.slots),
        env_ascending(st.env),
        crate::laws::env_slots_below(st.env, st.nvar),
        spec_build_stmts(ss, i, st, last).st.strs.is_prefix_of(strs),
        strs.len() < 0x1_0000_0000_0000_0000,
        st.nv + nvals_stmts(ss, i) < 0xffff_ffff_ffff_ffff,
        st.nvar + crate::laws::nvars_stmts(ss, i) < 0xffff_ffff_ffff_ffff,
    ensures
        ({
            let so = spec_build_stmts(ss, i, st, last);
            let ev = eval_stmts(ss, i, env);
            let ms2 = run(so.acts, strs, ms);
            &&& env_rel(so.st.env, ev.env, ms2.slots)
            &&& ms2.out == ms.out + ev.out
        }),
    decreases ss.len() - i,
{
    let so = spec_build_stmts(ss, i, st, last);
    let ev = eval_stmts(ss, i, env);
    if i >= ss.len() {
        assert(so.acts =~= Seq::<Act>::empty());
        assert(run(so.acts, strs, ms) == ms);
        assert(ms.out =~= ms.out + ev.out);
    } else {
        let s0 = spec_build_stmt(ss[i], st);
        let e0 = eval_stmt(ss[i], env);
        let rest = spec_build_stmts(ss, i + 1, s0.st, s0.val);
        assert(so.acts =~= s0.acts + rest.acts);
        lemma_stmts_strs_extend(ss, i + 1, s0.st, s0.val);
        crate::laws::lemma_prefix_trans(
            s0.st.strs,
            rest.st.strs,
            strs,
        );
        p1_stmt_sim(ss[i], st, env, strs, ms);
        let ms1 = run(s0.acts, strs, ms);
        lemma_run_append(s0.acts, rest.acts, strs, ms);
        p1_stmts_sim(ss, i + 1, s0.st, s0.val, e0.env, strs, ms1);
        assert(run(so.acts, strs, ms).out =~= ms.out + ev.out);
    }
}

/// The straight-line output theorem: for a conditional-free, float-free
/// program whose reads are bound and whose divisions have nonzero
/// divisors, the translated action program drives the machine through
/// exactly the output events that direct evaluation of the statements
/// prescribes, in program order and with the same values.
pub proof fn theorem_straight_line_output(stmts: Seq<Stmt>)
    requires
        p1_stmts_ok(stmts, 0, Map::empty()),
        no_ifs(stmts, 0),
        nvals_stmts(stmts, 0) + 1 < 0xffff_ffff_ffff_ffff,
        crate::laws::nvars_stmts(stmts, 0) < 0xffff_ffff_ffff_ffff,
        spec_build_program(stmts).1.len() < 0x1_0000_0000_0000_0000,
    ensures
        run(spec_build_program(stmts).0, spec_build_program(stmts).1, MState::init()).out
            == eval_stmts(stmts, 0, Map::empty()).out,
{
    let st1 = BSt { nb: 1, ..BSt::init() };
    let body = spec_build_stmts(stmts, 0, st1, 0);
    let strs = spec_build_program(stmts).1;
    let entry = seq![
        Act::CreateBlock(0),
        Act::FuncParams(0),
        Act::SwitchTo(0),
        Act::Seal(0),
    ];
    let tail = seq![
        Act::IConst(crate::acts::TyCode::I64, 0, body.st.nv),
        Act::Ret(body.st.nv),
    ];
    let acts = spec_build_program(stmts).0;
    assert(acts =~= entry + (body.acts + tail));
    let ms0 = MState::init();
    // The entry choreography is inert on this machine.
    assert(entry =~= seq![entry[0]] + (seq![entry[1]] + (seq![entry[2]] + seq![entry[3]])));
    lemma_run_append(seq![entry[0]], seq![entry[1]] + (seq![entry[2]] + seq![entry[3]]), strs, ms0);
    lemma_run_one(entry[0], strs, ms0);
    lemma_run_append(seq![entry[1]], seq![entry[2]] + seq![entry[3]], strs, ms0);
    lemma_run_one(entry[1], strs, ms0);
    lemma_run_append(seq![entry[2]], seq![entry[3]], strs, ms0);
    lemma_run_one(entry[2], strs, ms0);
    lemma_run_one(entry[3], strs, ms0);
    assert(run(entry, strs, ms0) == ms0);
    lemma_run_append(entry, body.acts + tail, strs, ms0);
    assert(env_rel(st1.env, Map::empty(), ms0.slots));
    assert(body.st.strs == strs);
    assert(body.st.strs.is_prefix_of(strs));
    p1_stmts_sim(stmts, 0, st1, 0, Map::empty(), strs, ms0);
    let ms1 = run(body.acts, strs, ms0);
    lemma_run_append(body.acts, tail, strs, ms0);
    assert(tail =~= seq![tail[0]] + seq![tail[1]]);
    lemma_run_append(seq![tail[0]], seq![tail[1]], strs, ms1);
    lemma_run_one(tail[0], strs, ms1);
    let msa = run_act(tail[0], strs, ms1);
    lemma_run_one(tail[1], strs, msa);
    assert(run(acts, strs, ms0).out =~= ms0.out + eval_stmts(stmts, 0, Map::empty()).out);
    assert(ms0.out + eval_stmts(stmts, 0, Map::empty()).out =~= eval_stmts(
        stmts,
        0,
        Map::empty(),
    ).out);
}

} // verus!
