//! The code-generation engine.
//!
//! `Handler` translates IR statements into the action program that
//! `trans::spec_build_program` specifies, and is proved to produce exactly
//! that sequence. `Compiler` owns one compilation session: it emits the
//! action program through the trusted backend wrappers — the request log
//! handed to cranelift is proved equal to the action program, index
//! renaming aside — then finalizes the module into executable memory.

use vstd::prelude::*;
use crate::acts::{Act, TAct, TyCode, BinOpc, IntCond, FloatCond};
use crate::ir::{BinOp, IrType, Literal, IrValue, Expr, Stmt};
use crate::trans::{
    BSt, ExprOut, StmtOut, inc, no_slot, env_find, env_slot, ty_code, op_code, blob_of,
    fmt_int_blob, fmt_float_blob, spec_build_expr, spec_build_value, spec_build_stmt,
    spec_build_stmts, spec_build_program,
};

verus! {

/// A vector of bytes views deeply to the same sequence it views shallowly.
proof fn lemma_bytes_deep_view(v: Vec<u8>)
    ensures
        v.deep_view() =~= v@,
{
}

/// Deep views commute with appending one element.
proof fn lemma_strs_push(v1: Vec<Vec<u8>>, v2: Vec<Vec<u8>>, x: Vec<u8>)
    requires
        v2@ == v1@.push(x),
    ensures
        v2.deep_view() =~= v1.deep_view().push(x@),
{
    assert forall|i: int| 0 <= i < v2.deep_view().len() implies v2.deep_view()[i]
        == v1.deep_view().push(x@)[i] by {
        if i < v1@.len() {
            assert(v2@[i] == v1@[i]);
        } else {
            assert(v2@[i] == x);
            lemma_bytes_deep_view(x);
        }
    }
}

/// The bytes of the integer print path's format blob.
fn fmt_int_bytes() -> (v: Vec<u8>)
    ensures
        v@ == fmt_int_blob(),
{
    let mut v: Vec<u8> = Vec::new();
    v.push(37);
    v.push(100);
    v.push(10);
    v.push(0);
    assert(v@ =~= fmt_int_blob());
    v
}

/// The bytes of the float print path's format blob.
fn fmt_float_bytes() -> (v: Vec<u8>)
    ensures
        v@ == fmt_float_blob(),
{
    let mut v: Vec<u8> = Vec::new();
    v.push(37);
    v.push(102);
    v.push(10);
    v.push(0);
    assert(v@ =~= fmt_float_blob());
    v
}

/// The executable form of `ty_code`.
fn ty_code_of(t: IrType) -> (r: TyCode)
    ensures
        r == ty_code(t),
{
    match t {
        IrType::Int => TyCode::I64,
        IrType::Float => TyCode::F64,
        IrType::Str => TyCode::I64,
        IrType::Bool => TyCode::I8,
    }
}

/// The executable form of `op_code`.
fn op_code_of(op: BinOp, float: bool) -> (r: BinOpc)
    ensures
        r == op_code(op, float),
{
    if float {
        match op {
            BinOp::Add => BinOpc::FAdd,
            BinOp::Sub => BinOpc::FSub,
            BinOp::Mul => BinOpc::FMul,
            BinOp::Div => BinOpc::FDiv,
            BinOp::Eq => BinOpc::FCmp(FloatCond::Eq),
            BinOp::Neq => BinOpc::FCmp(FloatCond::Ne),
            BinOp::Gt => BinOpc::FCmp(FloatCond::Gt),
            BinOp::Lt => BinOpc::FCmp(FloatCond::Lt),
            BinOp::Ge => BinOpc::FCmp(FloatCond::Ge),
            BinOp::Le => BinOpc::FCmp(FloatCond::Le),
        }
    } else {
        match op {
            BinOp::Add => BinOpc::IAdd,
            BinOp::Sub => BinOpc::ISub,
            BinOp::Mul => BinOpc::IMul,
            BinOp::Div => BinOpc::UDiv,
            BinOp::Eq => BinOpc::ICmp(IntCond::Eq),
            BinOp::Neq => BinOpc::ICmp(IntCond::Ne),
            BinOp::Gt => BinOpc::ICmp(IntCond::Sgt),
            BinOp::Lt => BinOpc::ICmp(IntCond::Slt),
            BinOp::Ge => BinOpc::ICmp(IntCond::Sge),
            BinOp::Le => BinOpc::ICmp(IntCond::Sle),
        }
    }
}

/// The statement translator: walks IR statements and accumulates the
/// action program and its string-blob table.
pub struct Handler {
    pub acts: Vec<Act>,
    pub strs: Vec<Vec<u8>>,
    pub nv: u64,
    pub nb: u64,
    pub nvar: u64,
    pub env: Vec<(String, u64)>,
}

impl Handler {
    /// The translation state this translator is in.
    pub closed spec fn st(self) -> BSt {
        BSt {
            nv: self.nv,
            nb: self.nb,
            nvar: self.nvar,
            env: self.env@.map_values(|p: (String, u64)| (p.0@, p.1)),
            strs: self.strs.deep_view(),
        }
    }

    pub fn new() -> (r: Handler)
        ensures
            r.st() == BSt::init(),
            r.acts@ == Seq::<Act>::empty(),
    {
        let r = Handler {
            acts: Vec::new(),
            strs: Vec::new(),
            nv: 0,
            nb: 0,
            nvar: 0,
            env: Vec::new(),
        };
        proof {
            assert(r.st().env =~= BSt::init().env);
            assert(r.st().strs =~= BSt::init().strs);
            assert(r.st() =~= BSt::init());
        }
        r
    }

    /// The slot bound to a name, later bindings shadowing earlier ones;
    /// the sentinel when the name is unbound.
    fn lookup_slot(&self, name: &String) -> (r: u64)
        ensures
            r == env_slot(self.st().env, name@),
    {
        let ghost genv = self.st().env;
        let mut i: usize = self.env.len();
        assert(genv.take(i as int) =~= genv);
        while i > 0
            invariant
                i <= self.env.len(),
                genv == self.st().env,
                genv.len() == self.env.len(),
                env_find(genv, name@) == env_find(genv.take(i as int), name@),
            decreases i,
        {
            i = i - 1;
            if self.env[i].0 == *name {
                assert(genv.take(i + 1).last() == genv[i as int]);
                assert(genv[i as int].0 == name@);
                return self.env[i].1;
            }
            proof {
                assert(genv.take(i + 1).last() == genv[i as int]);
                assert(genv[i as int].0 != name@);
                assert(genv.take(i + 1).drop_last() =~= genv.take(i as int));
            }
        }
        assert(genv.take(0) =~= Seq::<(Seq<char>, u64)>::empty());
        0xffff_ffff_ffff_ffffu64
    }

    /// Translates one expression, appending its actions and returning the
    /// index of its result value.
    pub fn translate_expr(&mut self, e: &Expr) -> (v: u64)
        ensures
            ({
                let o = spec_build_expr(*e, old(self).st());
                final(self).st() == o.st && final(self).acts@ == old(self).acts@ + o.acts
                    && v == o.val
            }),
        decreases *e, 0nat,
    {
        let ghost o = spec_build_expr(*e, self.st());
        match e {
            Expr::GetVar(name) => {
                let slot = self.lookup_slot(name);
                let v = self.nv;
                self.acts.push(Act::UseVar(slot, v));
                self.nv = self.nv.wrapping_add(1);
                proof {
                    assert(self.st().env =~= o.st.env);
                    assert(self.st().strs =~= o.st.strs);
                    assert(self.st() =~= o.st);
                    assert(self.acts@ =~= old(self).acts@ + o.acts);
                }
                v
            },
            Expr::Value(val, ty) => {
                let v = self.translate_value(val, *ty);
                v
            },
            Expr::PrintStr(a) => {
                let av = self.translate_expr(&**a);
                let v = self.nv;
                self.acts.push(Act::CallPuts(av, v));
                self.nv = self.nv.wrapping_add(1);
                proof {
                    assert(self.st().env =~= o.st.env);
                    assert(self.st().strs =~= o.st.strs);
                    assert(self.st() =~= o.st);
                    assert(self.acts@ =~= old(self).acts@ + o.acts);
                }
                v
            },
            Expr::PrintInt(a) => {
                let fmt = self.nv;
                let sid = self.strs.len() as u64;
                self.acts.push(Act::StrData(sid, fmt));
                self.nv = self.nv.wrapping_add(1);
                let blob = fmt_int_bytes();
                self.strs.push(blob);
                proof {
                    let st1 = BSt {
                        nv: inc(old(self).st().nv),
                        strs: old(self).st().strs.push(fmt_int_blob()),
                        ..old(self).st()
                    };
                    lemma_strs_push(old(self).strs, self.strs, blob);
                    assert(self.st().strs =~= st1.strs);
                    assert(self.st() =~= st1);
                }
                let av = self.translate_expr(&**a);
                let v = self.nv;
                self.acts.push(Act::CallPrintfInt(fmt, av, v));
                self.nv = self.nv.wrapping_add(1);
                proof {
                    assert(self.st().env =~= o.st.env);
                    assert(self.st().strs =~= o.st.strs);
                    assert(self.st() =~= o.st);
                    assert(self.acts@ =~= old(self).acts@ + o.acts);
                }
                v
            },
            Expr::PrintFloat(a) => {
                let fmt = self.nv;
                let sid = self.strs.len() as u64;
                self.acts.push(Act::StrData(sid, fmt));
                self.nv = self.nv.wrapping_add(1);
                let blob = fmt_float_bytes();
                self.strs.push(blob);
                proof {
                    let st1 = BSt {
                        nv: inc(old(self).st().nv),
                        strs: old(self).st().strs.push(fmt_float_blob()),
                        ..old(self).st()
                    };
                    lemma_strs_push(old(self).strs, self.strs, blob);
                    assert(self.st().strs =~= st1.strs);
                    assert(self.st() =~= st1);
                }
                let av = self.translate_expr(&**a);
                let v = self.nv;
                self.acts.push(Act::CallPrintfFloat(fmt, av, v));
                self.nv = self.nv.wrapping_add(1);
                proof {
                    assert(self.st().env =~= o.st.env);
                    assert(self.st().strs =~= o.st.strs);
                    assert(self.st() =~= o.st);
                    assert(self.acts@ =~= old(self).acts@ + o.acts);
                }
                v
            },
        }
    }

    /// Translates one value-producing node of the given type.
    pub fn translate_value(&mut self, val: &IrValue, ty: IrType) -> (v: u64)
        ensures
            ({
                let o = spec_build_value(*val, ty, old(self).st());
                final(self).st() == o.st && final(self).acts@ == old(self).acts@ + o.acts
                    && v == o.val
            }),
        decreases *val, 1nat,
    {
        let ghost o = spec_build_value(*val, ty, self.st());
        match val {
            IrValue::Literal(l) => {
                let v = self.nv;
                match l {
                    Literal::Int(i) => {
                        self.acts.push(Act::IConst(ty_code_of(ty), *i, v));
                    },
                    Literal::Bool(b) => {
                        self.acts.push(Act::IConst(ty_code_of(ty), if *b { 1 } else { 0 }, v));
                    },
                    Literal::Float(bits) => {
                        self.acts.push(Act::F64Const(*bits, v));
                    },
                    Literal::Str(s) => {
                        let sid = self.strs.len() as u64;
                        self.acts.push(Act::StrData(sid, v));
                        let mut blob = s.as_str().as_bytes_vec();
                        blob.push(0);
                        proof {
                            assert(blob@ =~= blob_of(s@));
                        }
                        let ghost pre = self.strs;
                        self.strs.push(blob);
                        proof {
                            lemma_strs_push(pre, self.strs, blob);
                        }
                    },
                }
                self.nv = self.nv.wrapping_add(1);
                proof {
                    assert(self.st().env =~= o.st.env);
                    assert(self.st().strs =~= o.st.strs);
                    assert(self.st() =~= o.st);
                    assert(self.acts@ =~= old(self).acts@ + o.acts);
                }
                v
            },
            IrValue::Binary(l, op, r) => {
                let lv = self.translate_expr(&**l);
                let rv = self.translate_expr(&**r);
                let v = self.nv;
                let fl = matches!(ty, IrType::Float);
                self.acts.push(Act::Bin(op_code_of(*op, fl), lv, rv, v));
                self.nv = self.nv.wrapping_add(1);
                proof {
                    assert(self.st().env =~= o.st.env);
                    assert(self.st().strs =~= o.st.strs);
                    assert(self.st() =~= o.st);
                    assert(self.acts@ =~= old(self).acts@ + o.acts);
                }
                v
            },
        }
    }
}

impl Handler {
    /// Translates one statement, appending its actions and returning the
    /// value the statement leaves for an enclosing conditional arm.
    pub fn translate_stmt(&mut self, s: &Stmt) -> (v: u64)
        ensures
            ({
                let o = spec_build_stmt(*s, old(self).st());
                final(self).st() == o.st && final(self).acts@ == old(self).acts@ + o.acts
                    && v == o.val
            }),
        decreases *s, 0nat,
    {
        let ghost o = spec_build_stmt(*s, self.st());
        match s {
            Stmt::ExprStmt(e) => {
                let _ev = self.translate_expr(e);
                let v = self.nv;
                self.acts.push(Act::IConst(TyCode::I64, 0, v));
                self.nv = self.nv.wrapping_add(1);
                proof {
                    assert(self.st() =~= o.st);
                    assert(self.acts@ =~= old(self).acts@ + o.acts);
                }
                v
            },
            Stmt::SetVar(name, e) => {
                let ev = self.translate_expr(e);
                let slot = self.lookup_slot(name);
                self.acts.push(Act::DefVar(slot, ev));
                let v = self.nv;
                self.acts.push(Act::IConst(TyCode::I64, 0, v));
                self.nv = self.nv.wrapping_add(1);
                proof {
                    assert(self.st() =~= o.st);
                    assert(self.acts@ =~= old(self).acts@ + o.acts);
                }
                v
            },
            Stmt::Var(name, e, ty) => {
                let ev = self.translate_expr(e);
                let slot = self.nvar;
                self.acts.push(Act::DeclareVar(ty_code_of(*ty), slot));
                self.acts.push(Act::DefVar(slot, ev));
                let v = self.nv;
                self.acts.push(Act::IConst(TyCode::I64, 0, v));
                self.nv = self.nv.wrapping_add(1);
                self.nvar = self.nvar.wrapping_add(1);
                self.env.push((name.clone(), slot));
                proof {
                    assert(self.st().env =~= o.st.env);
                    assert(self.st() =~= o.st);
                    assert(self.acts@ =~= old(self).acts@ + o.acts);
                }
                v
            },
            Stmt::If(cond, then_body, else_body) => {
                proof {
                    assert(*s == Stmt::If(*cond, *then_body, *else_body));
                }
                let cv = self.translate_expr(cond);
                let tb = self.nb;
                self.nb = self.nb.wrapping_add(1);
                let eb = self.nb;
                self.nb = self.nb.wrapping_add(1);
                let mb = self.nb;
                self.nb = self.nb.wrapping_add(1);
                self.acts.push(Act::CreateBlock(tb));
                self.acts.push(Act::CreateBlock(eb));
                self.acts.push(Act::CreateBlock(mb));
                let phi = self.nv;
                self.acts.push(Act::BlockParam(mb, TyCode::I64, phi));
                self.nv = self.nv.wrapping_add(1);
                self.acts.push(Act::Brif(cv, tb, eb));
                self.acts.push(Act::SwitchTo(tb));
                self.acts.push(Act::Seal(tb));
                let tz = self.nv;
                self.acts.push(Act::IConst(TyCode::I64, 0, tz));
                self.nv = self.nv.wrapping_add(1);

                let mut last = tz;
                let ghost st_t = self.st();
                let ghost acts_t = self.acts@;
                let ghost t_target = spec_build_stmts(then_body@, 0, st_t, tz);
                let mut k: usize = 0;
                while k < then_body.len()
                    invariant
                        k <= then_body.len(),
                        acts_t.len() <= self.acts@.len(),
                        acts_t == self.acts@.take(acts_t.len() as int),
                        t_target == spec_build_stmts(then_body@, 0, st_t, tz),
                        t_target.acts =~= self.acts@.skip(acts_t.len() as int)
                            + spec_build_stmts(then_body@, k as int, self.st(), last).acts,
                        t_target.st == spec_build_stmts(then_body@, k as int, self.st(), last).st,
                        t_target.val == spec_build_stmts(
                            then_body@, k as int, self.st(), last,
                        ).val,
                        *s == Stmt::If(*cond, *then_body, *else_body),
                    decreases then_body.len() - k,
                {
                    let ghost pre = *self;
                    proof {
                        let sv = *s;
                        match sv {
                            Stmt::If(_gc, gtbv, _gebv) => {
                                assert(decreases_to!(sv => gtbv));
                                assert(decreases_to!(gtbv => gtbv@));
                                assert(decreases_to!(gtbv@ => gtbv@[k as int]));
                                assert(gtbv@ == then_body@);
                            },
                            _ => {},
                        }
                        assert(decreases_to!(*s => then_body@[k as int]));
                    }
                    last = self.translate_stmt(&then_body[k]);
                    k = k + 1;
                    proof {
                        assert(acts_t =~= self.acts@.take(acts_t.len() as int));
                        assert(self.acts@.skip(acts_t.len() as int) =~= pre.acts@.skip(
                            acts_t.len() as int,
                        ) + spec_build_stmt(then_body@[k - 1], pre.st()).acts);
                        assert(t_target.acts =~= self.acts@.skip(acts_t.len() as int)
                            + spec_build_stmts(then_body@, k as int, self.st(), last).acts);
                    }
                }
                proof {
                    assert(spec_build_stmts(then_body@, then_body@.len() as int, self.st(), last)
                        .acts =~= Seq::<Act>::empty());
                    assert(t_target.acts =~= self.acts@.skip(acts_t.len() as int));
                    assert(t_target.st == self.st());
                    assert(t_target.val == last);
                }
                self.acts.push(Act::Jump1(mb, last));
                self.acts.push(Act::SwitchTo(eb));
                self.acts.push(Act::Seal(eb));
                let ez = self.nv;
                self.acts.push(Act::IConst(TyCode::I64, 0, ez));
                self.nv = self.nv.wrapping_add(1);

                let mut last2 = ez;
                let ghost st_e = self.st();
                let ghost acts_e = self.acts@;
                let ghost e_target = spec_build_stmts(else_body@, 0, st_e, ez);
                let mut k2: usize = 0;
                while k2 < else_body.len()
                    invariant
                        k2 <= else_body.len(),
                        acts_e.len() <= self.acts@.len(),
                        acts_e == self.acts@.take(acts_e.len() as int),
                        e_target == spec_build_stmts(else_body@, 0, st_e, ez),
                        e_target.acts =~= self.acts@.skip(acts_e.len() as int)
                            + spec_build_stmts(else_body@, k2 as int, self.st(), last2).acts,
                        e_target.st == spec_build_stmts(else_body@, k2 as int, self.st(), last2).st,
                        e_target.val == spec_build_stmts(
                            else_body@, k2 as int, self.st(), last2,
                        ).val,
                        *s == Stmt::If(*cond, *then_body, *else_body),
                    decreases else_body.len() - k2,
                {
                    let ghost pre = *self;
                    proof {
                        let sv = *s;
                        match sv {
                            Stmt::If(_gc, _gtbv, gebv) => {
                                assert(decreases_to!(sv => gebv));
                                assert(decreases_to!(gebv => gebv@));
                                assert(decreases_to!(gebv@ => gebv@[k2 as int]));
                                assert(gebv@ == else_body@);
                            },
                            _ => {},
                        }
                        assert(decreases_to!(*s => else_body@[k2 as int]));
                    }
                    last2 = self.translate_stmt(&else_body[k2]);
                    k2 = k2 + 1;
                    proof {
                        assert(acts_e =~= self.acts@.take(acts_e.len() as int));
                        assert(self.acts@.skip(acts_e.len() as int) =~= pre.acts@.skip(
                            acts_e.len() as int,
                        ) + spec_build_stmt(else_body@[k2 - 1], pre.st()).acts);
                        assert(e_target.acts =~= self.acts@.skip(acts_e.len() as int)
                            + spec_build_stmts(else_body@, k2 as int, self.st(), last2).acts);
                    }
                }
                proof {
                    assert(spec_build_stmts(else_body@, else_body@.len() as int, self.st(), last2)
                        .acts =~= Seq::<Act>::empty());
                    assert(e_target.acts =~= self.acts@.skip(acts_e.len() as int));
                    assert(e_target.st == self.st());
                    assert(e_target.val == last2);
                }
                self.acts.push(Act::Jump1(mb, last2));
                self.acts.push(Act::SwitchTo(mb));
                self.acts.push(Act::Seal(mb));
                proof {
                    let co = spec_build_expr(*cond, old(self).st());
                    let gtb = co.st.nb;
                    let geb = inc(co.st.nb);
                    let gmb = inc(inc(co.st.nb));
                    let gphi = co.st.nv;
                    let st1 = BSt { nb: inc(gmb), nv: inc(gphi), ..co.st };
                    let gtz = st1.nv;
                    let st2 = BSt { nv: inc(st1.nv), ..st1 };
                    let to = spec_build_stmts(then_body@, 0, st2, gtz);
                    let gez = to.st.nv;
                    let st3 = BSt { nv: inc(to.st.nv), ..to.st };
                    let eo = spec_build_stmts(else_body@, 0, st3, gez);
                    assert(st_t =~= st2);
                    assert(t_target == to);
                    assert(st_e =~= st3);
                    assert(e_target == eo);
                    assert(acts_t =~= old(self).acts@ + co.acts + seq![
                        Act::CreateBlock(gtb),
                        Act::CreateBlock(geb),
                        Act::CreateBlock(gmb),
                        Act::BlockParam(gmb, TyCode::I64, gphi),
                        Act::Brif(co.val, gtb, geb),
                        Act::SwitchTo(gtb),
                        Act::Seal(gtb),
                        Act::IConst(TyCode::I64, 0, gtz),
                    ]);
                    assert(acts_e =~= acts_t + to.acts + seq![
                        Act::Jump1(gmb, t_target.val),
                        Act::SwitchTo(geb),
                        Act::Seal(geb),
                        Act::IConst(TyCode::I64, 0, gez),
                    ]);
                    assert(self.acts@ =~= acts_e + eo.acts + seq![
                        Act::Jump1(gmb, e_target.val),
                        Act::SwitchTo(gmb),
                        Act::Seal(gmb),
                    ]);
                    assert(self.st() =~= o.st);
                    assert(self.acts@ =~= old(self).acts@ + o.acts);
                }
                phi
            },
        }
    }

    /// Translates a whole program: entry-block setup, the statements in
    /// program order, and the final zero-word return.
    pub fn translate(&mut self, stmts: &Vec<Stmt>) -> (r: ())
        requires
            old(self).st() == BSt::init(),
            old(self).acts@ == Seq::<Act>::empty(),
        ensures
            final(self).acts@ == spec_build_program(stmts@).0,
            final(self).st().strs == spec_build_program(stmts@).1,
    {
        let b0 = self.nb;
        self.nb = self.nb.wrapping_add(1);
        self.acts.push(Act::CreateBlock(b0));
        self.acts.push(Act::FuncParams(b0));
        self.acts.push(Act::SwitchTo(b0));
        self.acts.push(Act::Seal(b0));

        let mut last: u64 = 0;
        let ghost st_t = self.st();
        let ghost acts_t = self.acts@;
        let ghost t_target = spec_build_stmts(stmts@, 0, st_t, 0);
        let mut k: usize = 0;
        proof {
            assert(st_t =~= BSt { nb: 1, ..BSt::init() });
        }
        while k < stmts.len()
            invariant
                k <= stmts.len(),
                acts_t.len() <= self.acts@.len(),
                acts_t == self.acts@.take(acts_t.len() as int),
                t_target == spec_build_stmts(stmts@, 0, st_t, 0),
                t_target.acts =~= self.acts@.skip(acts_t.len() as int)
                    + spec_build_stmts(stmts@, k as int, self.st(), last).acts,
                t_target.st == spec_build_stmts(stmts@, k as int, self.st(), last).st,
                t_target.val == spec_build_stmts(stmts@, k as int, self.st(), last).val,
            decreases stmts.len() - k,
        {
            let ghost pre = *self;
            last = self.translate_stmt(&stmts[k]);
            k = k + 1;
            proof {
                assert(acts_t =~= self.acts@.take(acts_t.len() as int));
                assert(self.acts@.skip(acts_t.len() as int) =~= pre.acts@.skip(
                    acts_t.len() as int,
                ) + spec_build_stmt(stmts@[k - 1], pre.st()).acts);
                assert(t_target.acts =~= self.acts@.skip(acts_t.len() as int)
                    + spec_build_stmts(stmts@, k as int, self.st(), last).acts);
            }
        }
        proof {
            assert(spec_build_stmts(stmts@, stmts@.len() as int, self.st(), last).acts
                =~= Seq::<Act>::empty());
            assert(t_target.acts =~= self.acts@.skip(acts_t.len() as int));
            assert(t_target.st == self.st());
        }
        let z = self.nv;
        self.acts.push(Act::IConst(TyCode::I64, 0, z));
        self.nv = self.nv.wrapping_add(1);
        self.acts.push(Act::Ret(z));
        proof {
            assert(acts_t =~= seq![
                Act::CreateBlock(0),
                Act::FuncParams(0),
                Act::SwitchTo(0),
                Act::Seal(0),
            ]);
            let st1 = BSt { nb: 1, ..BSt::init() };
            assert(st_t =~= st1);
            let body = spec_build_stmts(stmts@, 0, st1, 0);
            assert(body == t_target);
            assert(z == body.st.nv);
            assert(self.acts@ =~= acts_t + body.acts + seq![
                Act::IConst(TyCode::I64, 0, z),
                Act::Ret(z),
            ]);
            assert(self.acts@ =~= spec_build_program(stmts@).0);
        }
    }
}

/// How many values, blocks and storage slots an action defines.
pub open spec fn act_vdef(a: Act) -> int {
    match a {
        Act::BlockParam(_, _, _) => 1,
        Act::UseVar(_, _) => 1,
        Act::IConst(_, _, _) => 1,
        Act::F64Const(_, _) => 1,
        Act::StrData(_, _) => 1,
        Act::Bin(_, _, _, _) => 1,
        Act::CallPuts(_, _) => 1,
        Act::CallPrintfInt(_, _, _) => 1,
        Act::CallPrintfFloat(_, _, _) => 1,
        _ => 0,
    }
}

pub open spec fn act_bdef(a: Act) -> int {
    match a {
        Act::CreateBlock(_) => 1,
        _ => 0,
    }
}

pub open spec fn act_vardef(a: Act) -> int {
    match a {
        Act::DeclareVar(_, _) => 1,
        _ => 0,
    }
}

/// The number of values defined by a whole action sequence.
pub open spec fn vcnt(s: Seq<Act>) -> int
    decreases s.len(),
{
    if s.len() == 0 {
        0
    } else {
        vcnt(s.drop_last()) + act_vdef(s.last())
    }
}

pub open spec fn bcnt(s: Seq<Act>) -> int
    decreases s.len(),
{
    if s.len() == 0 {
        0
    } else {
        bcnt(s.drop_last()) + act_bdef(s.last())
    }
}

pub open spec fn varcnt(s: Seq<Act>) -> int
    decreases s.len(),
{
    if s.len() == 0 {
        0
    } else {
        varcnt(s.drop_last()) + act_vardef(s.last())
    }
}

/// An action is consistent with the indices defined before it: every
/// index it reads was defined earlier, every index it defines is the next
/// dense one, and an integer immediate never carries the float type code.
pub open spec fn act_ok(a: Act, vs: int, bs: int, vars: int) -> bool {
    match a {
        Act::CreateBlock(b) => b == bs,
        Act::FuncParams(b) => b < bs,
        Act::SwitchTo(b) => b < bs,
        Act::Seal(b) => b < bs,
        Act::BlockParam(b, _, v) => b < bs && v == vs,
        Act::DeclareVar(_, var) => var == vars,
        Act::DefVar(var, v) => var < vars && v < vs,
        Act::UseVar(var, v) => var < vars && v == vs,
        Act::IConst(ty, _, v) => v == vs && ty != TyCode::F64,
        Act::F64Const(_, v) => v == vs,
        Act::StrData(_, v) => v == vs,
        Act::Bin(_, l, r, v) => l < vs && r < vs && v == vs,
        Act::Brif(c, t, e) => c < vs && t < bs && e < bs,
        Act::Jump0(b) => b < bs,
        Act::Jump1(b, arg) => b < bs && arg < vs,
        Act::CallPuts(arg, v) => arg < vs && v == vs,
        Act::CallPrintfInt(f, arg, v) => f < vs && arg < vs && v == vs,
        Act::CallPrintfFloat(f, arg, v) => f < vs && arg < vs && v == vs,
        Act::Ret(v) => v < vs,
    }
}

/// Every action of the sequence is consistent with what was defined
/// before it.
pub open spec fn acts_ok(s: Seq<Act>) -> bool {
    forall|j: int|
        0 <= j < s.len() ==> act_ok(
            #[trigger] s[j],
            vcnt(s.take(j)),
            bcnt(s.take(j)),
            varcnt(s.take(j)),
        )
}

/// One action, reindexed through the tables that map the library's dense
/// indices to the code generator's own.
pub open spec fn tact_of(
    a: Act,
    strs: Seq<Seq<u8>>,
    vt: Seq<u32>,
    bt: Seq<u32>,
    vart: Seq<u32>,
) -> TAct {
    match a {
        Act::CreateBlock(b) => TAct::CreateBlock(bt[b as int]),
        Act::FuncParams(b) => TAct::FuncParams(bt[b as int]),
        Act::SwitchTo(b) => TAct::SwitchTo(bt[b as int]),
        Act::Seal(b) => TAct::Seal(bt[b as int]),
        Act::BlockParam(b, ty, v) => TAct::BlockParam(bt[b as int], ty, vt[v as int]),
        Act::DeclareVar(ty, var) => TAct::DeclareVar(ty, vart[var as int]),
        Act::DefVar(var, v) => TAct::DefVar(vart[var as int], vt[v as int]),
        Act::UseVar(var, v) => TAct::UseVar(vart[var as int], vt[v as int]),
        Act::IConst(ty, imm, v) => TAct::IConst(ty, imm, vt[v as int]),
        Act::F64Const(bits, v) => TAct::F64Const(bits, vt[v as int]),
        Act::StrData(sid, v) => TAct::StrBytes(strs[sid as int], vt[v as int]),
        Act::Bin(opc, l, r, v) => TAct::Bin(opc, vt[l as int], vt[r as int], vt[v as int]),
        Act::Brif(c, t, e) => TAct::Brif(vt[c as int], bt[t as int], bt[e as int]),
        Act::Jump0(b) => TAct::Jump0(bt[b as int]),
        Act::Jump1(b, arg) => TAct::Jump1(bt[b as int], vt[arg as int]),
        Act::CallPuts(arg, v) => TAct::CallPuts(vt[arg as int], vt[v as int]),
        Act::CallPrintfInt(f, arg, v) => TAct::CallPrintfInt(
            vt[f as int],
            vt[arg as int],
            vt[v as int],
        ),
        Act::CallPrintfFloat(f, arg, v) => TAct::CallPrintfFloat(
            vt[f as int],
            vt[arg as int],
            vt[v as int],
        ),
        Act::Ret(v) => TAct::Ret(vt[v as int]),
    }
}

/// A whole action sequence, reindexed through the tables.
pub open spec fn tact_map(
    s: Seq<Act>,
    strs: Seq<Seq<u8>>,
    vt: Seq<u32>,
    bt: Seq<u32>,
    vart: Seq<u32>,
) -> Seq<TAct> {
    Seq::new(s.len(), |i: int| tact_of(s[i], strs, vt, bt, vart))
}

/// Appending one request to the log keeps a block open exactly when the
/// request is a switch, closes it on a terminator, and otherwise changes
/// nothing.
proof fn lemma_trace_open_push(t: Seq<TAct>, a: TAct)
    ensures
        crate::backend::trace_open(t.push(a)) == match a {
            TAct::SwitchTo(_) => true,
            TAct::Brif(_, _, _) => false,
            TAct::Jump0(_) => false,
            TAct::Jump1(_, _) => false,
            TAct::Ret(_) => false,
            _ => crate::backend::trace_open(t),
        },
{
    assert(t.push(a).last() == a);
    assert(t.push(a).drop_last() =~= t);
}

/// Defined-index counts only grow along a prefix.
proof fn lemma_cnt_mono(s: Seq<Act>, j1: int, j2: int)
    requires
        0 <= j1 <= j2 <= s.len(),
    ensures
        vcnt(s.take(j1)) <= vcnt(s.take(j2)),
        bcnt(s.take(j1)) <= bcnt(s.take(j2)),
        varcnt(s.take(j1)) <= varcnt(s.take(j2)),
        vcnt(s.take(j2)) <= vcnt(s),
        bcnt(s.take(j2)) <= bcnt(s),
        varcnt(s.take(j2)) <= varcnt(s),
    decreases j2 - j1,
{
    if j1 < j2 {
        lemma_cnt_take_succ(s, j1);
        lemma_cnt_mono(s, j1 + 1, j2);
    }
    lemma_cnt_mono_full(s, j2);
}

/// The count over a prefix never exceeds the count over the whole.
proof fn lemma_cnt_mono_full(s: Seq<Act>, j: int)
    requires
        0 <= j <= s.len(),
    ensures
        vcnt(s.take(j)) <= vcnt(s),
        bcnt(s.take(j)) <= bcnt(s),
        varcnt(s.take(j)) <= varcnt(s),
    decreases s.len() - j,
{
    if j == s.len() {
        assert(s.take(j) =~= s);
    } else {
        lemma_cnt_take_succ(s, j);
        lemma_cnt_mono_full(s, j + 1);
    }
}

/// The count after one more action grows by what that action defines.
proof fn lemma_cnt_take_succ(s: Seq<Act>, j: int)
    requires
        0 <= j < s.len(),
    ensures
        vcnt(s.take(j + 1)) == vcnt(s.take(j)) + act_vdef(s[j]),
        bcnt(s.take(j + 1)) == bcnt(s.take(j)) + act_bdef(s[j]),
        varcnt(s.take(j + 1)) == varcnt(s.take(j)) + act_vardef(s[j]),
{
    assert(s.take(j + 1).drop_last() =~= s.take(j));
    assert(s.take(j + 1).last() == s[j]);
}

/// Reindexing of one action is unchanged by growing the tables, as long
/// as they already cover its operands and its result.
#[verifier::spinoff_prover]
#[verifier::rlimit(100)]
proof fn lemma_tact_of_stable(
    a: Act,
    strs: Seq<Seq<u8>>,
    vt1: Seq<u32>,
    bt1: Seq<u32>,
    vart1: Seq<u32>,
    vt2: Seq<u32>,
    bt2: Seq<u32>,
    vart2: Seq<u32>,
    vs: int,
    bs: int,
    vars: int,
)
    requires
        act_ok(a, vs, bs, vars),
        vs + act_vdef(a) <= vt1.len(),
        bs + act_bdef(a) <= bt1.len(),
        vars + act_vardef(a) <= vart1.len(),
        forall|x: int| 0 <= x < vt1.len() ==> #[trigger] vt1[x] == vt2[x],
        forall|x: int| 0 <= x < bt1.len() ==> #[trigger] bt1[x] == bt2[x],
        forall|x: int| 0 <= x < vart1.len() ==> #[trigger] vart1[x] == vart2[x],
    ensures
        tact_of(a, strs, vt1, bt1, vart1) == tact_of(a, strs, vt2, bt2, vart2),
{
}

/// Reindexing is unchanged by growing the tables, as long as they already
/// cover everything the sequence defines.
#[verifier::spinoff_prover]
#[verifier::rlimit(100)]
proof fn lemma_tact_map_grow(
    s: Seq<Act>,
    strs: Seq<Seq<u8>>,
    vt1: Seq<u32>,
    bt1: Seq<u32>,
    vart1: Seq<u32>,
    vt2: Seq<u32>,
    bt2: Seq<u32>,
    vart2: Seq<u32>,
)
    requires
        forall|j: int|
            0 <= j < s.len() ==> act_ok(
                #[trigger] s[j],
                vcnt(s.take(j)),
                bcnt(s.take(j)),
                varcnt(s.take(j)),
            ),
        vcnt(s) <= vt1.len(),
        bcnt(s) <= bt1.len(),
        varcnt(s) <= vart1.len(),
        vt1.is_prefix_of(vt2),
        bt1.is_prefix_of(bt2),
        vart1.is_prefix_of(vart2),
    ensures
        tact_map(s, strs, vt1, bt1, vart1) == tact_map(s, strs, vt2, bt2, vart2),
{
    assert forall|x: int| 0 <= x < vt1.len() implies vt1[x] == vt2[x] by {
        assert(vt2.take(vt1.len() as int) =~= vt1);
    }
    assert forall|x: int| 0 <= x < bt1.len() implies bt1[x] == bt2[x] by {
        assert(bt2.take(bt1.len() as int) =~= bt1);
    }
    assert forall|x: int| 0 <= x < vart1.len() implies vart1[x] == vart2[x] by {
        assert(vart2.take(vart1.len() as int) =~= vart1);
    }
    assert forall|j: int| 0 <= j < s.len() implies tact_of(s[j], strs, vt1, bt1, vart1)
        == tact_of(s[j], strs, vt2, bt2, vart2) by {
        lemma_cnt_mono(s, j, j);
        lemma_cnt_mono_full(s, j);
        lemma_cnt_take_succ(s, j);
        lemma_cnt_mono_full(s, j + 1);
        lemma_tact_of_stable(
            s[j],
            strs,
            vt1,
            bt1,
            vart1,
            vt2,
            bt2,
            vart2,
            vcnt(s.take(j)),
            bcnt(s.take(j)),
            varcnt(s.take(j)),
        );
    }
    assert(tact_map(s, strs, vt1, bt1, vart1) =~= tact_map(s, strs, vt2, bt2, vart2));
}

/// One step of emission: if the action at `i` is consistent with the
/// tables and exactly the entries it defines were appended, then the log
/// extended by that action's reindexing is the reindexing of one more
/// action, and earlier actions keep their reindexing.
#[verifier::spinoff_prover]
#[verifier::rlimit(100)]
proof fn lemma_emit_step(
    prog: Seq<Act>,
    i: int,
    strs: Seq<Seq<u8>>,
    vt1: Seq<u32>,
    bt1: Seq<u32>,
    vart1: Seq<u32>,
    vt2: Seq<u32>,
    bt2: Seq<u32>,
    vart2: Seq<u32>,
    tr: Seq<TAct>,
)
    requires
        0 <= i < prog.len(),
        forall|j: int|
            0 <= j < i ==> act_ok(
                #[trigger] prog[j],
                vcnt(prog.take(j)),
                bcnt(prog.take(j)),
                varcnt(prog.take(j)),
            ),
        act_ok(prog[i], vt1.len() as int, bt1.len() as int, vart1.len() as int),
        vt1.len() == vcnt(prog.take(i)),
        bt1.len() == bcnt(prog.take(i)),
        vart1.len() == varcnt(prog.take(i)),
        vt1.is_prefix_of(vt2),
        bt1.is_prefix_of(bt2),
        vart1.is_prefix_of(vart2),
        vt2.len() == vt1.len() + act_vdef(prog[i]),
        bt2.len() == bt1.len() + act_bdef(prog[i]),
        vart2.len() == vart1.len() + act_vardef(prog[i]),
        tr == tact_map(prog.take(i), strs, vt1, bt1, vart1),
    ensures
        forall|j: int|
            0 <= j < i + 1 ==> act_ok(
                #[trigger] prog[j],
                vcnt(prog.take(j)),
                bcnt(prog.take(j)),
                varcnt(prog.take(j)),
            ),
        vt2.len() == vcnt(prog.take(i + 1)),
        bt2.len() == bcnt(prog.take(i + 1)),
        vart2.len() == varcnt(prog.take(i + 1)),
        tr.push(tact_of(prog[i], strs, vt2, bt2, vart2)) == tact_map(
            prog.take(i + 1),
            strs,
            vt2,
            bt2,
            vart2,
        ),
{
    lemma_cnt_take_succ(prog, i);
    let sub = prog.take(i);
    assert forall|j: int|
        0 <= j < sub.len() implies act_ok(
            #[trigger] sub[j],
            vcnt(sub.take(j)),
            bcnt(sub.take(j)),
            varcnt(sub.take(j)),
        ) by {
        assert(sub.take(j) =~= prog.take(j));
        assert(sub[j] == prog[j]);
    }
    lemma_tact_map_grow(sub, strs, vt1, bt1, vart1, vt2, bt2, vart2);
    assert(tr.push(tact_of(prog[i], strs, vt2, bt2, vart2)) =~= tact_map(
        prog.take(i + 1),
        strs,
        vt2,
        bt2,
        vart2,
    ));
}

/// The builder-protocol state reached by appending one request is the
/// step of the state reached before it.
proof fn lemma_trace_st_push(t: Seq<TAct>, a: TAct)
    ensures
        crate::backend::trace_st(t.push(a)) == crate::backend::trace_st_step(
            crate::backend::trace_st(t),
            a,
        ),
{
    assert(t.push(a).last() == a);
    assert(t.push(a).drop_last() =~= t);
}

/// The emitter's running correspondence: its tables and status vectors
/// mirror the builder-protocol state of the request log. Every table
/// entry is a reference the log handed out, block references are
/// pairwise distinct and cover everything created, and the per-block
/// vectors record sealing, predecessors, instructions and termination
/// exactly.
pub open spec fn tables_ok(
    t: Seq<TAct>,
    vt: Seq<u32>,
    bt: Seq<u32>,
    vart: Seq<u32>,
    bstat: Seq<u8>,
    bsealed: Seq<bool>,
    bpred: Seq<bool>,
    has_cur: bool,
    curb: int,
) -> bool {
    let s = crate::backend::trace_st(t);
    &&& bstat.len() == bt.len()
    &&& bsealed.len() == bt.len()
    &&& bpred.len() == bt.len()
    &&& forall|j: int| 0 <= j < bstat.len() ==> #[trigger] bstat[j] <= 2
    &&& forall|j: int| 0 <= j < bt.len() ==> s.created.contains(#[trigger] bt[j])
    &&& forall|j1: int, j2: int|
        0 <= j1 < j2 < bt.len() ==> #[trigger] bt[j1] != #[trigger] bt[j2]
    &&& forall|j: int| 0 <= j < bt.len() ==> (s.sealed.contains(#[trigger] bt[j]) <==> bsealed[j])
    &&& forall|j: int| 0 <= j < bt.len() ==> (s.preded.contains(#[trigger] bt[j]) <==> bpred[j])
    &&& forall|j: int|
        0 <= j < bt.len() ==> (s.unpristine.contains(#[trigger] bt[j]) <==> bstat[j] != 0)
    &&& forall|j: int|
        0 <= j < bt.len() ==> (s.filled.contains(#[trigger] bt[j]) <==> bstat[j] == 2)
    &&& (has_cur ==> 0 <= curb < bt.len() && s.cur == Some(bt[curb]))
    &&& (!has_cur ==> s.cur is None)
    &&& forall|k: int| 0 <= k < vt.len() ==> s.vals.contains(#[trigger] vt[k])
    &&& forall|k: int| 0 <= k < vart.len() ==> s.vars.contains(#[trigger] vart[k])
    &&& forall|c: u32|
        #[trigger] s.created.contains(c) ==> exists|j: int| 0 <= j < bt.len() && bt[j] == c
    &&& forall|c: u32| #[trigger] s.sealed.contains(c) ==> s.created.contains(c)
    &&& forall|c: u32| #[trigger] s.preded.contains(c) ==> s.created.contains(c)
    &&& forall|c: u32| #[trigger] s.unpristine.contains(c) ==> s.created.contains(c)
    &&& forall|c: u32| #[trigger] s.filled.contains(c) ==> s.created.contains(c)
    &&& (s.cur matches Some(c) ==> s.created.contains(c))
}

/// The status vector after the current block received an instruction.
pub open spec fn touch_stat(bstat: Seq<u8>, curb: int) -> Seq<u8> {
    if 0 <= curb < bstat.len() && bstat[curb] == 0 {
        bstat.update(curb, 1u8)
    } else {
        bstat
    }
}

/// Creating a fresh block preserves the correspondence.
#[verifier::spinoff_prover]
#[verifier::rlimit(100)]
proof fn lemma_tables_create(
    t: Seq<TAct>,
    vt: Seq<u32>,
    bt: Seq<u32>,
    vart: Seq<u32>,
    bstat: Seq<u8>,
    bsealed: Seq<bool>,
    bpred: Seq<bool>,
    has_cur: bool,
    curb: int,
    nb: u32,
)
    requires
        tables_ok(t, vt, bt, vart, bstat, bsealed, bpred, has_cur, curb),
        !crate::backend::trace_st(t).created.contains(nb),
    ensures
        tables_ok(
            t.push(TAct::CreateBlock(nb)),
            vt,
            bt.push(nb),
            vart,
            bstat.push(0),
            bsealed.push(false),
            bpred.push(false),
            has_cur,
            curb,
        ),
{
    lemma_trace_st_push(t, TAct::CreateBlock(nb));
    let s2 = crate::backend::trace_st(t.push(TAct::CreateBlock(nb)));
    assert forall|c: u32| #[trigger] s2.created.contains(c) implies exists|j: int|
        0 <= j < bt.push(nb).len() && bt.push(nb)[j] == c by {
        if c == nb {
            assert(bt.push(nb)[bt.len() as int] == c);
        } else {
            let j = choose|j: int| 0 <= j < bt.len() && bt[j] == c;
            assert(bt.push(nb)[j] == c);
        }
    }
}

/// A value-defining instruction in the current block preserves the
/// correspondence.
#[verifier::spinoff_prover]
#[verifier::rlimit(100)]
proof fn lemma_tables_inst(
    t: Seq<TAct>,
    a: TAct,
    vt: Seq<u32>,
    bt: Seq<u32>,
    vart: Seq<u32>,
    bstat: Seq<u8>,
    bsealed: Seq<bool>,
    bpred: Seq<bool>,
    curb: int,
    nv: u32,
)
    requires
        tables_ok(t, vt, bt, vart, bstat, bsealed, bpred, true, curb),
        crate::backend::trace_st_step(crate::backend::trace_st(t), a) == (crate::backend::TraceSt {
            vals: crate::backend::trace_st(t).vals.insert(nv),
            ..crate::backend::trace_st(t).touch()
        }),
    ensures
        tables_ok(
            t.push(a),
            vt.push(nv),
            bt,
            vart,
            touch_stat(bstat, curb),
            bsealed,
            bpred,
            true,
            curb,
        ),
{
    lemma_trace_st_push(t, a);
}

/// A value-defining request that adds no instruction (a block parameter
/// or a slot read) preserves the correspondence.
#[verifier::spinoff_prover]
#[verifier::rlimit(100)]
proof fn lemma_tables_val(
    t: Seq<TAct>,
    a: TAct,
    vt: Seq<u32>,
    bt: Seq<u32>,
    vart: Seq<u32>,
    bstat: Seq<u8>,
    bsealed: Seq<bool>,
    bpred: Seq<bool>,
    has_cur: bool,
    curb: int,
    nv: u32,
)
    requires
        tables_ok(t, vt, bt, vart, bstat, bsealed, bpred, has_cur, curb),
        crate::backend::trace_st_step(crate::backend::trace_st(t), a) == (crate::backend::TraceSt {
            vals: crate::backend::trace_st(t).vals.insert(nv),
            ..crate::backend::trace_st(t)
        }),
    ensures
        tables_ok(t.push(a), vt.push(nv), bt, vart, bstat, bsealed, bpred, has_cur, curb),
{
    lemma_trace_st_push(t, a);
}

/// A request that changes nothing the correspondence tracks.
#[verifier::spinoff_prover]
#[verifier::rlimit(100)]
proof fn lemma_tables_inert(
    t: Seq<TAct>,
    a: TAct,
    vt: Seq<u32>,
    bt: Seq<u32>,
    vart: Seq<u32>,
    bstat: Seq<u8>,
    bsealed: Seq<bool>,
    bpred: Seq<bool>,
    has_cur: bool,
    curb: int,
)
    requires
        tables_ok(t, vt, bt, vart, bstat, bsealed, bpred, has_cur, curb),
        crate::backend::trace_st_step(crate::backend::trace_st(t), a) == crate::backend::trace_st(
            t,
        ),
    ensures
        tables_ok(t.push(a), vt, bt, vart, bstat, bsealed, bpred, has_cur, curb),
{
    lemma_trace_st_push(t, a);
}

/// Declaring a slot preserves the correspondence.
#[verifier::spinoff_prover]
#[verifier::rlimit(100)]
proof fn lemma_tables_declare(
    t: Seq<TAct>,
    a: TAct,
    vt: Seq<u32>,
    bt: Seq<u32>,
    vart: Seq<u32>,
    bstat: Seq<u8>,
    bsealed: Seq<bool>,
    bpred: Seq<bool>,
    has_cur: bool,
    curb: int,
    nvar: u32,
)
    requires
        tables_ok(t, vt, bt, vart, bstat, bsealed, bpred, has_cur, curb),
        crate::backend::trace_st_step(crate::backend::trace_st(t), a) == (crate::backend::TraceSt {
            vars: crate::backend::trace_st(t).vars.insert(nvar),
            ..crate::backend::trace_st(t)
        }),
    ensures
        tables_ok(t.push(a), vt, bt, vart.push(nvar), bstat, bsealed, bpred, has_cur, curb),
{
    lemma_trace_st_push(t, a);
}

/// Switching the current block preserves the correspondence.
#[verifier::spinoff_prover]
#[verifier::rlimit(100)]
proof fn lemma_tables_switch(
    t: Seq<TAct>,
    vt: Seq<u32>,
    bt: Seq<u32>,
    vart: Seq<u32>,
    bstat: Seq<u8>,
    bsealed: Seq<bool>,
    bpred: Seq<bool>,
    has_cur: bool,
    curb: int,
    nb: int,
)
    requires
        tables_ok(t, vt, bt, vart, bstat, bsealed, bpred, has_cur, curb),
        0 <= nb < bt.len(),
    ensures
        tables_ok(
            t.push(TAct::SwitchTo(bt[nb])),
            vt,
            bt,
            vart,
            bstat,
            bsealed,
            bpred,
            true,
            nb,
        ),
{
    lemma_trace_st_push(t, TAct::SwitchTo(bt[nb]));
}

/// Sealing a block preserves the correspondence.
#[verifier::spinoff_prover]
#[verifier::rlimit(100)]
proof fn lemma_tables_seal(
    t: Seq<TAct>,
    vt: Seq<u32>,
    bt: Seq<u32>,
    vart: Seq<u32>,
    bstat: Seq<u8>,
    bsealed: Seq<bool>,
    bpred: Seq<bool>,
    has_cur: bool,
    curb: int,
    sb: int,
)
    requires
        tables_ok(t, vt, bt, vart, bstat, bsealed, bpred, has_cur, curb),
        0 <= sb < bt.len(),
    ensures
        tables_ok(
            t.push(TAct::Seal(bt[sb])),
            vt,
            bt,
            vart,
            bstat,
            bsealed.update(sb, true),
            bpred,
            has_cur,
            curb,
        ),
{
    lemma_trace_st_push(t, TAct::Seal(bt[sb]));
}

/// A one-target terminator (a jump) preserves the correspondence: the
/// current block fills and the target gains a predecessor.
#[verifier::spinoff_prover]
#[verifier::rlimit(100)]
proof fn lemma_tables_jump(
    t: Seq<TAct>,
    a: TAct,
    vt: Seq<u32>,
    bt: Seq<u32>,
    vart: Seq<u32>,
    bstat: Seq<u8>,
    bsealed: Seq<bool>,
    bpred: Seq<bool>,
    curb: int,
    tj: int,
)
    requires
        tables_ok(t, vt, bt, vart, bstat, bsealed, bpred, true, curb),
        0 <= tj < bt.len(),
        crate::backend::trace_st_step(crate::backend::trace_st(t), a) == (crate::backend::TraceSt {
            preded: crate::backend::trace_st(t).preded.insert(bt[tj]),
            ..crate::backend::trace_st(t).finish_cur()
        }),
    ensures
        tables_ok(
            t.push(a),
            vt,
            bt,
            vart,
            bstat.update(curb, 2u8),
            bsealed,
            bpred.update(tj, true),
            true,
            curb,
        ),
{
    lemma_trace_st_push(t, a);
}

/// A two-target terminator (a conditional branch) preserves the
/// correspondence.
#[verifier::spinoff_prover]
#[verifier::rlimit(100)]
proof fn lemma_tables_brif(
    t: Seq<TAct>,
    a: TAct,
    vt: Seq<u32>,
    bt: Seq<u32>,
    vart: Seq<u32>,
    bstat: Seq<u8>,
    bsealed: Seq<bool>,
    bpred: Seq<bool>,
    curb: int,
    tj: int,
    ej: int,
)
    requires
        tables_ok(t, vt, bt, vart, bstat, bsealed, bpred, true, curb),
        0 <= tj < bt.len(),
        0 <= ej < bt.len(),
        crate::backend::trace_st_step(crate::backend::trace_st(t), a) == (crate::backend::TraceSt {
            preded: crate::backend::trace_st(t).preded.insert(bt[tj]).insert(bt[ej]),
            ..crate::backend::trace_st(t).finish_cur()
        }),
    ensures
        tables_ok(
            t.push(a),
            vt,
            bt,
            vart,
            bstat.update(curb, 2u8),
            bsealed,
            bpred.update(tj, true).update(ej, true),
            true,
            curb,
        ),
{
    lemma_trace_st_push(t, a);
}

/// A no-target terminator (a return) preserves the correspondence.
#[verifier::spinoff_prover]
#[verifier::rlimit(100)]
proof fn lemma_tables_ret(
    t: Seq<TAct>,
    a: TAct,
    vt: Seq<u32>,
    bt: Seq<u32>,
    vart: Seq<u32>,
    bstat: Seq<u8>,
    bsealed: Seq<bool>,
    bpred: Seq<bool>,
    curb: int,
)
    requires
        tables_ok(t, vt, bt, vart, bstat, bsealed, bpred, true, curb),
        crate::backend::trace_st_step(crate::backend::trace_st(t), a) == crate::backend::trace_st(
            t,
        ).finish_cur(),
    ensures
        tables_ok(t.push(a), vt, bt, vart, bstat.update(curb, 2u8), bsealed, bpred, true, curb),
{
    lemma_trace_st_push(t, a);
}

/// Emits an action program through the backend, one request per action.
/// On success, the request log is exactly the program, reindexed through
/// the tables the code generator chose, and the log leaves the builder
/// ready to finalize; a malformed program — one that reads a reference
/// it never defined, defines one out of order, or breaks the block
/// protocol — is refused instead of being handed to the generator. On
/// failure, whatever was emitted is a prefix of the program, reindexed
/// the same way.
#[verifier::rlimit(100)]
pub fn emit_acts(
    b: &mut cranelift::frontend::FunctionBuilder,
    m: &mut cranelift_jit::JITModule,
    d: &mut cranelift_module::DataDescription,
    prog: &Vec<Act>,
    strs: &Vec<Vec<u8>>,
) -> (r: Result<(), String>)
    requires
        crate::backend::fb_trace(*old(b)) == Seq::<TAct>::empty(),
        crate::backend::data_ready(*old(d)),
    ensures
        crate::backend::data_ready(*final(d)),
        r is Ok ==> acts_ok(prog@) && crate::backend::trace_closed(
            crate::backend::fb_trace(*final(b)),
        ) && exists|vt: Seq<u32>, bt: Seq<u32>, vart: Seq<u32>|
            crate::backend::fb_trace(*final(b)) == tact_map(
                prog@,
                strs.deep_view(),
                vt,
                bt,
                vart,
            ),
        r is Err ==> exists|i: int, vt: Seq<u32>, bt: Seq<u32>, vart: Seq<u32>|
            0 <= i <= prog@.len() && crate::backend::fb_trace(*final(b)) == tact_map(
                prog@.take(i),
                strs.deep_view(),
                vt,
                bt,
                vart,
            ),
{
    let ghost gstrs = strs.deep_view();
    let mut vt: Vec<u32> = Vec::new();
    let mut bt: Vec<u32> = Vec::new();
    let mut vart: Vec<u32> = Vec::new();
    let mut bstat: Vec<u8> = Vec::new();
    let mut bsealed: Vec<bool> = Vec::new();
    let mut bpred: Vec<bool> = Vec::new();
    let mut has_cur = false;
    let mut curb: usize = 0;
    let mut open = false;
    let mut i: usize = 0;
    proof {
        assert(prog@.take(0) =~= Seq::<Act>::empty());
        assert(crate::backend::fb_trace(*b) =~= tact_map(prog@.take(0), gstrs, vt@, bt@, vart@));
    }
    while i < prog.len()
        invariant
            i <= prog.len(),
            gstrs == strs.deep_view(),
            crate::backend::data_ready(*d),
            crate::backend::fb_trace(*b) == tact_map(prog@.take(i as int), gstrs, vt@, bt@, vart@),
            open == crate::backend::trace_open(crate::backend::fb_trace(*b)),
            open ==> has_cur,
            tables_ok(
                crate::backend::fb_trace(*b),
                vt@,
                bt@,
                vart@,
                bstat@,
                bsealed@,
                bpred@,
                has_cur,
                curb as int,
            ),
            vt@.len() == vcnt(prog@.take(i as int)),
            bt@.len() == bcnt(prog@.take(i as int)),
            vart@.len() == varcnt(prog@.take(i as int)),
            forall|j: int|
                0 <= j < i ==> act_ok(
                    #[trigger] prog@[j],
                    vcnt(prog@.take(j)),
                    bcnt(prog@.take(j)),
                    varcnt(prog@.take(j)),
                ),
        decreases prog.len() - i,
    {
        let ghost vt1 = vt@;
        let ghost bt1 = bt@;
        let ghost vart1 = vart@;
        let ghost bstat1 = bstat@;
        let ghost bsealed1 = bsealed@;
        let ghost bpred1 = bpred@;
        let ghost has_cur1 = has_cur;
        let ghost curb1 = curb as int;
        let ghost tr1 = crate::backend::fb_trace(*b);
        let a = prog[i];
        let ghost ga = prog@[i as int];
        match a {
            Act::CreateBlock(bid) => {
                if bid != bt.len() as u64 {
                    return Err("malformed code: block defined out of order".to_owned());
                }
                let nb = crate::backend::w_create_block(b);
                bt.push(nb);
                bstat.push(0);
                bsealed.push(false);
                bpred.push(false);
                proof {
                    lemma_tables_create(
                        tr1,
                        vt1,
                        bt1,
                        vart1,
                        bstat1,
                        bsealed1,
                        bpred1,
                        has_cur1,
                        curb1,
                        nb,
                    );
                    assert(bt@.take(bt1.len() as int) =~= bt1);
                    assert(tact_of(ga, gstrs, vt@, bt@, vart@) == TAct::CreateBlock(nb));
                    lemma_trace_open_push(tr1, TAct::CreateBlock(nb));
                }
            },
            Act::FuncParams(bid) => {
                if bid >= bt.len() as u64 {
                    return Err("malformed code: unknown block".to_owned());
                }
                if bstat[bid as usize] != 0 || bpred[bid as usize] {
                    return Err("malformed code: parameters added too late".to_owned());
                }
                proof {
                    let s = crate::backend::trace_st(tr1);
                    assert(s.created.contains(bt1[bid as int]));
                    assert(!s.unpristine.contains(bt1[bid as int]));
                    assert(!s.preded.contains(bt1[bid as int]));
                }
                crate::backend::w_func_params(b, bt[bid as usize]);
                proof {
                    lemma_tables_inert(
                        tr1,
                        TAct::FuncParams(bt1[bid as int]),
                        vt1,
                        bt1,
                        vart1,
                        bstat1,
                        bsealed1,
                        bpred1,
                        has_cur1,
                        curb1,
                    );
                    assert(tact_of(ga, gstrs, vt@, bt@, vart@) == TAct::FuncParams(
                        bt@[bid as int],
                    ));
                    lemma_trace_open_push(tr1, TAct::FuncParams(bt1[bid as int]));
                }
            },
            Act::SwitchTo(bid) => {
                if bid >= bt.len() as u64 {
                    return Err("malformed code: unknown block".to_owned());
                }
                if has_cur && bstat[curb] == 1 {
                    return Err("malformed code: block left unterminated".to_owned());
                }
                if bstat[bid as usize] == 2 {
                    return Err("malformed code: block resumed after its end".to_owned());
                }
                proof {
                    let s = crate::backend::trace_st(tr1);
                    if has_cur {
                        assert(s.cur == Some(bt1[curb1]));
                        assert(s.filled.contains(bt1[curb1]) <==> bstat1[curb1] == 2);
                        assert(s.unpristine.contains(bt1[curb1]) <==> bstat1[curb1] != 0);
                    }
                    assert(s.may_leave());
                    assert(s.created.contains(bt1[bid as int]));
                    assert(!s.filled.contains(bt1[bid as int]));
                }
                crate::backend::w_switch_to_block(b, bt[bid as usize]);
                has_cur = true;
                curb = bid as usize;
                open = true;
                proof {
                    lemma_tables_switch(
                        tr1,
                        vt1,
                        bt1,
                        vart1,
                        bstat1,
                        bsealed1,
                        bpred1,
                        has_cur1,
                        curb1,
                        bid as int,
                    );
                    assert(tact_of(ga, gstrs, vt@, bt@, vart@) == TAct::SwitchTo(bt@[bid as int]));
                    lemma_trace_open_push(tr1, TAct::SwitchTo(bt1[bid as int]));
                }
            },
            Act::Seal(bid) => {
                if bid >= bt.len() as u64 {
                    return Err("malformed code: unknown block".to_owned());
                }
                if bsealed[bid as usize] {
                    return Err("malformed code: block sealed twice".to_owned());
                }
                proof {
                    let s = crate::backend::trace_st(tr1);
                    assert(s.created.contains(bt1[bid as int]));
                    assert(!s.sealed.contains(bt1[bid as int]));
                }
                crate::backend::w_seal_block(b, bt[bid as usize]);
                bsealed.set(bid as usize, true);
                proof {
                    lemma_tables_seal(
                        tr1,
                        vt1,
                        bt1,
                        vart1,
                        bstat1,
                        bsealed1,
                        bpred1,
                        has_cur1,
                        curb1,
                        bid as int,
                    );
                    assert(bsealed@ =~= bsealed1.update(bid as int, true));
                    assert(tact_of(ga, gstrs, vt@, bt@, vart@) == TAct::Seal(bt@[bid as int]));
                    lemma_trace_open_push(tr1, TAct::Seal(bt1[bid as int]));
                }
            },
            Act::BlockParam(bid, ty, v) => {
                if bid >= bt.len() as u64 || v != vt.len() as u64 {
                    return Err("malformed code: bad block parameter".to_owned());
                }
                if bstat[bid as usize] != 0 {
                    return Err("malformed code: parameters added too late".to_owned());
                }
                proof {
                    let s = crate::backend::trace_st(tr1);
                    assert(s.created.contains(bt1[bid as int]));
                    assert(!s.unpristine.contains(bt1[bid as int]));
                }
                let nv = crate::backend::w_append_block_param(b, bt[bid as usize], ty);
                vt.push(nv);
                proof {
                    lemma_tables_val(
                        tr1,
                        TAct::BlockParam(bt1[bid as int], ty, nv),
                        vt1,
                        bt1,
                        vart1,
                        bstat1,
                        bsealed1,
                        bpred1,
                        has_cur1,
                        curb1,
                        nv,
                    );
                    assert(vt@.take(vt1.len() as int) =~= vt1);
                    assert(tact_of(ga, gstrs, vt@, bt@, vart@) == TAct::BlockParam(
                        bt@[bid as int],
                        ty,
                        nv,
                    ));
                    lemma_trace_open_push(tr1, TAct::BlockParam(bt1[bid as int], ty, nv));
                }
            },
            Act::DeclareVar(ty, var) => {
                if var != vart.len() as u64 {
                    return Err("malformed code: slot declared out of order".to_owned());
                }
                let nvar = crate::backend::w_declare_var(b, ty);
                vart.push(nvar);
                proof {
                    lemma_tables_declare(
                        tr1,
                        TAct::DeclareVar(ty, nvar),
                        vt1,
                        bt1,
                        vart1,
                        bstat1,
                        bsealed1,
                        bpred1,
                        has_cur1,
                        curb1,
                        nvar,
                    );
                    assert(vart@.take(vart1.len() as int) =~= vart1);
                    assert(tact_of(ga, gstrs, vt@, bt@, vart@) == TAct::DeclareVar(ty, nvar));
                    lemma_trace_open_push(tr1, TAct::DeclareVar(ty, nvar));
                }
            },
            Act::DefVar(var, v) => {
                if var >= vart.len() as u64 || v >= vt.len() as u64 || !open {
                    return Err("variable not found".to_owned());
                }
                proof {
                    assert(crate::backend::trace_st(tr1).vals.contains(vt1[v as int]));
                }
                match crate::backend::w_def_var(b, vart[var as usize], vt[v as usize]) {
                    Ok(()) => {},
                    Err(e) => {
                        return Err(e);
                    },
                }
                proof {
                    lemma_tables_inert(
                        tr1,
                        TAct::DefVar(vart1[var as int], vt1[v as int]),
                        vt1,
                        bt1,
                        vart1,
                        bstat1,
                        bsealed1,
                        bpred1,
                        has_cur1,
                        curb1,
                    );
                    assert(tact_of(ga, gstrs, vt@, bt@, vart@) == TAct::DefVar(
                        vart@[var as int],
                        vt@[v as int],
                    ));
                    lemma_trace_open_push(tr1, TAct::DefVar(vart1[var as int], vt1[v as int]));
                }
            },
            Act::UseVar(var, v) => {
                if var >= vart.len() as u64 || v != vt.len() as u64 || !open {
                    return Err("variable not found".to_owned());
                }
                let nv = match crate::backend::w_use_var(b, vart[var as usize]) {
                    Ok(nv) => nv,
                    Err(e) => {
                        return Err(e);
                    },
                };
                vt.push(nv);
                if bstat[curb] == 0 {
                    bstat.set(curb, 1);
                }
                proof {
                    lemma_tables_inst(
                        tr1,
                        TAct::UseVar(vart1[var as int], nv),
                        vt1,
                        bt1,
                        vart1,
                        bstat1,
                        bsealed1,
                        bpred1,
                        curb1,
                        nv,
                    );
                    assert(bstat@ =~= touch_stat(bstat1, curb1));
                    assert(vt@.take(vt1.len() as int) =~= vt1);
                    assert(tact_of(ga, gstrs, vt@, bt@, vart@) == TAct::UseVar(
                        vart@[var as int],
                        nv,
                    ));
                    lemma_trace_open_push(tr1, TAct::UseVar(vart1[var as int], nv));
                }
            },
            Act::IConst(ty, imm, v) => {
                if v != vt.len() as u64 || matches!(ty, TyCode::F64) || !open {
                    return Err("malformed code: bad immediate".to_owned());
                }
                let nv = crate::backend::w_iconst(b, ty, imm);
                vt.push(nv);
                if bstat[curb] == 0 {
                    bstat.set(curb, 1);
                }
                proof {
                    lemma_tables_inst(
                        tr1,
                        TAct::IConst(ty, imm, nv),
                        vt1,
                        bt1,
                        vart1,
                        bstat1,
                        bsealed1,
                        bpred1,
                        curb1,
                        nv,
                    );
                    assert(bstat@ =~= touch_stat(bstat1, curb1));
                    assert(vt@.take(vt1.len() as int) =~= vt1);
                    assert(tact_of(ga, gstrs, vt@, bt@, vart@) == TAct::IConst(ty, imm, nv));
                    lemma_trace_open_push(tr1, TAct::IConst(ty, imm, nv));
                }
            },
            Act::F64Const(bits, v) => {
                if v != vt.len() as u64 || !open {
                    return Err("malformed code: bad immediate".to_owned());
                }
                let nv = crate::backend::w_f64const(b, bits);
                vt.push(nv);
                if bstat[curb] == 0 {
                    bstat.set(curb, 1);
                }
                proof {
                    lemma_tables_inst(
                        tr1,
                        TAct::F64Const(bits, nv),
                        vt1,
                        bt1,
                        vart1,
                        bstat1,
                        bsealed1,
                        bpred1,
                        curb1,
                        nv,
                    );
                    assert(bstat@ =~= touch_stat(bstat1, curb1));
                    assert(vt@.take(vt1.len() as int) =~= vt1);
                    assert(tact_of(ga, gstrs, vt@, bt@, vart@) == TAct::F64Const(bits, nv));
                    lemma_trace_open_push(tr1, TAct::F64Const(bits, nv));
                }
            },
            Act::StrData(sid, v) => {
                if sid >= strs.len() as u64 || v != vt.len() as u64 || !open {
                    return Err("malformed code: bad data reference".to_owned());
                }
                let nv = match crate::backend::w_str_data(b, m, d, &strs[sid as usize]) {
                    Ok(nv) => nv,
                    Err(e) => {
                        return Err(e);
                    },
                };
                vt.push(nv);
                if bstat[curb] == 0 {
                    bstat.set(curb, 1);
                }
                proof {
                    lemma_bytes_deep_view(strs@[sid as int]);
                    assert(gstrs[sid as int] == strs@[sid as int]@);
                    lemma_tables_inst(
                        tr1,
                        TAct::StrBytes(gstrs[sid as int], nv),
                        vt1,
                        bt1,
                        vart1,
                        bstat1,
                        bsealed1,
                        bpred1,
                        curb1,
                        nv,
                    );
                    assert(bstat@ =~= touch_stat(bstat1, curb1));
                    assert(vt@.take(vt1.len() as int) =~= vt1);
                    assert(tact_of(ga, gstrs, vt@, bt@, vart@) == TAct::StrBytes(
                        gstrs[sid as int],
                        nv,
                    ));
                    lemma_trace_open_push(tr1, TAct::StrBytes(gstrs[sid as int], nv));
                }
            },
            Act::Bin(opc, l, rr, v) => {
                if l >= vt.len() as u64 || rr >= vt.len() as u64 || v != vt.len() as u64
                    || !open {
                    return Err("malformed code: bad operand".to_owned());
                }
                let lv = vt[l as usize];
                let rv = vt[rr as usize];
                proof {
                    assert(crate::backend::trace_st(tr1).vals.contains(vt1[l as int]));
                    assert(crate::backend::trace_st(tr1).vals.contains(vt1[rr as int]));
                }
                let nv = match opc {
                    BinOpc::IAdd => crate::backend::w_iadd(b, lv, rv),
                    BinOpc::ISub => crate::backend::w_isub(b, lv, rv),
                    BinOpc::IMul => crate::backend::w_imul(b, lv, rv),
                    BinOpc::UDiv => crate::backend::w_udiv(b, lv, rv),
                    BinOpc::FAdd => crate::backend::w_fadd(b, lv, rv),
                    BinOpc::FSub => crate::backend::w_fsub(b, lv, rv),
                    BinOpc::FMul => crate::backend::w_fmul(b, lv, rv),
                    BinOpc::FDiv => crate::backend::w_fdiv(b, lv, rv),
                    BinOpc::ICmp(cc) => crate::backend::w_icmp(b, cc, lv, rv),
                    BinOpc::FCmp(cc) => crate::backend::w_fcmp(b, cc, lv, rv),
                };
                vt.push(nv);
                if bstat[curb] == 0 {
                    bstat.set(curb, 1);
                }
                proof {
                    lemma_tables_inst(
                        tr1,
                        TAct::Bin(opc, vt1[l as int], vt1[rr as int], nv),
                        vt1,
                        bt1,
                        vart1,
                        bstat1,
                        bsealed1,
                        bpred1,
                        curb1,
                        nv,
                    );
                    assert(bstat@ =~= touch_stat(bstat1, curb1));
                    assert(vt@.take(vt1.len() as int) =~= vt1);
                    assert(tact_of(ga, gstrs, vt@, bt@, vart@) == TAct::Bin(
                        opc,
                        vt@[l as int],
                        vt@[rr as int],
                        nv,
                    ));
                    lemma_trace_open_push(
                        tr1,
                        TAct::Bin(opc, vt1[l as int], vt1[rr as int], nv),
                    );
                }
            },
            Act::Brif(c, t, e) => {
                if c >= vt.len() as u64 || t >= bt.len() as u64 || e >= bt.len() as u64
                    || !open {
                    return Err("malformed code: bad branch".to_owned());
                }
                if bsealed[t as usize] || bsealed[e as usize] {
                    return Err("malformed code: branch into a sealed block".to_owned());
                }
                proof {
                    let s = crate::backend::trace_st(tr1);
                    assert(s.vals.contains(vt1[c as int]));
                    assert(s.created.contains(bt1[t as int]));
                    assert(s.created.contains(bt1[e as int]));
                    assert(!s.sealed.contains(bt1[t as int]));
                    assert(!s.sealed.contains(bt1[e as int]));
                }
                crate::backend::w_brif(b, vt[c as usize], bt[t as usize], bt[e as usize]);
                bstat.set(curb, 2);
                bpred.set(t as usize, true);
                bpred.set(e as usize, true);
                open = false;
                proof {
                    lemma_tables_brif(
                        tr1,
                        TAct::Brif(vt1[c as int], bt1[t as int], bt1[e as int]),
                        vt1,
                        bt1,
                        vart1,
                        bstat1,
                        bsealed1,
                        bpred1,
                        curb1,
                        t as int,
                        e as int,
                    );
                    assert(bstat@ =~= bstat1.update(curb1, 2u8));
                    assert(bpred@ =~= bpred1.update(t as int, true).update(e as int, true));
                    assert(tact_of(ga, gstrs, vt@, bt@, vart@) == TAct::Brif(
                        vt@[c as int],
                        bt@[t as int],
                        bt@[e as int],
                    ));
                    lemma_trace_open_push(
                        tr1,
                        TAct::Brif(vt1[c as int], bt1[t as int], bt1[e as int]),
                    );
                }
            },
            Act::Jump0(bid) => {
                if bid >= bt.len() as u64 || !open {
                    return Err("malformed code: bad jump".to_owned());
                }
                if bsealed[bid as usize] {
                    return Err("malformed code: branch into a sealed block".to_owned());
                }
                proof {
                    let s = crate::backend::trace_st(tr1);
                    assert(s.created.contains(bt1[bid as int]));
                    assert(!s.sealed.contains(bt1[bid as int]));
                }
                crate::backend::w_jump0(b, bt[bid as usize]);
                bstat.set(curb, 2);
                bpred.set(bid as usize, true);
                open = false;
                proof {
                    lemma_tables_jump(
                        tr1,
                        TAct::Jump0(bt1[bid as int]),
                        vt1,
                        bt1,
                        vart1,
                        bstat1,
                        bsealed1,
                        bpred1,
                        curb1,
                        bid as int,
                    );
                    assert(bstat@ =~= bstat1.update(curb1, 2u8));
                    assert(bpred@ =~= bpred1.update(bid as int, true));
                    assert(tact_of(ga, gstrs, vt@, bt@, vart@) == TAct::Jump0(bt@[bid as int]));
                    lemma_trace_open_push(tr1, TAct::Jump0(bt1[bid as int]));
                }
            },
            Act::Jump1(bid, arg) => {
                if bid >= bt.len() as u64 || arg >= vt.len() as u64 || !open {
                    return Err("malformed code: bad jump".to_owned());
                }
                if bsealed[bid as usize] {
                    return Err("malformed code: branch into a sealed block".to_owned());
                }
                proof {
                    let s = crate::backend::trace_st(tr1);
                    assert(s.created.contains(bt1[bid as int]));
                    assert(!s.sealed.contains(bt1[bid as int]));
                    assert(s.vals.contains(vt1[arg as int]));
                }
                crate::backend::w_jump1(b, bt[bid as usize], vt[arg as usize]);
                bstat.set(curb, 2);
                bpred.set(bid as usize, true);
                open = false;
                proof {
                    lemma_tables_jump(
                        tr1,
                        TAct::Jump1(bt1[bid as int], vt1[arg as int]),
                        vt1,
                        bt1,
                        vart1,
                        bstat1,
                        bsealed1,
                        bpred1,
                        curb1,
                        bid as int,
                    );
                    assert(bstat@ =~= bstat1.update(curb1, 2u8));
                    assert(bpred@ =~= bpred1.update(bid as int, true));
                    assert(tact_of(ga, gstrs, vt@, bt@, vart@) == TAct::Jump1(
                        bt@[bid as int],
                        vt@[arg as int],
                    ));
                    lemma_trace_open_push(
                        tr1,
                        TAct::Jump1(bt1[bid as int], vt1[arg as int]),
                    );
                }
            },
            Act::CallPuts(arg, v) => {
                if arg >= vt.len() as u64 || v != vt.len() as u64 || !open {
                    return Err("malformed code: bad call".to_owned());
                }
                proof {
                    assert(crate::backend::trace_st(tr1).vals.contains(vt1[arg as int]));
                }
                let nv = match crate::backend::w_call_puts(b, m, vt[arg as usize]) {
                    Ok(nv) => nv,
                    Err(e) => {
                        return Err(e);
                    },
                };
                vt.push(nv);
                if bstat[curb] == 0 {
                    bstat.set(curb, 1);
                }
                proof {
                    lemma_tables_inst(
                        tr1,
                        TAct::CallPuts(vt1[arg as int], nv),
                        vt1,
                        bt1,
                        vart1,
                        bstat1,
                        bsealed1,
                        bpred1,
                        curb1,
                        nv,
                    );
                    assert(bstat@ =~= touch_stat(bstat1, curb1));
                    assert(vt@.take(vt1.len() as int) =~= vt1);
                    assert(tact_of(ga, gstrs, vt@, bt@, vart@) == TAct::CallPuts(
                        vt@[arg as int],
                        nv,
                    ));
                    lemma_trace_open_push(tr1, TAct::CallPuts(vt1[arg as int], nv));
                }
            },
            Act::CallPrintfInt(f, arg, v) => {
                if f >= vt.len() as u64 || arg >= vt.len() as u64 || v != vt.len() as u64
                    || !open {
                    return Err("malformed code: bad call".to_owned());
                }
                proof {
                    assert(crate::backend::trace_st(tr1).vals.contains(vt1[f as int]));
                    assert(crate::backend::trace_st(tr1).vals.contains(vt1[arg as int]));
                }
                let nv = match crate::backend::w_call_printf_int(
                    b,
                    m,
                    vt[f as usize],
                    vt[arg as usize],
                ) {
                    Ok(nv) => nv,
                    Err(e) => {
                        return Err(e);
                    },
                };
                vt.push(nv);
                if bstat[curb] == 0 {
                    bstat.set(curb, 1);
                }
                proof {
                    lemma_tables_inst(
                        tr1,
                        TAct::CallPrintfInt(vt1[f as int], vt1[arg as int], nv),
                        vt1,
                        bt1,
                        vart1,
                        bstat1,
                        bsealed1,
                        bpred1,
                        curb1,
                        nv,
                    );
                    assert(bstat@ =~= touch_stat(bstat1, curb1));
                    assert(vt@.take(vt1.len() as int) =~= vt1);
                    assert(tact_of(ga, gstrs, vt@, bt@, vart@) == TAct::CallPrintfInt(
                        vt@[f as int],
                        vt@[arg as int],
                        nv,
                    ));
                    lemma_trace_open_push(
                        tr1,
                        TAct::CallPrintfInt(vt1[f as int], vt1[arg as int], nv),
                    );
                }
            },
            Act::CallPrintfFloat(f, arg, v) => {
                if f >= vt.len() as u64 || arg >= vt.len() as u64 || v != vt.len() as u64
                    || !open {
                    return Err("malformed code: bad call".to_owned());
                }
                proof {
                    assert(crate::backend::trace_st(tr1).vals.contains(vt1[f as int]));
                    assert(crate::backend::trace_st(tr1).vals.contains(vt1[arg as int]));
                }
                let nv = match crate::backend::w_call_printf_float(
                    b,
                    m,
                    vt[f as usize],
                    vt[arg as usize],
                ) {
                    Ok(nv) => nv,
                    Err(e) => {
                        return Err(e);
                    },
                };
                vt.push(nv);
                if bstat[curb] == 0 {
                    bstat.set(curb, 1);
                }
                proof {
                    lemma_tables_inst(
                        tr1,
                        TAct::CallPrintfFloat(vt1[f as int], vt1[arg as int], nv),
                        vt1,
                        bt1,
                        vart1,
                        bstat1,
                        bsealed1,
                        bpred1,
                        curb1,
                        nv,
                    );
                    assert(bstat@ =~= touch_stat(bstat1, curb1));
                    assert(vt@.take(vt1.len() as int) =~= vt1);
                    assert(tact_of(ga, gstrs, vt@, bt@, vart@) == TAct::CallPrintfFloat(
                        vt@[f as int],
                        vt@[arg as int],
                        nv,
                    ));
                    lemma_trace_open_push(
                        tr1,
                        TAct::CallPrintfFloat(vt1[f as int], vt1[arg as int], nv),
                    );
                }
            },
            Act::Ret(v) => {
                if v >= vt.len() as u64 || !open {
                    return Err("malformed code: bad return".to_owned());
                }
                proof {
                    assert(crate::backend::trace_st(tr1).vals.contains(vt1[v as int]));
                }
                crate::backend::w_ret(b, vt[v as usize]);
                bstat.set(curb, 2);
                open = false;
                proof {
                    lemma_tables_ret(
                        tr1,
                        TAct::Ret(vt1[v as int]),
                        vt1,
                        bt1,
                        vart1,
                        bstat1,
                        bsealed1,
                        bpred1,
                        curb1,
                    );
                    assert(bstat@ =~= bstat1.update(curb1, 2u8));
                    assert(tact_of(ga, gstrs, vt@, bt@, vart@) == TAct::Ret(vt@[v as int]));
                    lemma_trace_open_push(tr1, TAct::Ret(vt1[v as int]));
                }
            },
        }
        proof {
            assert(vt@.take(vt1.len() as int) =~= vt1);
            assert(bt@.take(bt1.len() as int) =~= bt1);
            assert(vart@.take(vart1.len() as int) =~= vart1);
            lemma_emit_step(
                prog@,
                i as int,
                gstrs,
                vt1,
                bt1,
                vart1,
                vt@,
                bt@,
                vart@,
                tr1,
            );
        }
        i = i + 1;
    }
    proof {
        assert(prog@.take(i as int) =~= prog@);
        assert(prog@.take(prog@.len() as int) =~= prog@);
    }
    // Every block must have ended with a terminator and been sealed (or
    // never been entered) before the builder may be finalized.
    let mut j: usize = 0;
    while j < bstat.len()
        invariant
            j <= bstat@.len(),
            bstat@.len() == bsealed@.len(),
            gstrs == strs.deep_view(),
            crate::backend::data_ready(*d),
            crate::backend::fb_trace(*b) == tact_map(
                prog@.take(prog@.len() as int),
                gstrs,
                vt@,
                bt@,
                vart@,
            ),
            forall|x: int|
                0 <= x < j ==> (#[trigger] bstat@[x] == 0 || (bstat@[x] == 2 && bsealed@[x])),
        decreases bstat.len() - j,
    {
        if !(bstat[j] == 0 || (bstat[j] == 2 && bsealed[j])) {
            return Err("malformed code: block left open".to_owned());
        }
        j = j + 1;
    }
    proof {
        assert(crate::backend::fb_trace(*b) == tact_map(prog@, gstrs, vt@, bt@, vart@));
        let tfin = crate::backend::fb_trace(*b);
        let s = crate::backend::trace_st(tfin);
        assert forall|c: u32| s.created.contains(c) implies (!s.unpristine.contains(c) || (
        s.filled.contains(c) && s.sealed.contains(c))) by {
            let jj = choose|jj: int| 0 <= jj < bt@.len() && bt@[jj] == c;
            assert(bstat@[jj] == 0 || (bstat@[jj] == 2 && bsealed@[jj]));
        }
    }
    Ok(())
}

/// One compilation session: an in-memory module, a context holding the
/// function under construction, and the data descriptor used for string
/// blobs. A session compiles one program and is then consumed.
pub struct Compiler {
    pub module: cranelift_jit::JITModule,
    pub ctx: cranelift::codegen::Context,
    pub builder_ctx: cranelift::frontend::FunctionBuilderContext,
    pub data: cranelift_module::DataDescription,
}

impl Compiler {
    /// A usable session: its builder context is clean and its data
    /// descriptor ready, as the backend demands of a fresh compilation.
    pub open spec fn wf(self) -> bool {
        &&& crate::backend::fbc_clean(self.builder_ctx)
        &&& crate::backend::data_ready(self.data)
    }

    /// A fresh session; fails only when the host machine cannot be
    /// targeted.
    pub fn new() -> (r: Result<Compiler, String>)
        ensures
            r matches Ok(c) ==> c.wf(),
    {
        let module = match crate::backend::w_new_module() {
            Ok(module) => module,
            Err(e) => {
                return Err(e);
            },
        };
        let ctx = crate::backend::w_make_context(&module);
        let builder_ctx = crate::backend::w_new_fbc();
        let data = crate::backend::w_new_data_desc();
        Ok(Compiler { module, ctx, builder_ctx, data })
    }

    /// Translates the statements into one native function named "main"
    /// (no parameters, one word returned), checks it for structural
    /// well-formedness, and finalizes it into executable memory. On
    /// success, the action program handed to the backend was exactly
    /// the translation of the statements, and it passed every one of
    /// the emitter's own checks; a failure comes back as an error, with
    /// the generated listing attached when structural verification is
    /// what refused it — this function never aborts. A read or write of
    /// a name no declaration covers translates to the sentinel slot,
    /// which the emitter refuses ("variable not found"), so such a
    /// program always fails here; conversely, for a well-bound program
    /// within the index space, the translation is consistent and the
    /// emitter's index checks cannot refuse it
    /// (`laws::lemma_translator_output_consistent`). On success, the returned module owns
    /// the executable memory and the identifier names the function
    /// inside it; the module must stay alive for as long as the entry
    /// point may be invoked.
    pub fn compile(self, stmts: &Vec<Stmt>) -> (r: Result<(cranelift_jit::JITModule, u32), String>)
        requires
            self.wf(),
        ensures
            r is Ok ==> acts_ok(spec_build_program(stmts@).0),
    {
        let Compiler { mut module, mut ctx, mut builder_ctx, mut data } = self;
        let mut h = Handler::new();
        h.translate(stmts);
        crate::backend::w_push_ret_i64(&mut ctx);
        let mut b = crate::backend::w_new_builder(&mut ctx, &mut builder_ctx);
        match emit_acts(&mut b, &mut module, &mut data, &h.acts, &h.strs) {
            Ok(()) => {},
            Err(e) => {
                return Err(e);
            },
        }
        crate::backend::w_finalize_builder(b, &module);
        match crate::backend::w_verify_func(&mut ctx) {
            Ok(()) => {},
            Err(e) => {
                // A verifier complaint means the backend miscompiled; hand
                // back the complaint with the generated listing.
                let listing = crate::backend::w_func_text(&ctx);
                let msg = e.concat("\ngenerated function:\n").concat(listing.as_str());
                return Err(msg);
            },
        }
        let id = match crate::backend::w_declare_main(&mut module, &ctx) {
            Ok(id) => id,
            Err(e) => {
                return Err(e);
            },
        };
        match crate::backend::w_define_function(&mut module, id, &mut ctx) {
            Ok(()) => {},
            Err(e) => {
                return Err(e);
            },
        }
        crate::backend::w_clear_context(&module, &mut ctx);
        match crate::backend::w_finalize_definitions(&mut module) {
            Ok(()) => {},
            Err(e) => {
                return Err(e);
            },
        }
        Ok((module, id))
    }
}

} // verus!
