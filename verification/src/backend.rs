//! The trusted boundary to the cranelift code generator.
//!
//! Everything the library asks of cranelift goes through the items in this
//! module and nothing else does. Each wrapper makes one request (or, for
//! the data-blob and output-call wrappers, one fixed short sequence of
//! requests) and records it in `fb_trace`, the abstract log of
//! requests made through a `FunctionBuilder`. The verified emission loop
//! in `compiler` is proved to produce exactly the request log that the
//! specification-level translation demands.

use vstd::prelude::*;
use crate::acts::{TAct, TyCode, IntCond, FloatCond, BinOpc};
use cranelift_module::Module;
use cranelift::prelude::InstBuilder;

verus! {

#[verifier::external_type_specification]
#[verifier::external_body]
pub struct ExJITModule(cranelift_jit::JITModule);

#[verifier::external_type_specification]
#[verifier::external_body]
pub struct ExContext(cranelift::codegen::Context);

#[verifier::external_type_specification]
#[verifier::external_body]
pub struct ExFunctionBuilderContext(cranelift::frontend::FunctionBuilderContext);

#[verifier::external_type_specification]
#[verifier::external_body]
pub struct ExFunctionBuilder<'a>(cranelift::frontend::FunctionBuilder<'a>);

#[verifier::external_type_specification]
#[verifier::external_body]
pub struct ExDataDescription(cranelift_module::DataDescription);

/// The requests made so far through a function builder, in order.
pub uninterp spec fn fb_trace(b: cranelift::frontend::FunctionBuilder) -> Seq<TAct>;

/// Whether the request log leaves a block current and still open: some
/// block has been switched to, and no terminator instruction has been
/// emitted since the last switch. The instruction wrappers require this;
/// cranelift refuses to insert an instruction when no block is current.
pub open spec fn trace_open(t: Seq<TAct>) -> bool
    decreases t.len(),
{
    if t.len() == 0 {
        false
    } else {
        match t.last() {
            TAct::SwitchTo(_) => true,
            TAct::Brif(_, _, _) => false,
            TAct::Jump0(_) => false,
            TAct::Jump1(_, _) => false,
            TAct::Ret(_) => false,
            _ => trace_open(t.drop_last()),
        }
    }
}

/// The builder-protocol state a request log has put the function
/// builder in: which blocks exist, which are sealed, which have a
/// recorded incoming branch, which have received an instruction, which
/// have ended with a terminator, which block is current, and which
/// value and variable references have been handed out. The wrappers'
/// preconditions are stated over this state; they are what keeps every
/// request inside what cranelift accepts without aborting.
#[verifier::ext_equal]
pub struct TraceSt {
    pub created: Set<u32>,
    pub sealed: Set<u32>,
    pub preded: Set<u32>,
    pub unpristine: Set<u32>,
    pub filled: Set<u32>,
    pub cur: Option<u32>,
    pub vals: Set<u32>,
    pub vars: Set<u32>,
}

impl TraceSt {
    pub open spec fn init() -> TraceSt {
        TraceSt {
            created: Set::empty(),
            sealed: Set::empty(),
            preded: Set::empty(),
            unpristine: Set::empty(),
            filled: Set::empty(),
            cur: None,
            vals: Set::empty(),
            vars: Set::empty(),
        }
    }

    /// A created block that has not yet received an instruction.
    pub open spec fn pristine(self, b: u32) -> bool {
        self.created.contains(b) && !self.unpristine.contains(b)
    }

    /// Whether the current block, if any, may be left: it is pristine
    /// or ended with a terminator.
    pub open spec fn may_leave(self) -> bool {
        match self.cur {
            None => true,
            Some(c) => self.filled.contains(c) || !self.unpristine.contains(c),
        }
    }

    /// Marks the current block, if any, as having an instruction.
    pub open spec fn touch(self) -> TraceSt {
        match self.cur {
            None => self,
            Some(c) => TraceSt { unpristine: self.unpristine.insert(c), ..self },
        }
    }

    /// Marks the current block, if any, as ended with a terminator.
    pub open spec fn finish_cur(self) -> TraceSt {
        match self.cur {
            None => self,
            Some(c) => TraceSt {
                unpristine: self.unpristine.insert(c),
                filled: self.filled.insert(c),
                ..self
            },
        }
    }
}

/// One request's effect on the builder-protocol state. Reading a
/// variable marks the current block as started, exactly as cranelift
/// does: the read inserts the block into the layout before resolving,
/// after which the block no longer counts as pristine. Parameters leave
/// a block pristine; instructions and reads do not.
pub open spec fn trace_st_step(s: TraceSt, a: TAct) -> TraceSt {
    match a {
        TAct::CreateBlock(b) => TraceSt { created: s.created.insert(b), ..s },
        TAct::FuncParams(_) => s,
        TAct::SwitchTo(b) => TraceSt { cur: Some(b), ..s },
        TAct::Seal(b) => TraceSt { sealed: s.sealed.insert(b), ..s },
        TAct::BlockParam(_, _, v) => TraceSt { vals: s.vals.insert(v), ..s },
        TAct::DeclareVar(_, var) => TraceSt { vars: s.vars.insert(var), ..s },
        TAct::DefVar(_, _) => s,
        TAct::UseVar(_, v) => TraceSt { vals: s.vals.insert(v), ..s.touch() },
        TAct::IConst(_, _, v) => TraceSt { vals: s.vals.insert(v), ..s.touch() },
        TAct::F64Const(_, v) => TraceSt { vals: s.vals.insert(v), ..s.touch() },
        TAct::StrBytes(_, v) => TraceSt { vals: s.vals.insert(v), ..s.touch() },
        TAct::Bin(_, _, _, v) => TraceSt { vals: s.vals.insert(v), ..s.touch() },
        TAct::CallPuts(_, v) => TraceSt { vals: s.vals.insert(v), ..s.touch() },
        TAct::CallPrintfInt(_, _, v) => TraceSt { vals: s.vals.insert(v), ..s.touch() },
        TAct::CallPrintfFloat(_, _, v) => TraceSt { vals: s.vals.insert(v), ..s.touch() },
        TAct::Brif(_, tb, eb) => TraceSt {
            preded: s.preded.insert(tb).insert(eb),
            ..s.finish_cur()
        },
        TAct::Jump0(b) => TraceSt { preded: s.preded.insert(b), ..s.finish_cur() },
        TAct::Jump1(b, _) => TraceSt { preded: s.preded.insert(b), ..s.finish_cur() },
        TAct::Ret(_) => s.finish_cur(),
    }
}

/// The builder-protocol state after a whole request log.
pub open spec fn trace_st(t: Seq<TAct>) -> TraceSt
    decreases t.len(),
{
    if t.len() == 0 {
        TraceSt::init()
    } else {
        trace_st_step(trace_st(t.drop_last()), t.last())
    }
}

/// A log after which the builder may be finalized: every block either
/// never received an instruction, or ended with a terminator and was
/// sealed.
pub open spec fn trace_closed(t: Seq<TAct>) -> bool {
    forall|b: u32|
        trace_st(t).created.contains(b) ==> (!trace_st(t).unpristine.contains(b) || (trace_st(
            t,
        ).filled.contains(b) && trace_st(t).sealed.contains(b)))
}

/// Whether a builder context is clean: freshly made, or reset by a
/// builder's finalization.
pub uninterp spec fn fbc_clean(fbc: cranelift::frontend::FunctionBuilderContext) -> bool;

/// Whether a data descriptor is ready for a fresh definition: freshly
/// made or cleared.
pub uninterp spec fn data_ready(d: cranelift_module::DataDescription) -> bool;

/// Whether a context's function has passed structural verification.
pub uninterp spec fn ctx_checked(ctx: cranelift::codegen::Context) -> bool;

/// Relies on cranelift `JITBuilder::new` and `JITModule::new`: an
/// in-memory compilation unit for the host, whose unresolved symbols are
/// looked up in the running process. Fails when the host's instruction
/// set cannot be configured, and aborts on one cranelift does not know.
#[verifier::external_body]
pub(crate) fn w_new_module() -> (r: Result<cranelift_jit::JITModule, String>)
{
    match cranelift_jit::JITBuilder::new(cranelift_module::default_libcall_names()) {
        Ok(b) => Ok(cranelift_jit::JITModule::new(b)),
        Err(e) => Err(e.to_string()),
    }
}

/// Relies on cranelift `Module::make_context`: a cleared context holding a
/// fresh, empty function.
#[verifier::external_body]
pub(crate) fn w_make_context(m: &cranelift_jit::JITModule) -> (r: cranelift::codegen::Context)
{
    m.make_context()
}

/// Relies on cranelift `FunctionBuilderContext::new`: a fresh, clean
/// builder context.
#[verifier::external_body]
pub(crate) fn w_new_fbc() -> (r: cranelift::frontend::FunctionBuilderContext)
    ensures
        fbc_clean(r),
{
    cranelift::frontend::FunctionBuilderContext::new()
}

/// Relies on cranelift `DataDescription::new`: an empty data
/// descriptor, ready for a definition.
#[verifier::external_body]
pub(crate) fn w_new_data_desc() -> (r: cranelift_module::DataDescription)
    ensures
        data_ready(r),
{
    cranelift_module::DataDescription::new()
}

/// Relies on cranelift `Signature::returns`: appends one word-sized return
/// value to the context's function signature.
#[verifier::external_body]
pub(crate) fn w_push_ret_i64(ctx: &mut cranelift::codegen::Context)
{
    ctx.func.signature.returns.push(cranelift::prelude::AbiParam::new(
        cranelift::prelude::types::I64,
    ));
}

/// Relies on cranelift `FunctionBuilder::new`: wraps the context's freshly
/// created function, on which no request has been made yet. The builder
/// context must be clean, as cranelift demands of a new builder.
#[verifier::external_body]
pub(crate) fn w_new_builder<'a>(
    ctx: &'a mut cranelift::codegen::Context,
    fbc: &'a mut cranelift::frontend::FunctionBuilderContext,
) -> (r: cranelift::frontend::FunctionBuilder<'a>)
    requires
        fbc_clean(*old(fbc)),
    ensures
        fb_trace(r) == Seq::<TAct>::empty(),
{
    cranelift::frontend::FunctionBuilder::new(&mut ctx.func, fbc)
}

/// Relies on cranelift `FunctionBuilder::create_block`: creates one fresh
/// basic block — one the log has not seen — and returns its reference.
#[verifier::external_body]
pub(crate) fn w_create_block(b: &mut cranelift::frontend::FunctionBuilder) -> (r: u32)
    ensures
        fb_trace(*final(b)) == fb_trace(*old(b)).push(TAct::CreateBlock(r)),
        !trace_st(fb_trace(*old(b))).created.contains(r),
{
    b.create_block().as_u32()
}

/// Relies on cranelift
/// `FunctionBuilder::append_block_params_for_function_params`: the block
/// must exist, hold no instruction yet, and have no recorded
/// predecessor, as cranelift asserts.
#[verifier::external_body]
pub(crate) fn w_func_params(b: &mut cranelift::frontend::FunctionBuilder, blk: u32)
    requires
        trace_st(fb_trace(*old(b))).pristine(blk),
        !trace_st(fb_trace(*old(b))).preded.contains(blk),
    ensures
        fb_trace(*final(b)) == fb_trace(*old(b)).push(TAct::FuncParams(blk)),
{
    b.append_block_params_for_function_params(cranelift::prelude::Block::from_u32(blk));
}

/// Relies on cranelift `FunctionBuilder::switch_to_block`: emission
/// continues in the named block. The block left behind must be pristine
/// or ended with a terminator, and the target must exist and not be
/// filled, as cranelift asserts.
#[verifier::external_body]
pub(crate) fn w_switch_to_block(b: &mut cranelift::frontend::FunctionBuilder, blk: u32)
    requires
        trace_st(fb_trace(*old(b))).may_leave(),
        trace_st(fb_trace(*old(b))).created.contains(blk),
        !trace_st(fb_trace(*old(b))).filled.contains(blk),
    ensures
        fb_trace(*final(b)) == fb_trace(*old(b)).push(TAct::SwitchTo(blk)),
{
    b.switch_to_block(cranelift::prelude::Block::from_u32(blk));
}

/// Relies on cranelift `FunctionBuilder::seal_block`: declares all
/// predecessors of the block known, fixing its parameter bindings. The
/// block must exist and not be sealed already, as cranelift asserts.
#[verifier::external_body]
pub(crate) fn w_seal_block(b: &mut cranelift::frontend::FunctionBuilder, blk: u32)
    requires
        trace_st(fb_trace(*old(b))).created.contains(blk),
        !trace_st(fb_trace(*old(b))).sealed.contains(blk),
    ensures
        fb_trace(*final(b)) == fb_trace(*old(b)).push(TAct::Seal(blk)),
{
    b.seal_block(cranelift::prelude::Block::from_u32(blk));
}

/// Relies on cranelift `FunctionBuilder::append_block_param`: appends one
/// typed parameter to a block and returns the value that stands for it.
/// The block must exist (a stray index aborts in the data-flow graph)
/// and hold no instruction yet, as cranelift asserts.
#[verifier::external_body]
pub(crate) fn w_append_block_param(
    b: &mut cranelift::frontend::FunctionBuilder,
    blk: u32,
    ty: TyCode,
) -> (r: u32)
    requires
        trace_st(fb_trace(*old(b))).pristine(blk),
    ensures
        fb_trace(*final(b)) == fb_trace(*old(b)).push(TAct::BlockParam(blk, ty, r)),
{
    let cty = match ty {
        TyCode::I64 => cranelift::prelude::types::I64,
        TyCode::I8 => cranelift::prelude::types::I8,
        TyCode::F64 => cranelift::prelude::types::F64,
    };
    b.append_block_param(cranelift::prelude::Block::from_u32(blk), cty).as_u32()
}

/// Relies on cranelift `FunctionBuilder::declare_var`: declares a fresh
/// typed storage slot and returns its reference.
#[verifier::external_body]
pub(crate) fn w_declare_var(b: &mut cranelift::frontend::FunctionBuilder, ty: TyCode) -> (r: u32)
    ensures
        fb_trace(*final(b)) == fb_trace(*old(b)).push(TAct::DeclareVar(ty, r)),
{
    let cty = match ty {
        TyCode::I64 => cranelift::prelude::types::I64,
        TyCode::I8 => cranelift::prelude::types::I8,
        TyCode::F64 => cranelift::prelude::types::F64,
    };
    b.declare_var(cty).as_u32()
}

/// Relies on cranelift `FunctionBuilder::try_def_var`: binds the slot to
/// the value; fails instead of aborting when the slot is unknown or the
/// types disagree. A block must be current (the definition is recorded
/// at the current position) and the value must be one the log has
/// handed out (a stray index aborts in the data-flow graph).
#[verifier::external_body]
pub(crate) fn w_def_var(
    b: &mut cranelift::frontend::FunctionBuilder,
    var: u32,
    val: u32,
) -> (r: Result<(), String>)
    requires
        trace_open(fb_trace(*old(b))),
        trace_st(fb_trace(*old(b))).vals.contains(val),
    ensures
        r is Ok ==> fb_trace(*final(b)) == fb_trace(*old(b)).push(TAct::DefVar(var, val)),
        r is Err ==> fb_trace(*final(b)) == fb_trace(*old(b)),
{
    match b.try_def_var(
        cranelift::frontend::Variable::from_u32(var),
        cranelift::prelude::Value::from_u32(val),
    ) {
        Ok(()) => Ok(()),
        Err(e) => Err(format!("{e}")),
    }
}

/// Relies on cranelift `FunctionBuilder::try_use_var`: reads the slot's
/// current value; fails instead of aborting when the slot is unknown. A
/// read before any write materializes a default zero value, as
/// cranelift defines.
#[verifier::external_body]
pub(crate) fn w_use_var(
    b: &mut cranelift::frontend::FunctionBuilder,
    var: u32,
) -> (r: Result<u32, String>)
    requires
        trace_open(fb_trace(*old(b))),
    ensures
        r matches Ok(v) ==> fb_trace(*final(b)) == fb_trace(*old(b)).push(TAct::UseVar(var, v)),
        r is Err ==> fb_trace(*final(b)) == fb_trace(*old(b)),
{
    match b.try_use_var(cranelift::frontend::Variable::from_u32(var)) {
        Ok(v) => Ok(v.as_u32()),
        Err(e) => Err(format!("{e}")),
    }
}

/// Relies on cranelift `InstBuilder::iconst`: materializes an integer
/// immediate of the given integer type.
#[verifier::external_body]
pub(crate) fn w_iconst(
    b: &mut cranelift::frontend::FunctionBuilder,
    ty: TyCode,
    imm: i64,
) -> (r: u32)
    requires
        trace_open(fb_trace(*old(b))),
        ty != TyCode::F64,
    ensures
        fb_trace(*final(b)) == fb_trace(*old(b)).push(TAct::IConst(ty, imm, r)),
{
    let cty = match ty {
        TyCode::I64 => cranelift::prelude::types::I64,
        TyCode::I8 => cranelift::prelude::types::I8,
        TyCode::F64 => cranelift::prelude::types::F64,
    };
    b.ins().iconst(cty, imm).as_u32()
}

/// Relies on cranelift `InstBuilder::f64const` and `Ieee64::with_bits`:
/// materializes the 64-bit float immediate with the given bit pattern.
#[verifier::external_body]
pub(crate) fn w_f64const(b: &mut cranelift::frontend::FunctionBuilder, bits: u64) -> (r: u32)
    requires
        trace_open(fb_trace(*old(b))),
    ensures
        fb_trace(*final(b)) == fb_trace(*old(b)).push(TAct::F64Const(bits, r)),
{
    b.ins().f64const(cranelift::prelude::Ieee64::with_bits(bits)).as_u32()
}

/// Relies on cranelift `InstBuilder::brif`: branches to the first block
/// when the condition value is nonzero, to the second when it is zero.
/// The targets must exist and not be sealed (a branch into a sealed
/// block is refused by the SSA builder).
#[verifier::external_body]
pub(crate) fn w_brif(
    b: &mut cranelift::frontend::FunctionBuilder,
    cond: u32,
    then_blk: u32,
    else_blk: u32,
)
    requires
        trace_open(fb_trace(*old(b))),
        trace_st(fb_trace(*old(b))).vals.contains(cond),
        trace_st(fb_trace(*old(b))).created.contains(then_blk),
        trace_st(fb_trace(*old(b))).created.contains(else_blk),
        !trace_st(fb_trace(*old(b))).sealed.contains(then_blk),
        !trace_st(fb_trace(*old(b))).sealed.contains(else_blk),
    ensures
        fb_trace(*final(b)) == fb_trace(*old(b)).push(TAct::Brif(cond, then_blk, else_blk)),
{
    b.ins().brif(
        cranelift::prelude::Value::from_u32(cond),
        cranelift::prelude::Block::from_u32(then_blk),
        &[],
        cranelift::prelude::Block::from_u32(else_blk),
        &[],
    );
}

/// Relies on cranelift `InstBuilder::jump` with no block arguments. The
/// target must exist and not be sealed.
#[verifier::external_body]
pub(crate) fn w_jump0(b: &mut cranelift::frontend::FunctionBuilder, blk: u32)
    requires
        trace_open(fb_trace(*old(b))),
        trace_st(fb_trace(*old(b))).created.contains(blk),
        !trace_st(fb_trace(*old(b))).sealed.contains(blk),
    ensures
        fb_trace(*final(b)) == fb_trace(*old(b)).push(TAct::Jump0(blk)),
{
    b.ins().jump(cranelift::prelude::Block::from_u32(blk), &[]);
}

/// Relies on cranelift `InstBuilder::jump` with one block argument. The
/// target must exist and not be sealed; the argument must be a value
/// the log handed out.
#[verifier::external_body]
pub(crate) fn w_jump1(b: &mut cranelift::frontend::FunctionBuilder, blk: u32, arg: u32)
    requires
        trace_open(fb_trace(*old(b))),
        trace_st(fb_trace(*old(b))).created.contains(blk),
        !trace_st(fb_trace(*old(b))).sealed.contains(blk),
        trace_st(fb_trace(*old(b))).vals.contains(arg),
    ensures
        fb_trace(*final(b)) == fb_trace(*old(b)).push(TAct::Jump1(blk, arg)),
{
    b.ins().jump(
        cranelift::prelude::Block::from_u32(blk),
        &[cranelift::prelude::Value::from_u32(arg).into()],
    );
}

/// Relies on cranelift `InstBuilder::return_` with one return value,
/// which must be a value the log handed out.
#[verifier::external_body]
pub(crate) fn w_ret(b: &mut cranelift::frontend::FunctionBuilder, val: u32)
    requires
        trace_open(fb_trace(*old(b))),
        trace_st(fb_trace(*old(b))).vals.contains(val),
    ensures
        fb_trace(*final(b)) == fb_trace(*old(b)).push(TAct::Ret(val)),
{
    b.ins().return_(&[cranelift::prelude::Value::from_u32(val)]);
}

/// Relies on cranelift `InstBuilder::iadd`: 64-bit integer addition,
/// wrapping on overflow. Operands must be values the log handed out:
/// the builder reads their type, and a stray index aborts. The same
/// holds for every instruction wrapper below.
#[verifier::external_body]
pub(crate) fn w_iadd(b: &mut cranelift::frontend::FunctionBuilder, l: u32, r: u32) -> (v: u32)
    requires
        trace_open(fb_trace(*old(b))),
        trace_st(fb_trace(*old(b))).vals.contains(l),
        trace_st(fb_trace(*old(b))).vals.contains(r),
    ensures
        fb_trace(*final(b)) == fb_trace(*old(b)).push(
            TAct::Bin(BinOpc::IAdd, l, r, v),
        ),
{
    b.ins().iadd(
        cranelift::prelude::Value::from_u32(l),
        cranelift::prelude::Value::from_u32(r),
    ).as_u32()
}

/// Relies on cranelift `InstBuilder::isub`: 64-bit integer subtraction,
/// wrapping on overflow.
#[verifier::external_body]
pub(crate) fn w_isub(b: &mut cranelift::frontend::FunctionBuilder, l: u32, r: u32) -> (v: u32)
    requires
        trace_open(fb_trace(*old(b))),
        trace_st(fb_trace(*old(b))).vals.contains(l),
        trace_st(fb_trace(*old(b))).vals.contains(r),
    ensures
        fb_trace(*final(b)) == fb_trace(*old(b)).push(
            TAct::Bin(BinOpc::ISub, l, r, v),
        ),
{
    b.ins().isub(
        cranelift::prelude::Value::from_u32(l),
        cranelift::prelude::Value::from_u32(r),
    ).as_u32()
}

/// Relies on cranelift `InstBuilder::imul`: 64-bit integer
/// multiplication, wrapping on overflow.
#[verifier::external_body]
pub(crate) fn w_imul(b: &mut cranelift::frontend::FunctionBuilder, l: u32, r: u32) -> (v: u32)
    requires
        trace_open(fb_trace(*old(b))),
        trace_st(fb_trace(*old(b))).vals.contains(l),
        trace_st(fb_trace(*old(b))).vals.contains(r),
    ensures
        fb_trace(*final(b)) == fb_trace(*old(b)).push(
            TAct::Bin(BinOpc::IMul, l, r, v),
        ),
{
    b.ins().imul(
        cranelift::prelude::Value::from_u32(l),
        cranelift::prelude::Value::from_u32(r),
    ).as_u32()
}

/// Relies on cranelift `InstBuilder::udiv`: unsigned 64-bit integer
/// division; the generated code traps on a zero divisor.
#[verifier::external_body]
pub(crate) fn w_udiv(b: &mut cranelift::frontend::FunctionBuilder, l: u32, r: u32) -> (v: u32)
    requires
        trace_open(fb_trace(*old(b))),
        trace_st(fb_trace(*old(b))).vals.contains(l),
        trace_st(fb_trace(*old(b))).vals.contains(r),
    ensures
        fb_trace(*final(b)) == fb_trace(*old(b)).push(
            TAct::Bin(BinOpc::UDiv, l, r, v),
        ),
{
    b.ins().udiv(
        cranelift::prelude::Value::from_u32(l),
        cranelift::prelude::Value::from_u32(r),
    ).as_u32()
}

/// Relies on cranelift `InstBuilder::fadd`: 64-bit float addition.
#[verifier::external_body]
pub(crate) fn w_fadd(b: &mut cranelift::frontend::FunctionBuilder, l: u32, r: u32) -> (v: u32)
    requires
        trace_open(fb_trace(*old(b))),
        trace_st(fb_trace(*old(b))).vals.contains(l),
        trace_st(fb_trace(*old(b))).vals.contains(r),
    ensures
        fb_trace(*final(b)) == fb_trace(*old(b)).push(
            TAct::Bin(BinOpc::FAdd, l, r, v),
        ),
{
    b.ins().fadd(
        cranelift::prelude::Value::from_u32(l),
        cranelift::prelude::Value::from_u32(r),
    ).as_u32()
}

/// Relies on cranelift `InstBuilder::fsub`: 64-bit float subtraction.
#[verifier::external_body]
pub(crate) fn w_fsub(b: &mut cranelift::frontend::FunctionBuilder, l: u32, r: u32) -> (v: u32)
    requires
        trace_open(fb_trace(*old(b))),
        trace_st(fb_trace(*old(b))).vals.contains(l),
        trace_st(fb_trace(*old(b))).vals.contains(r),
    ensures
        fb_trace(*final(b)) == fb_trace(*old(b)).push(
            TAct::Bin(BinOpc::FSub, l, r, v),
        ),
{
    b.ins().fsub(
        cranelift::prelude::Value::from_u32(l),
        cranelift::prelude::Value::from_u32(r),
    ).as_u32()
}

/// Relies on cranelift `InstBuilder::fmul`: 64-bit float multiplication.
#[verifier::external_body]
pub(crate) fn w_fmul(b: &mut cranelift::frontend::FunctionBuilder, l: u32, r: u32) -> (v: u32)
    requires
        trace_open(fb_trace(*old(b))),
        trace_st(fb_trace(*old(b))).vals.contains(l),
        trace_st(fb_trace(*old(b))).vals.contains(r),
    ensures
        fb_trace(*final(b)) == fb_trace(*old(b)).push(
            TAct::Bin(BinOpc::FMul, l, r, v),
        ),
{
    b.ins().fmul(
        cranelift::prelude::Value::from_u32(l),
        cranelift::prelude::Value::from_u32(r),
    ).as_u32()
}

/// Relies on cranelift `InstBuilder::fdiv`: 64-bit float division.
#[verifier::external_body]
pub(crate) fn w_fdiv(b: &mut cranelift::frontend::FunctionBuilder, l: u32, r: u32) -> (v: u32)
    requires
        trace_open(fb_trace(*old(b))),
        trace_st(fb_trace(*old(b))).vals.contains(l),
        trace_st(fb_trace(*old(b))).vals.contains(r),
    ensures
        fb_trace(*final(b)) == fb_trace(*old(b)).push(
            TAct::Bin(BinOpc::FDiv, l, r, v),
        ),
{
    b.ins().fdiv(
        cranelift::prelude::Value::from_u32(l),
        cranelift::prelude::Value::from_u32(r),
    ).as_u32()
}

/// Relies on cranelift `InstBuilder::icmp`: integer comparison under the
/// named condition, yielding a byte-sized 0-or-1 value.
#[verifier::external_body]
pub(crate) fn w_icmp(
    b: &mut cranelift::frontend::FunctionBuilder,
    cc: IntCond,
    l: u32,
    r: u32,
) -> (v: u32)
    requires
        trace_open(fb_trace(*old(b))),
        trace_st(fb_trace(*old(b))).vals.contains(l),
        trace_st(fb_trace(*old(b))).vals.contains(r),
    ensures
        fb_trace(*final(b)) == fb_trace(*old(b)).push(
            TAct::Bin(BinOpc::ICmp(cc), l, r, v),
        ),
{
    let ccc = match cc {
        IntCond::Eq => cranelift::prelude::IntCC::Equal,
        IntCond::Ne => cranelift::prelude::IntCC::NotEqual,
        IntCond::Sgt => cranelift::prelude::IntCC::SignedGreaterThan,
        IntCond::Slt => cranelift::prelude::IntCC::SignedLessThan,
        IntCond::Sge => cranelift::prelude::IntCC::SignedGreaterThanOrEqual,
        IntCond::Sle => cranelift::prelude::IntCC::SignedLessThanOrEqual,
    };
    b.ins().icmp(
        ccc,
        cranelift::prelude::Value::from_u32(l),
        cranelift::prelude::Value::from_u32(r),
    ).as_u32()
}

/// Relies on cranelift `InstBuilder::fcmp`: float comparison under the
/// named condition, yielding a byte-sized 0-or-1 value.
#[verifier::external_body]
pub(crate) fn w_fcmp(
    b: &mut cranelift::frontend::FunctionBuilder,
    cc: FloatCond,
    l: u32,
    r: u32,
) -> (v: u32)
    requires
        trace_open(fb_trace(*old(b))),
        trace_st(fb_trace(*old(b))).vals.contains(l),
        trace_st(fb_trace(*old(b))).vals.contains(r),
    ensures
        fb_trace(*final(b)) == fb_trace(*old(b)).push(
            TAct::Bin(BinOpc::FCmp(cc), l, r, v),
        ),
{
    let ccc = match cc {
        FloatCond::Eq => cranelift::prelude::FloatCC::Equal,
        FloatCond::Ne => cranelift::prelude::FloatCC::NotEqual,
        FloatCond::Gt => cranelift::prelude::FloatCC::GreaterThan,
        FloatCond::Lt => cranelift::prelude::FloatCC::LessThan,
        FloatCond::Ge => cranelift::prelude::FloatCC::GreaterThanOrEqual,
        FloatCond::Le => cranelift::prelude::FloatCC::LessThanOrEqual,
    };
    b.ins().fcmp(
        ccc,
        cranelift::prelude::Value::from_u32(l),
        cranelift::prelude::Value::from_u32(r),
    ).as_u32()
}

/// Relies on cranelift `Module::declare_anonymous_data`,
/// `DataDescription::define`, `Module::define_data`,
/// `Module::declare_data_in_func` and `InstBuilder::symbol_value`: the
/// fixed sequence that places one immutable anonymous data
/// blob holding exactly the given bytes and yields its address as a
/// word-sized value. The descriptor must be ready (`define` asserts an
/// uninitialized one) and is left cleared, hence ready, on every path.
/// The builder is untouched when the module refuses the blob.
#[verifier::external_body]
pub(crate) fn w_str_data(
    b: &mut cranelift::frontend::FunctionBuilder,
    m: &mut cranelift_jit::JITModule,
    d: &mut cranelift_module::DataDescription,
    bytes: &Vec<u8>,
) -> (r: Result<u32, String>)
    requires
        trace_open(fb_trace(*old(b))),
        data_ready(*old(d)),
    ensures
        data_ready(*final(d)),
        r matches Ok(v) ==> fb_trace(*final(b)) == fb_trace(*old(b)).push(
            TAct::StrBytes(bytes@, v),
        ),
        r is Err ==> fb_trace(*final(b)) == fb_trace(*old(b)),
{
    let id = match m.declare_anonymous_data(false, false) {
        Ok(id) => id,
        Err(e) => return Err(e.to_string()),
    };
    d.define(bytes.clone().into_boxed_slice());
    if let Err(e) = m.define_data(id, d) {
        d.clear();
        return Err(e.to_string());
    }
    d.clear();
    let gv = m.declare_data_in_func(id, b.func);
    Ok(b.ins().symbol_value(cranelift::prelude::types::I64, gv).as_u32())
}

/// Relies on cranelift `Module::make_signature`,
/// `Module::declare_function` (import named "puts", one word parameter,
/// one word return), `Module::declare_func_in_func` and
/// `InstBuilder::call`: the fixed sequence for one call to the
/// process's `puts` routine; yields the call's result value. The builder
/// is untouched when the module refuses the declaration.
#[verifier::external_body]
pub(crate) fn w_call_puts(
    b: &mut cranelift::frontend::FunctionBuilder,
    m: &mut cranelift_jit::JITModule,
    arg: u32,
) -> (r: Result<u32, String>)
    requires
        trace_open(fb_trace(*old(b))),
        trace_st(fb_trace(*old(b))).vals.contains(arg),
    ensures
        r matches Ok(v) ==> fb_trace(*final(b)) == fb_trace(*old(b)).push(
            TAct::CallPuts(arg, v),
        ),
        r is Err ==> fb_trace(*final(b)) == fb_trace(*old(b)),
{
    let mut sig = m.make_signature();
    sig.params.push(cranelift::prelude::AbiParam::new(cranelift::prelude::types::I64));
    sig.returns.push(cranelift::prelude::AbiParam::new(cranelift::prelude::types::I64));
    let callee = match m.declare_function("puts", cranelift_module::Linkage::Import, &sig) {
        Ok(id) => id,
        Err(e) => return Err(e.to_string()),
    };
    let local = m.declare_func_in_func(callee, b.func);
    let call = b.ins().call(local, &[cranelift::prelude::Value::from_u32(arg)]);
    Ok(b.inst_results(call)[0].as_u32())
}

/// Relies on the same cranelift sequence as `w_call_puts`, for one call
/// to the process's `printf` routine declared with two word parameters
/// and one word return; the first argument is the format string's
/// address, the second the word value to print.
#[verifier::external_body]
pub(crate) fn w_call_printf_int(
    b: &mut cranelift::frontend::FunctionBuilder,
    m: &mut cranelift_jit::JITModule,
    fmt: u32,
    arg: u32,
) -> (r: Result<u32, String>)
    requires
        trace_open(fb_trace(*old(b))),
        trace_st(fb_trace(*old(b))).vals.contains(fmt),
        trace_st(fb_trace(*old(b))).vals.contains(arg),
    ensures
        r matches Ok(v) ==> fb_trace(*final(b)) == fb_trace(*old(b)).push(
            TAct::CallPrintfInt(fmt, arg, v),
        ),
        r is Err ==> fb_trace(*final(b)) == fb_trace(*old(b)),
{
    let mut sig = m.make_signature();
    sig.params.push(cranelift::prelude::AbiParam::new(cranelift::prelude::types::I64));
    sig.params.push(cranelift::prelude::AbiParam::new(cranelift::prelude::types::I64));
    sig.returns.push(cranelift::prelude::AbiParam::new(cranelift::prelude::types::I64));
    let callee = match m.declare_function("printf", cranelift_module::Linkage::Import, &sig) {
        Ok(id) => id,
        Err(e) => return Err(e.to_string()),
    };
    let local = m.declare_func_in_func(callee, b.func);
    let call = b.ins().call(local, &[
        cranelift::prelude::Value::from_u32(fmt),
        cranelift::prelude::Value::from_u32(arg),
    ]);
    Ok(b.inst_results(call)[0].as_u32())
}

/// Relies on the same cranelift sequence as `w_call_puts`, for one call
/// to the process's `printf` routine declared with a word parameter, a
/// 64-bit float parameter and one word return.
#[verifier::external_body]
pub(crate) fn w_call_printf_float(
    b: &mut cranelift::frontend::FunctionBuilder,
    m: &mut cranelift_jit::JITModule,
    fmt: u32,
    arg: u32,
) -> (r: Result<u32, String>)
    requires
        trace_open(fb_trace(*old(b))),
        trace_st(fb_trace(*old(b))).vals.contains(fmt),
        trace_st(fb_trace(*old(b))).vals.contains(arg),
    ensures
        r matches Ok(v) ==> fb_trace(*final(b)) == fb_trace(*old(b)).push(
            TAct::CallPrintfFloat(fmt, arg, v),
        ),
        r is Err ==> fb_trace(*final(b)) == fb_trace(*old(b)),
{
    let mut sig = m.make_signature();
    sig.params.push(cranelift::prelude::AbiParam::new(cranelift::prelude::types::I64));
    sig.params.push(cranelift::prelude::AbiParam::new(cranelift::prelude::types::F64));
    sig.returns.push(cranelift::prelude::AbiParam::new(cranelift::prelude::types::I64));
    let callee = match m.declare_function("printf", cranelift_module::Linkage::Import, &sig) {
        Ok(id) => id,
        Err(e) => return Err(e.to_string()),
    };
    let local = m.declare_func_in_func(callee, b.func);
    let call = b.ins().call(local, &[
        cranelift::prelude::Value::from_u32(fmt),
        cranelift::prelude::Value::from_u32(arg),
    ]);
    Ok(b.inst_results(call)[0].as_u32())
}

/// Relies on cranelift `FunctionBuilder::finalize`: declares translation
/// of the function complete. Every block that received an instruction
/// must have ended with a terminator and been sealed, as cranelift
/// asserts; finalization resets the builder context behind the builder,
/// leaving it clean for a later builder.
#[verifier::external_body]
pub(crate) fn w_finalize_builder(
    b: cranelift::frontend::FunctionBuilder,
    m: &cranelift_jit::JITModule,
)
    requires
        trace_closed(fb_trace(b)),
{
    b.finalize(m.target_config());
}

/// Relies on cranelift `codegen::verify_function` under default settings:
/// checks the generated function for structural well-formedness, reading
/// the context without changing it.
#[verifier::external_body]
pub(crate) fn w_verify_func(ctx: &mut cranelift::codegen::Context) -> (r: Result<(), String>)
    ensures
        *final(ctx) == *old(ctx),
        r is Ok ==> ctx_checked(*final(ctx)),
{
    let flags = cranelift::prelude::settings::Flags::new(
        cranelift::prelude::settings::builder(),
    );
    match cranelift::codegen::verify_function(&ctx.func, &flags) {
        Ok(()) => Ok(()),
        Err(e) => Err(format!("{e:#?}")),
    }
}

/// Relies on the `Display` rendering of a cranelift function: the textual
/// listing of the generated instructions, for diagnostics.
#[verifier::external_body]
pub(crate) fn w_func_text(ctx: &cranelift::codegen::Context) -> (r: String)
{
    format!("{}", ctx.func)
}

/// Relies on cranelift `Module::declare_function`: declares the finished
/// function as the exported "main"-equivalent entry under the context's
/// signature, returning its identifier.
#[verifier::external_body]
pub(crate) fn w_declare_main(
    m: &mut cranelift_jit::JITModule,
    ctx: &cranelift::codegen::Context,
) -> (r: Result<u32, String>)
{
    match m.declare_function("main", cranelift_module::Linkage::Export, &ctx.func.signature) {
        Ok(id) => Ok(id.as_u32()),
        Err(e) => Err(e.to_string()),
    }
}

/// Relies on cranelift `Module::define_function`: hands the generated
/// function body to the module for compilation. The function must have
/// passed structural verification; code generation of a malformed
/// function can abort rather than err.
#[verifier::external_body]
pub(crate) fn w_define_function(
    m: &mut cranelift_jit::JITModule,
    id: u32,
    ctx: &mut cranelift::codegen::Context,
) -> (r: Result<(), String>)
    requires
        ctx_checked(*old(ctx)),
{
    match m.define_function(cranelift_module::FuncId::from_u32(id), ctx) {
        Ok(()) => Ok(()),
        Err(e) => Err(e.to_string()),
    }
}

/// Relies on cranelift `Module::clear_context`.
#[verifier::external_body]
pub(crate) fn w_clear_context(
    m: &cranelift_jit::JITModule,
    ctx: &mut cranelift::codegen::Context,
)
{
    m.clear_context(ctx);
}

/// Relies on cranelift `JITModule::finalize_definitions`: performs
/// relocations and makes the compiled code executable.
#[verifier::external_body]
pub(crate) fn w_finalize_definitions(m: &mut cranelift_jit::JITModule) -> (r: Result<(), String>)
{
    match m.finalize_definitions() {
        Ok(()) => Ok(()),
        Err(e) => Err(e.to_string()),
    }
}

} // verus!
