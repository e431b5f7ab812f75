//! The code-generation action alphabet.
//!
//! The backend does not hand native instructions around directly: the
//! translation of an IR program is described as a sequence of *actions*,
//! each of which corresponds to exactly one request made of the native
//! code generator (create a block, seal it, emit one instruction, define
//! one data blob, emit one runtime output call). `Act` is the executable
//! form, whose operands are the library's own dense indices; `TAct` is the
//! specification-level form recorded by the backend wrappers, whose
//! operands are the indices the code generator itself handed back.

use vstd::prelude::*;

verus! {

/// The native type codes the backend uses: machine word, byte-sized
/// condition value, 64-bit float.
#[derive(Debug, Clone, Copy, PartialEq, Eq, Structural)]
pub enum TyCode {
    I64,
    I8,
    F64,
}

/// Integer comparison conditions. Ordering comparisons are signed.
#[derive(Debug, Clone, Copy, PartialEq, Eq, Structural)]
pub enum IntCond {
    Eq,
    Ne,
    Sgt,
    Slt,
    Sge,
    Sle,
}

/// Float comparison conditions.
#[derive(Debug, Clone, Copy, PartialEq, Eq, Structural)]
pub enum FloatCond {
    Eq,
    Ne,
    Gt,
    Lt,
    Ge,
    Le,
}

/// The binary instruction selected for an IR operator; integer division is
/// unsigned, integer ordering comparisons are signed.
#[derive(Debug, Clone, Copy, PartialEq, Eq, Structural)]
pub enum BinOpc {
    IAdd,
    ISub,
    IMul,
    UDiv,
    FAdd,
    FSub,
    FMul,
    FDiv,
    ICmp(IntCond),
    FCmp(FloatCond),
}

/// One code-generation action, with the library's own dense indices:
/// value results number 0, 1, 2, ... in order of creation, and so do
/// blocks, variables and string blobs (`StrData` carries an index into the
/// string table that accompanies an action program).
#[derive(Debug, Clone, Copy, PartialEq, Eq, Structural)]
pub enum Act {
    /// Create a new basic block.
    CreateBlock(u64),
    /// Append the enclosing function's parameters to the block.
    FuncParams(u64),
    /// Continue emission in the block.
    SwitchTo(u64),
    /// Declare that all predecessors of the block are known.
    Seal(u64),
    /// Append one typed parameter to the block; yields a value.
    BlockParam(u64, TyCode, u64),
    /// Declare a fresh storage slot of the given type.
    DeclareVar(TyCode, u64),
    /// Bind the slot to the value.
    DefVar(u64, u64),
    /// Read the slot's current value; yields a value.
    UseVar(u64, u64),
    /// Materialize an integer immediate of the given type.
    IConst(TyCode, i64, u64),
    /// Materialize a 64-bit float immediate from its bit pattern.
    F64Const(u64, u64),
    /// Materialize a string blob's address; the first index names the blob
    /// in the program's string table.
    StrData(u64, u64),
    /// One binary instruction over two prior values.
    Bin(BinOpc, u64, u64, u64),
    /// Conditional branch: to the first block if the condition value is
    /// nonzero, to the second if it is zero.
    Brif(u64, u64, u64),
    /// Unconditional jump passing no block arguments.
    Jump0(u64),
    /// Unconditional jump passing one block argument.
    Jump1(u64, u64),
    /// Call the linked `puts` routine; yields the call result.
    CallPuts(u64, u64),
    /// Call the linked `printf` routine with a format-string address and a
    /// word argument; yields the call result.
    CallPrintfInt(u64, u64, u64),
    /// Call the linked `printf` routine with a format-string address and a
    /// 64-bit float argument; yields the call result.
    CallPrintfFloat(u64, u64, u64),
    /// Return the value from the function.
    Ret(u64),
}

/// The specification-level record of one request made of the code
/// generator. Operands are the generator's own indices; a string blob is
/// recorded by its bytes.
pub enum TAct {
    CreateBlock(u32),
    FuncParams(u32),
    SwitchTo(u32),
    Seal(u32),
    BlockParam(u32, TyCode, u32),
    DeclareVar(TyCode, u32),
    DefVar(u32, u32),
    UseVar(u32, u32),
    IConst(TyCode, i64, u32),
    F64Const(u64, u32),
    StrBytes(Seq<u8>, u32),
    Bin(BinOpc, u32, u32, u32),
    Brif(u32, u32, u32),
    Jump0(u32),
    Jump1(u32, u32),
    CallPuts(u32, u32),
    CallPrintfInt(u32, u32, u32),
    CallPrintfFloat(u32, u32, u32),
    Ret(u32),
}

} // verus!
