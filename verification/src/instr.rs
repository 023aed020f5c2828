//! Core-wasm instructions as plain data.

use vstd::prelude::*;

use crate::ir::List;

verus! {

/// Wasm value types the backend uses.
#[derive(Clone, Copy, Debug, PartialEq, Eq, Structural)]
pub enum ValType {
    I32,
    I64,
    F32,
    F64,
}

/// Immediate of a load or a store. `align` is the base-two logarithm of the
/// alignment hint.
#[derive(Clone, Copy, Debug, PartialEq, Eq, Structural)]
pub struct MemArg {
    pub offset: u64,
    pub align: u32,
    pub memory_index: u32,
}

/// Type of a structured block.
#[derive(Clone, Copy, Debug, PartialEq, Eq, Structural)]
pub enum BlockType {
    Empty,
    Result(ValType),
}

/// Integer operations, shared by both widths.
#[derive(Clone, Copy, Debug, PartialEq, Eq, Structural)]
pub enum IntOp {
    Add,
    Sub,
    Mul,
    DivS,
    RemS,
    Eq,
    Ne,
    LtS,
    GtS,
    LeS,
    GeS,
}

/// Operations used on `i32` only: bit tests and unsigned order.
#[derive(Clone, Copy, Debug, PartialEq, Eq, Structural)]
pub enum I32Op {
    And,
    Or,
    Eqz,
    GeU,
    GtU,
}

/// Float operations, shared by both widths.
#[derive(Clone, Copy, Debug, PartialEq, Eq, Structural)]
pub enum FloatOp {
    Add,
    Sub,
    Mul,
    Div,
    Eq,
    Ne,
    Lt,
    Gt,
    Le,
    Ge,
    Neg,
}

/// Memory reads.
#[derive(Clone, Copy, Debug, PartialEq, Eq, Structural)]
pub enum LoadOp {
    I32,
    I32Byte,
    I64,
    F32,
    F64,
}

/// Memory writes.
#[derive(Clone, Copy, Debug, PartialEq, Eq, Structural)]
pub enum StoreOp {
    I32,
    I32Byte,
    I64,
    F32,
    F64,
}

/// One instruction. Float constants are held as bit patterns.
#[derive(Debug, PartialEq, Eq)]
pub enum Instr {
    Unreachable,
    Block(BlockType),
    Loop(BlockType),
    If(BlockType),
    Else,
    End,
    Br(u32),
    BrIf(u32),
    BrTable { targets: List<u32>, default: u32 },
    Return,
    Call(u32),
    CallIndirect { table_index: u32, type_index: u32 },
    Drop,
    LocalGet(u32),
    LocalSet(u32),
    LocalTee(u32),
    GlobalGet(u32),
    GlobalSet(u32),
    I32Const(i32),
    I64Const(i64),
    F32Const(u32),
    F64Const(u64),
    Load(LoadOp, MemArg),
    Store(StoreOp, MemArg),
    MemoryCopy { src_mem: u32, dst_mem: u32 },
    I32(IntOp),
    I32Bits(I32Op),
    I64(IntOp),
    F32(FloatOp),
    F64(FloatOp),
}

} // verus!
