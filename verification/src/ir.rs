//! The instruction shapes that the pass reads and writes.
//!
//! A function body is an arena of instructions addressed by `ExprId`. The pass
//! never looks at what an instruction computes: it reads which operands an
//! instruction has, and in which of a few ways it is charged. `Node` is that
//! reading as an executable value, `Shape` the same as a mathematical value, and
//! `Instr` a shape together with what the instruction holds besides operands:
//! what the pass writes into the instructions it creates, and the branch
//! targets and block types that it must leave as they are.

use vstd::prelude::*;
use walrus::ir::ExprId;
use walrus::{GlobalId, ValType};

verus! {

/// One instruction as read from a function body: its kind and the ids of its
/// operands. Branch targets are not operands and are left out; of a `br_table`
/// only the number of listed targets is kept.
#[derive(Debug)]
pub enum Node {
    Block { exprs: Vec<ExprId> },
    Call { args: Vec<ExprId> },
    CallIndirect { func: ExprId, args: Vec<ExprId> },
    LocalGet,
    LocalSet { value: ExprId },
    LocalTee { value: ExprId },
    GlobalGet,
    GlobalSet { value: ExprId },
    Const,
    Binop { lhs: ExprId, rhs: ExprId },
    Unop { expr: ExprId },
    Select { condition: ExprId, consequent: ExprId, alternative: ExprId },
    Unreachable,
    Br { args: Vec<ExprId> },
    BrIf { condition: ExprId, args: Vec<ExprId> },
    IfElse { condition: ExprId, consequent: ExprId, alternative: ExprId },
    BrTable { which: ExprId, targets: usize, args: Vec<ExprId> },
    Drop { expr: ExprId },
    Return { values: Vec<ExprId> },
    MemorySize,
    MemoryGrow { pages: ExprId },
    MemoryInit { memory_offset: ExprId, data_offset: ExprId, len: ExprId },
    DataDrop,
    MemoryCopy { dst_offset: ExprId, src_offset: ExprId, len: ExprId },
    MemoryFill { offset: ExprId, value: ExprId, len: ExprId },
    Load { address: ExprId },
    Store { address: ExprId, value: ExprId },
    AtomicRmw { address: ExprId, value: ExprId },
    Cmpxchg { address: ExprId, expected: ExprId, replacement: ExprId },
    AtomicNotify { address: ExprId, count: ExprId },
    AtomicWait { address: ExprId, expected: ExprId, timeout: ExprId },
    WithSideEffects { before: Vec<ExprId>, value: ExprId, after: Vec<ExprId> },
    TableGet { index: ExprId },
    TableSet { index: ExprId, value: ExprId },
    TableGrow { amount: ExprId, value: ExprId },
    TableSize,
    RefNull,
    RefIsNull { value: ExprId },
}

/// The mathematical value of a `Node`: operand lists are sequences, the target
/// count a natural number.
pub ghost enum Shape {
    Block { exprs: Seq<ExprId> },
    Call { args: Seq<ExprId> },
    CallIndirect { func: ExprId, args: Seq<ExprId> },
    LocalGet,
    LocalSet { value: ExprId },
    LocalTee { value: ExprId },
    GlobalGet,
    GlobalSet { value: ExprId },
    Const,
    Binop { lhs: ExprId, rhs: ExprId },
    Unop { expr: ExprId },
    Select { condition: ExprId, consequent: ExprId, alternative: ExprId },
    Unreachable,
    Br { args: Seq<ExprId> },
    BrIf { condition: ExprId, args: Seq<ExprId> },
    IfElse { condition: ExprId, consequent: ExprId, alternative: ExprId },
    BrTable { which: ExprId, targets: nat, args: Seq<ExprId> },
    Drop { expr: ExprId },
    Return { values: Seq<ExprId> },
    MemorySize,
    MemoryGrow { pages: ExprId },
    MemoryInit { memory_offset: ExprId, data_offset: ExprId, len: ExprId },
    DataDrop,
    MemoryCopy { dst_offset: ExprId, src_offset: ExprId, len: ExprId },
    MemoryFill { offset: ExprId, value: ExprId, len: ExprId },
    Load { address: ExprId },
    Store { address: ExprId, value: ExprId },
    AtomicRmw { address: ExprId, value: ExprId },
    Cmpxchg { address: ExprId, expected: ExprId, replacement: ExprId },
    AtomicNotify { address: ExprId, count: ExprId },
    AtomicWait { address: ExprId, expected: ExprId, timeout: ExprId },
    WithSideEffects { before: Seq<ExprId>, value: ExprId, after: Seq<ExprId> },
    TableGet { index: ExprId },
    TableSet { index: ExprId, value: ExprId },
    TableGrow { amount: ExprId, value: ExprId },
    TableSize,
    RefNull,
    RefIsNull { value: ExprId },
}

impl View for Node {
    type V = Shape;

    open spec fn view(&self) -> Shape {
        match *self {
            Node::Block { exprs } => Shape::Block { exprs: exprs@ },
            Node::Call { args } => Shape::Call { args: args@ },
            Node::CallIndirect { func, args } => Shape::CallIndirect { func, args: args@ },
            Node::LocalGet => Shape::LocalGet,
            Node::LocalSet { value } => Shape::LocalSet { value },
            Node::LocalTee { value } => Shape::LocalTee { value },
            Node::GlobalGet => Shape::GlobalGet,
            Node::GlobalSet { value } => Shape::GlobalSet { value },
            Node::Const => Shape::Const,
            Node::Binop { lhs, rhs } => Shape::Binop { lhs, rhs },
            Node::Unop { expr } => Shape::Unop { expr },
            Node::Select { condition, consequent, alternative } => Shape::Select {
                condition,
                consequent,
                alternative,
            },
            Node::Unreachable => Shape::Unreachable,
            Node::Br { args } => Shape::Br { args: args@ },
            Node::BrIf { condition, args } => Shape::BrIf { condition, args: args@ },
            Node::IfElse { condition, consequent, alternative } => Shape::IfElse {
                condition,
                consequent,
                alternative,
            },
            Node::BrTable { which, targets, args } => Shape::BrTable {
                which,
                targets: targets as nat,
                args: args@,
            },
            Node::Drop { expr } => Shape::Drop { expr },
            Node::Return { values } => Shape::Return { values: values@ },
            Node::MemorySize => Shape::MemorySize,
            Node::MemoryGrow { pages } => Shape::MemoryGrow { pages },
            Node::MemoryInit { memory_offset, data_offset, len } => Shape::MemoryInit {
                memory_offset,
                data_offset,
                len,
            },
            Node::DataDrop => Shape::DataDrop,
            Node::MemoryCopy { dst_offset, src_offset, len } => Shape::MemoryCopy {
                dst_offset,
                src_offset,
                len,
            },
            Node::MemoryFill { offset, value, len } => Shape::MemoryFill { offset, value, len },
            Node::Load { address } => Shape::Load { address },
            Node::Store { address, value } => Shape::Store { address, value },
            Node::AtomicRmw { address, value } => Shape::AtomicRmw { address, value },
            Node::Cmpxchg { address, expected, replacement } => Shape::Cmpxchg {
                address,
                expected,
                replacement,
            },
            Node::AtomicNotify { address, count } => Shape::AtomicNotify { address, count },
            Node::AtomicWait { address, expected, timeout } => Shape::AtomicWait {
                address,
                expected,
                timeout,
            },
            Node::WithSideEffects { before, value, after } => Shape::WithSideEffects {
                before: before@,
                value,
                after: after@,
            },
            Node::TableGet { index } => Shape::TableGet { index },
            Node::TableSet { index, value } => Shape::TableSet { index, value },
            Node::TableGrow { amount, value } => Shape::TableGrow { amount, value },
            Node::TableSize => Shape::TableSize,
            Node::RefNull => Shape::RefNull,
            Node::RefIsNull { value } => Shape::RefIsNull { value },
        }
    }
}

impl Shape {
    /// The operands of an instruction, in the order in which the analysis
    /// visits them. For a block these are the instructions of its body.
    pub open spec fn operands(self) -> Seq<ExprId> {
        match self {
            Shape::Block { exprs } => exprs,
            Shape::Call { args } => args,
            Shape::CallIndirect { func, args } => args.push(func),
            Shape::LocalGet => seq![],
            Shape::LocalSet { value } => seq![value],
            Shape::LocalTee { value } => seq![value],
            Shape::GlobalGet => seq![],
            Shape::GlobalSet { value } => seq![value],
            Shape::Const => seq![],
            Shape::Binop { lhs, rhs } => seq![lhs, rhs],
            Shape::Unop { expr } => seq![expr],
            Shape::Select { condition, consequent, alternative } => seq![
                alternative,
                consequent,
                condition,
            ],
            Shape::Unreachable => seq![],
            Shape::Br { args } => args,
            Shape::BrIf { condition, args } => args.push(condition),
            Shape::IfElse { condition, consequent, alternative } => seq![
                condition,
                consequent,
                alternative,
            ],
            Shape::BrTable { which, targets, args } => args.push(which),
            Shape::Drop { expr } => seq![expr],
            Shape::Return { values } => values,
            Shape::MemorySize => seq![],
            Shape::MemoryGrow { pages } => seq![pages],
            Shape::MemoryInit { memory_offset, data_offset, len } => seq![
                memory_offset,
                data_offset,
                len,
            ],
            Shape::DataDrop => seq![],
            Shape::MemoryCopy { dst_offset, src_offset, len } => seq![dst_offset, src_offset, len],
            Shape::MemoryFill { offset, value, len } => seq![offset, value, len],
            Shape::Load { address } => seq![address],
            Shape::Store { address, value } => seq![address, value],
            Shape::AtomicRmw { address, value } => seq![address, value],
            Shape::Cmpxchg { address, expected, replacement } => seq![
                address,
                expected,
                replacement,
            ],
            Shape::AtomicNotify { address, count } => seq![address, count],
            Shape::AtomicWait { address, expected, timeout } => seq![address, expected, timeout],
            Shape::WithSideEffects { before, value, after } => before.push(value) + after,
            Shape::TableGet { index } => seq![index],
            Shape::TableSet { index, value } => seq![index, value],
            Shape::TableGrow { amount, value } => seq![amount, value],
            Shape::TableSize => seq![],
            Shape::RefNull => seq![],
            Shape::RefIsNull { value } => seq![value],
        }
    }

    /// What an instruction charges for itself, its operands aside.
    ///
    /// The trap charges nothing, for it never completes. A side-effect wrapper
    /// is no instruction of its own. An `if`/`else` charges 3, a `br_table` 2
    /// and 1 more for each listed target. A block charges 1 to the scope that
    /// holds it. Everything else charges 1.
    pub open spec fn charge(self) -> nat {
        match self {
            Shape::Unreachable => 0,
            Shape::WithSideEffects { .. } => 0,
            Shape::IfElse { .. } => 3,
            Shape::BrTable { targets, .. } => 2 + targets,
            _ => 1,
        }
    }
}

/// What kind of block a block is.
pub ghost enum Frame {
    /// A plain `block`.
    Block,
    /// A `loop`.
    Loop,
    /// An arm of an `if`/`else`.
    IfElse,
    /// The entry block of a function.
    FunctionEntry,
}

/// What an instruction holds besides its operands, as far as the pass writes
/// it or must leave it alone. The pass reads none of it.
pub ghost enum Immediate {
    /// The global that a `global.get` or `global.set` names.
    Global(GlobalId),
    /// The value of an `i64.const`.
    I64(i64),
    /// The operator of a binary operation: 64-bit addition.
    I64Add,
    /// The operator of a binary operation: 64-bit signed less-than.
    I64LtS,
    /// The block that a `br` or a `br_if` branches to.
    Target(ExprId),
    /// The blocks that a `br_table` lists, and the one it branches to by
    /// default.
    Table { blocks: Seq<ExprId>, default: ExprId },
    /// The kind of a block, and the types of the values that it takes and
    /// gives.
    Block { kind: Frame, params: Seq<ValType>, results: Seq<ValType> },
    /// Anything else, or nothing.
    Other,
}

impl Immediate {
    /// What a plain block holds that takes no value and gives none.
    pub open spec fn plain_block() -> Immediate {
        Immediate::Block { kind: Frame::Block, params: Seq::empty(), results: Seq::empty() }
    }
}

/// An instruction as a function body holds it.
pub ghost struct Instr {
    pub shape: Shape,
    pub immediate: Immediate,
}

/// A function body: the instructions that are live in its arena.
pub type Body = Map<ExprId, Instr>;

} // verus!
