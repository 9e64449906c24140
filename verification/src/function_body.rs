//! Reading and extending a function body.
//!
//! `walrus` keeps the instructions of a function in an arena behind
//! `LocalFunction`. Verus does not look inside it. What the arena holds is
//! named `body_of`, and the functions marked `external_body` below are believed
//! to read and to change what that name says. `read` puts the readers together
//! and is verified.

use crate::ir::{Immediate, Instr, Node, Shape};
use vstd::prelude::*;
use walrus::ir::{BinaryOp, BlockId, Expr, ExprId};
use walrus::{GlobalId, LocalFunction};

verus! {

/// `id_arena::Id`: the handle of one item of an arena.
#[verifier::external_type_specification]
#[verifier::external_body]
#[verifier::reject_recursive_types(T)]
pub struct ExId<T>(id_arena::Id<T>);

/// `walrus::ir::Expr`: one instruction. Only its handle, `ExprId`, is used.
#[verifier::external_type_specification]
#[verifier::external_body]
pub struct ExExpr(walrus::ir::Expr);

/// `walrus::Global`: a global of a module. Only its handle, `GlobalId`, is used.
#[verifier::external_type_specification]
#[verifier::external_body]
pub struct ExGlobal(walrus::Global);

/// `walrus::ValType`: the type of a value.
#[verifier::external_type_specification]
#[verifier::external_body]
pub struct ExValType(walrus::ValType);

/// `walrus::LocalFunction`: a function with its body.
#[verifier::external_type_specification]
#[verifier::external_body]
pub struct ExLocalFunction(walrus::LocalFunction);

/// The instructions that the arena of `func` holds, by their ids. Each is
/// read as its variant with the ids of its operands, and with what it holds
/// besides: the global of a `global.get` or `global.set`, the value of an
/// `i64.const`, the operator where it is the 64-bit addition or signed
/// less-than, the target of a `br` or `br_if`, the table and the default of a
/// `br_table`, and the kind, parameters and results of a block.
pub uninterp spec fn body_of(func: LocalFunction) -> Map<ExprId, Instr>;

/// The id of the block that `func` starts with.
pub uninterp spec fn entry_of(func: LocalFunction) -> ExprId;

impl Shape {
    /// An instruction without operands.
    pub open spec fn is_leaf(self) -> bool {
        self is Const || self is LocalGet || self is GlobalGet || self is MemorySize
            || self is DataDrop || self is TableSize || self is RefNull || self is Unreachable
    }

    /// An instruction that stands for an effect on a variable or on the
    /// stack, and a value wrapped together with such effects.
    pub open spec fn is_effect(self) -> bool {
        self is Drop || self is LocalSet || self is LocalTee || self is GlobalSet
            || self is WithSideEffects
    }

    /// A numeric or reference operator on one to three values.
    pub open spec fn is_operator(self) -> bool {
        self is Unop || self is Binop || self is Select || self is RefIsNull
    }

    /// An access to a memory or a table through computed operands.
    pub open spec fn is_access(self) -> bool {
        self is MemoryGrow || self is Load || self is Store || self is TableGet
            || self is TableSet || self is TableGrow
    }

    /// A bulk memory operation.
    pub open spec fn is_bulk_memory(self) -> bool {
        self is MemoryInit || self is MemoryCopy || self is MemoryFill
    }

    /// An atomic memory operation.
    pub open spec fn is_atomic(self) -> bool {
        self is AtomicRmw || self is Cmpxchg || self is AtomicNotify || self is AtomicWait
    }

    /// A call, a branch to one target, or a return.
    pub open spec fn is_transfer(self) -> bool {
        self is Call || self is CallIndirect || self is Br || self is BrIf || self is Return
    }

    /// A construct of control flow: a block, a choice between two blocks, or
    /// a choice among many targets.
    pub open spec fn is_structure(self) -> bool {
        self is Block || self is IfElse || self is BrTable
    }
}

/// What a reader of one group of shapes returns for the shape `found`.
pub open spec fn reads(node: Option<Node>, found: Shape, in_group: bool) -> bool {
    match node {
        Some(n) => in_group && n@ == found,
        None => !in_group,
    }
}

/// `LocalFunction::entry_block`: the id of the entry block, as an `ExprId`.
#[verifier::external_body]
pub(crate) fn entry_block(func: &LocalFunction) -> (entry: ExprId)
    ensures
        entry == entry_of(*func),
{
    func.entry_block().into()
}

/// `LocalFunction::get` on an instruction without operands. The id must be in
/// the arena: `get` panics on any other.
#[verifier::external_body]
fn read_leaf(func: &LocalFunction, id: ExprId) -> (node: Option<Node>)
    requires
        body_of(*func).dom().contains(id),
    ensures
        reads(node, body_of(*func)[id].shape, body_of(*func)[id].shape.is_leaf()),
{
    match func.get(id) {
        Expr::Const(_) => Some(Node::Const),
        Expr::LocalGet(_) => Some(Node::LocalGet),
        Expr::GlobalGet(_) => Some(Node::GlobalGet),
        Expr::MemorySize(_) => Some(Node::MemorySize),
        Expr::DataDrop(_) => Some(Node::DataDrop),
        Expr::TableSize(_) => Some(Node::TableSize),
        Expr::RefNull(_) => Some(Node::RefNull),
        Expr::Unreachable(_) => Some(Node::Unreachable),
        _ => None,
    }
}

/// `LocalFunction::get` on `drop`, `local.set`, `local.tee`, `global.set` and
/// a side-effect wrapper: the operand is the field that the variant holds,
/// the wrapper gives its three parts.
#[verifier::external_body]
fn read_effect(func: &LocalFunction, id: ExprId) -> (node: Option<Node>)
    requires
        body_of(*func).dom().contains(id),
    ensures
        reads(node, body_of(*func)[id].shape, body_of(*func)[id].shape.is_effect()),
{
    match func.get(id) {
        Expr::Drop(e) => Some(Node::Drop { expr: e.expr }),
        Expr::LocalSet(e) => Some(Node::LocalSet { value: e.value }),
        Expr::LocalTee(e) => Some(Node::LocalTee { value: e.value }),
        Expr::GlobalSet(e) => Some(Node::GlobalSet { value: e.value }),
        Expr::WithSideEffects(e) => Some(Node::WithSideEffects {
            before: e.before.clone(), value: e.value, after: e.after.clone(),
        }),
        _ => None,
    }
}

/// `LocalFunction::get` on a unary or binary operator, `select` and
/// `ref.is_null`: the operands are the fields of the same names.
#[verifier::external_body]
fn read_operator(func: &LocalFunction, id: ExprId) -> (node: Option<Node>)
    requires
        body_of(*func).dom().contains(id),
    ensures
        reads(node, body_of(*func)[id].shape, body_of(*func)[id].shape.is_operator()),
{
    match func.get(id) {
        Expr::Unop(e) => Some(Node::Unop { expr: e.expr }),
        Expr::Binop(e) => Some(Node::Binop { lhs: e.lhs, rhs: e.rhs }),
        Expr::Select(e) => Some(Node::Select {
            condition: e.condition, consequent: e.consequent, alternative: e.alternative,
        }),
        Expr::RefIsNull(e) => Some(Node::RefIsNull { value: e.value }),
        _ => None,
    }
}

/// `LocalFunction::get` on `memory.grow`, a load, a store, and `table.get`,
/// `table.set`, `table.grow`: the operands are the fields of the same names.
#[verifier::external_body]
fn read_access(func: &LocalFunction, id: ExprId) -> (node: Option<Node>)
    requires
        body_of(*func).dom().contains(id),
    ensures
        reads(node, body_of(*func)[id].shape, body_of(*func)[id].shape.is_access()),
{
    match func.get(id) {
        Expr::MemoryGrow(e) => Some(Node::MemoryGrow { pages: e.pages }),
        Expr::Load(e) => Some(Node::Load { address: e.address }),
        Expr::Store(e) => Some(Node::Store { address: e.address, value: e.value }),
        Expr::TableGet(e) => Some(Node::TableGet { index: e.index }),
        Expr::TableSet(e) => Some(Node::TableSet { index: e.index, value: e.value }),
        Expr::TableGrow(e) => Some(Node::TableGrow { amount: e.amount, value: e.value }),
        _ => None,
    }
}

/// `LocalFunction::get` on `memory.init`, `memory.copy` and `memory.fill`: the
/// operands are the fields of the same names.
#[verifier::external_body]
fn read_bulk_memory(func: &LocalFunction, id: ExprId) -> (node: Option<Node>)
    requires
        body_of(*func).dom().contains(id),
    ensures
        reads(node, body_of(*func)[id].shape, body_of(*func)[id].shape.is_bulk_memory()),
{
    match func.get(id) {
        Expr::MemoryInit(e) => Some(Node::MemoryInit {
            memory_offset: e.memory_offset, data_offset: e.data_offset, len: e.len,
        }),
        Expr::MemoryCopy(e) => Some(Node::MemoryCopy {
            dst_offset: e.dst_offset, src_offset: e.src_offset, len: e.len,
        }),
        Expr::MemoryFill(e) => Some(Node::MemoryFill {
            offset: e.offset, value: e.value, len: e.len,
        }),
        _ => None,
    }
}

/// `LocalFunction::get` on an atomic read-modify-write, a compare-exchange,
/// `atomic.notify` and an atomic wait: the operands are the fields of the same
/// names.
#[verifier::external_body]
fn read_atomic(func: &LocalFunction, id: ExprId) -> (node: Option<Node>)
    requires
        body_of(*func).dom().contains(id),
    ensures
        reads(node, body_of(*func)[id].shape, body_of(*func)[id].shape.is_atomic()),
{
    match func.get(id) {
        Expr::AtomicRmw(e) => Some(Node::AtomicRmw { address: e.address, value: e.value }),
        Expr::Cmpxchg(e) => Some(Node::Cmpxchg {
            address: e.address, expected: e.expected, replacement: e.replacement,
        }),
        Expr::AtomicNotify(e) => Some(Node::AtomicNotify { address: e.address, count: e.count }),
        Expr::AtomicWait(e) => Some(Node::AtomicWait {
            address: e.address, expected: e.expected, timeout: e.timeout,
        }),
        _ => None,
    }
}

/// `LocalFunction::get` on a call, an indirect call, `br`, `br_if` and
/// `return`: the operand lists are copied as they stand, the single operands
/// are the fields of the same names. The branch target is left out.
#[verifier::external_body]
fn read_transfer(func: &LocalFunction, id: ExprId) -> (node: Option<Node>)
    requires
        body_of(*func).dom().contains(id),
    ensures
        reads(node, body_of(*func)[id].shape, body_of(*func)[id].shape.is_transfer()),
{
    match func.get(id) {
        Expr::Call(e) => Some(Node::Call { args: e.args.to_vec() }),
        Expr::CallIndirect(e) => Some(Node::CallIndirect { func: e.func, args: e.args.to_vec() }),
        Expr::Br(e) => Some(Node::Br { args: e.args.to_vec() }),
        Expr::BrIf(e) => Some(Node::BrIf { condition: e.condition, args: e.args.to_vec() }),
        Expr::Return(e) => Some(Node::Return { values: e.values.to_vec() }),
        _ => None,
    }
}

/// `LocalFunction::get` on a block, an `if`/`else` and a `br_table`. A block
/// gives its body, an `if`/`else` its condition and the ids of its two arms,
/// a `br_table` its selector, its arguments and the length of its table of
/// targets.
#[verifier::external_body]
fn read_structure(func: &LocalFunction, id: ExprId) -> (node: Option<Node>)
    requires
        body_of(*func).dom().contains(id),
    ensures
        reads(node, body_of(*func)[id].shape, body_of(*func)[id].shape.is_structure()),
{
    match func.get(id) {
        Expr::Block(e) => Some(Node::Block { exprs: e.exprs.clone() }),
        Expr::IfElse(e) => Some(Node::IfElse {
            condition: e.condition,
            consequent: e.consequent.into(),
            alternative: e.alternative.into(),
        }),
        Expr::BrTable(e) => Some(Node::BrTable {
            which: e.which, targets: e.blocks.len(), args: e.args.to_vec(),
        }),
        _ => None,
    }
}

/// The instruction at `id`, whatever its kind.
pub fn read(func: &LocalFunction, id: ExprId) -> (node: Node)
    requires
        body_of(*func).dom().contains(id),
    ensures
        node@ == body_of(*func)[id].shape,
{
    if let Some(node) = read_leaf(func, id) {
        return node;
    }
    if let Some(node) = read_effect(func, id) {
        return node;
    }
    if let Some(node) = read_operator(func, id) {
        return node;
    }
    if let Some(node) = read_access(func, id) {
        return node;
    }
    if let Some(node) = read_bulk_memory(func, id) {
        return node;
    }
    if let Some(node) = read_atomic(func, id) {
        return node;
    }
    if let Some(node) = read_transfer(func, id) {
        return node;
    }
    match read_structure(func, id) {
        Some(node) => node,
        None => {
            proof {
                let shape = body_of(*func)[id].shape;
                assert(shape.is_leaf() || shape.is_effect() || shape.is_operator()
                    || shape.is_access() || shape.is_bulk_memory() || shape.is_atomic()
                    || shape.is_transfer() || shape.is_structure());
            }
            vstd::pervasive::unreached()
        },
    }
}

/// The arena of `after` is that of `before` with `instr` added under the new
/// id `id`; the entry block is the same.
pub open spec fn allocated(before: LocalFunction, after: LocalFunction, id: ExprId, instr: Instr)
    -> bool {
    &&& !body_of(before).dom().contains(id)
    &&& body_of(after) == body_of(before).insert(id, instr)
    &&& entry_of(after) == entry_of(before)
}

/// `FunctionBuilder::global_get` on the builder of `func`: allocates a
/// `global.get` of `global`.
#[verifier::external_body]
pub(crate) fn global_get(func: &mut LocalFunction, global: GlobalId) -> (id: ExprId)
    ensures
        allocated(
            *old(func),
            *final(func),
            id,
            Instr { shape: Shape::GlobalGet, immediate: Immediate::Global(global) },
        ),
{
    func.builder_mut().global_get(global)
}

/// `FunctionBuilder::global_set` on the builder of `func`: allocates a
/// `global.set` of `global` to the value of `value`.
#[verifier::external_body]
pub(crate) fn global_set(func: &mut LocalFunction, global: GlobalId, value: ExprId) -> (id: ExprId)
    ensures
        allocated(
            *old(func),
            *final(func),
            id,
            Instr { shape: Shape::GlobalSet { value }, immediate: Immediate::Global(global) },
        ),
{
    func.builder_mut().global_set(global, value)
}

/// `FunctionBuilder::i64_const` on the builder of `func`: allocates an
/// `i64.const` of `value`.
#[verifier::external_body]
pub(crate) fn i64_const(func: &mut LocalFunction, value: i64) -> (id: ExprId)
    ensures
        allocated(
            *old(func),
            *final(func),
            id,
            Instr { shape: Shape::Const, immediate: Immediate::I64(value) },
        ),
{
    func.builder_mut().i64_const(value)
}

/// `FunctionBuilder::binop` with `BinaryOp::I64Add` on the builder of `func`:
/// allocates the 64-bit sum of `lhs` and `rhs`.
#[verifier::external_body]
pub(crate) fn i64_add(func: &mut LocalFunction, lhs: ExprId, rhs: ExprId) -> (id: ExprId)
    ensures
        allocated(
            *old(func),
            *final(func),
            id,
            Instr { shape: Shape::Binop { lhs, rhs }, immediate: Immediate::I64Add },
        ),
{
    func.builder_mut().binop(BinaryOp::I64Add, lhs, rhs)
}

/// `FunctionBuilder::binop` with `BinaryOp::I64LtS` on the builder of `func`:
/// allocates the signed 64-bit comparison `lhs < rhs`.
#[verifier::external_body]
pub(crate) fn i64_lt_s(func: &mut LocalFunction, lhs: ExprId, rhs: ExprId) -> (id: ExprId)
    ensures
        allocated(
            *old(func),
            *final(func),
            id,
            Instr { shape: Shape::Binop { lhs, rhs }, immediate: Immediate::I64LtS },
        ),
{
    func.builder_mut().binop(BinaryOp::I64LtS, lhs, rhs)
}

/// `FunctionBuilder::unreachable` on the builder of `func`: allocates a trap.
#[verifier::external_body]
pub(crate) fn trap(func: &mut LocalFunction) -> (id: ExprId)
    ensures
        allocated(
            *old(func),
            *final(func),
            id,
            Instr { shape: Shape::Unreachable, immediate: Immediate::Other },
        ),
{
    func.builder_mut().unreachable()
}

/// `FunctionBuilder::block` on the builder of `func`, without parameters and
/// results, and nothing pushed: allocates a plain block with an empty body,
/// which takes no value and gives none.
#[verifier::external_body]
pub(crate) fn empty_block(func: &mut LocalFunction) -> (id: ExprId)
    ensures
        allocated(
            *old(func),
            *final(func),
            id,
            Instr {
                shape: Shape::Block { exprs: Seq::empty() },
                immediate: Immediate::plain_block(),
            },
        ),
{
    func.builder_mut().block(Box::new([]), Box::new([])).id().into()
}

/// `FunctionBuilder::block` on the builder of `func`, without parameters and
/// results, and `BlockBuilder::expr` once: allocates a plain block whose body
/// is `expr` alone, and which takes no value and gives none.
#[verifier::external_body]
pub(crate) fn block_of(func: &mut LocalFunction, expr: ExprId) -> (id: ExprId)
    ensures
        allocated(
            *old(func),
            *final(func),
            id,
            Instr {
                shape: Shape::Block { exprs: seq![expr] },
                immediate: Immediate::plain_block(),
            },
        ),
{
    let mut block = func.builder_mut().block(Box::new([]), Box::new([]));
    block.expr(expr);
    block.id().into()
}

/// `FunctionBuilder::if_else` on the builder of `func`: allocates an
/// `if`/`else` on `condition` with the arms `consequent` and `alternative`.
/// `walrus` takes the arms as ids of blocks and leaves it to the caller that
/// they are.
#[verifier::external_body]
pub(crate) fn if_else(
    func: &mut LocalFunction,
    condition: ExprId,
    consequent: ExprId,
    alternative: ExprId,
) -> (id: ExprId)
    requires
        body_of(*old(func)).dom().contains(consequent),
        body_of(*old(func))[consequent].shape is Block,
        body_of(*old(func)).dom().contains(alternative),
        body_of(*old(func))[alternative].shape is Block,
    ensures
        allocated(
            *old(func),
            *final(func),
            id,
            Instr {
                shape: Shape::IfElse { condition, consequent, alternative },
                immediate: Immediate::Other,
            },
        ),
{
    func.builder_mut().if_else(condition, BlockId::new(consequent), BlockId::new(alternative))
}

/// `LocalFunction::block_mut` and `Vec::insert` on the body of the block:
/// puts `expr` at `index` and moves what stood there, and all behind it, one
/// place on. The kind and the types of the block stay. `block_mut` panics
/// unless `block` is a live block, `insert` where `index` is beyond the end.
#[verifier::external_body]
pub(crate) fn insert_expr(
    func: &mut LocalFunction,
    block: ExprId,
    index: usize,
    expr: ExprId,
)
    requires
        body_of(*old(func)).dom().contains(block),
        body_of(*old(func))[block].shape is Block,
        index <= body_of(*old(func))[block].shape->Block_exprs.len(),
    ensures
        body_of(*final(func)) == body_of(*old(func)).insert(
            block,
            Instr {
                shape: Shape::Block {
                    exprs: body_of(*old(func))[block].shape->Block_exprs.insert(index as int, expr),
                },
                immediate: body_of(*old(func))[block].immediate,
            },
        ),
        entry_of(*final(func)) == entry_of(*old(func)),
{
    func.block_mut(BlockId::new(block)).exprs.insert(index, expr)
}

} // verus!
