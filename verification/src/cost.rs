//! The cost model: what each instruction charges, and to which block.
//!
//! A block is the unit of accounting. Every instruction charges the block that
//! it stands in: first its operands charge, then the instruction itself. A
//! nested block charges 1 to the block that holds it; what stands inside is
//! charged to the nested block and recorded under its own id.

use crate::ir::Body;
use vstd::prelude::*;
use walrus::ir::ExprId;

verus! {

/// Every operand of a live instruction is live, and `rank` falls from each
/// instruction to its operands.
pub open spec fn ranked(body: Body, rank: spec_fn(ExprId) -> nat) -> bool {
    forall|id: ExprId, i: int|
        body.dom().contains(id) && 0 <= i < body[id].shape.operands().len() ==> {
            &&& body.dom().contains(#[trigger] body[id].shape.operands()[i])
            &&& rank(body[id].shape.operands()[i]) < rank(id)
        }
}

/// No instruction is its own operand, however far down, and no operand is
/// missing: the walk from any live instruction ends.
pub open spec fn acyclic(body: Body) -> bool {
    exists|rank: spec_fn(ExprId) -> nat| ranked(body, rank)
}

/// A bound on the depth of the tree below `id`.
pub open spec fn height(body: Body, id: ExprId) -> nat {
    (choose|rank: spec_fn(ExprId) -> nat| ranked(body, rank))(id)
}

/// What the instruction `id` charges to the block that it stands in.
pub open spec fn cost(body: Body, id: ExprId) -> nat
    decreases height(body, id), body[id].shape.operands().len() + 1,
    when acyclic(body) && body.dom().contains(id)
{
    if body[id].shape is Block {
        1
    } else {
        cost_from(body, id, 0) + body[id].shape.charge()
    }
}

/// What the operands of `id` charge, from the operand at `from` on.
pub open spec fn cost_from(body: Body, id: ExprId, from: nat) -> nat
    decreases height(body, id), body[id].shape.operands().len() - from,
    when acyclic(body) && body.dom().contains(id)
{
    let operands = body[id].shape.operands();
    if from >= operands.len() {
        0
    } else {
        cost(body, operands[from as int]) + cost_from(body, id, from + 1)
    }
}

/// The weight of a block: what the instructions of its body charge to it.
pub open spec fn weight(body: Body, block: ExprId) -> nat {
    cost_from(body, block, 0)
}

/// The blocks at and below `id` with their weights, each nested block before
/// the block that holds it, in the order of the walk.
pub open spec fn recorded(body: Body, id: ExprId) -> Seq<(ExprId, int)>
    decreases height(body, id), body[id].shape.operands().len() + 1,
    when acyclic(body) && body.dom().contains(id)
{
    if body[id].shape is Block {
        recorded_from(body, id, 0).push((id, weight(body, id) as int))
    } else {
        recorded_from(body, id, 0)
    }
}

/// The blocks below the operands of `id`, from the operand at `from` on.
pub open spec fn recorded_from(body: Body, id: ExprId, from: nat) -> Seq<(ExprId, int)>
    decreases height(body, id), body[id].shape.operands().len() - from,
    when acyclic(body) && body.dom().contains(id)
{
    let operands = body[id].shape.operands();
    if from >= operands.len() {
        Seq::empty()
    } else {
        recorded(body, operands[from as int]) + recorded_from(body, id, from + 1)
    }
}

/// The greatest weight of a block at or below `id`, 0 where there is none.
pub open spec fn heaviest(body: Body, id: ExprId) -> nat
    decreases height(body, id), body[id].shape.operands().len() + 1,
    when acyclic(body) && body.dom().contains(id)
{
    let below = heaviest_from(body, id, 0);
    if body[id].shape is Block && weight(body, id) > below {
        weight(body, id)
    } else {
        below
    }
}

/// The greatest weight of a block below the operands of `id`, from the operand
/// at `from` on.
pub open spec fn heaviest_from(body: Body, id: ExprId, from: nat) -> nat
    decreases height(body, id), body[id].shape.operands().len() - from,
    when acyclic(body) && body.dom().contains(id)
{
    let operands = body[id].shape.operands();
    if from >= operands.len() {
        0
    } else {
        let first = heaviest(body, operands[from as int]);
        let rest = heaviest_from(body, id, from + 1);
        if first > rest {
            first
        } else {
            rest
        }
    }
}

} // verus!
