//! The budget code generator: what is put at the head of each block.
//!
//! At the head of a block of weight `w` stand two instructions, in this order:
//! the update `counter := counter + w`, and the check
//! `if budget < counter { trap } else { }`. The update comes first, so that the
//! check reads the new count; both come before the block's own instructions,
//! so that the trap is raised before the work that exceeds the budget.

use crate::function_body::{
    block_of, body_of, empty_block, entry_of, global_get, global_set, i64_add, i64_const,
    i64_lt_s, if_else, insert_expr, trap,
};
use crate::ir::{Body, Immediate, Instr, Shape};
use vstd::prelude::*;
use walrus::ir::ExprId;
use walrus::{GlobalId, LocalFunction};

verus! {

/// `id` is a live `global.get` of `global`.
pub open spec fn reads_global(body: Body, id: ExprId, global: GlobalId) -> bool {
    body.dom().contains(id) && body[id] == (Instr {
        shape: Shape::GlobalGet,
        immediate: Immediate::Global(global),
    })
}

/// `id` is the update `counter := counter + amount`.
pub open spec fn is_update(body: Body, id: ExprId, counter: GlobalId, amount: i64) -> bool {
    &&& body.dom().contains(id)
    &&& body[id].immediate == Immediate::Global(counter)
    &&& body[id].shape matches Shape::GlobalSet { value: sum }
    &&& body.dom().contains(sum)
    &&& body[sum].immediate == Immediate::I64Add
    &&& body[sum].shape matches Shape::Binop { lhs, rhs }
    &&& reads_global(body, lhs, counter)
    &&& body.dom().contains(rhs)
    &&& body[rhs] == (Instr { shape: Shape::Const, immediate: Immediate::I64(amount) })
}

/// `id` is the check `if budget < counter { trap } else { }`. Both arms are
/// plain blocks that take no value and give none, so the check leaves the
/// operand stack as it finds it.
pub open spec fn is_check(body: Body, id: ExprId, counter: GlobalId, budget: GlobalId) -> bool {
    &&& body.dom().contains(id)
    &&& body[id].shape matches Shape::IfElse { condition, consequent, alternative }
    &&& body.dom().contains(condition)
    &&& body[condition].immediate == Immediate::I64LtS
    &&& body[condition].shape matches Shape::Binop { lhs, rhs }
    &&& reads_global(body, lhs, budget)
    &&& reads_global(body, rhs, counter)
    &&& body.dom().contains(consequent)
    &&& body[consequent].immediate == Immediate::plain_block()
    &&& body[consequent].shape matches Shape::Block { exprs: bail }
    &&& bail.len() == 1
    &&& body.dom().contains(bail[0])
    &&& body[bail[0]].shape is Unreachable
    &&& body.dom().contains(alternative)
    &&& body[alternative] == (Instr {
        shape: Shape::Block { exprs: Seq::empty() },
        immediate: Immediate::plain_block(),
    })
}

/// The instructions that make up the update `id`.
pub open spec fn update_nodes(body: Body, id: ExprId) -> Set<ExprId> {
    let sum = body[id].shape->GlobalSet_value;
    set![id, sum, body[sum].shape->Binop_lhs, body[sum].shape->Binop_rhs]
}

/// The instructions that make up the check `id`.
pub open spec fn check_nodes(body: Body, id: ExprId) -> Set<ExprId> {
    let condition = body[id].shape->IfElse_condition;
    let consequent = body[id].shape->IfElse_consequent;
    let alternative = body[id].shape->IfElse_alternative;
    set![
        id,
        condition,
        body[condition].shape->Binop_lhs,
        body[condition].shape->Binop_rhs,
        consequent,
        body[consequent].shape->Block_exprs[0],
        alternative,
    ]
}

/// The instructions that make up the guard at the head of `block`.
pub open spec fn guard_nodes(body: Body, block: ExprId) -> Set<ExprId> {
    let exprs = body[block].shape->Block_exprs;
    update_nodes(body, exprs[0]) + check_nodes(body, exprs[1])
}

/// In `after` the block `block` begins with the guard for `amount`: first the
/// update, then the check. What the block held in `before` follows, unchanged
/// and two places further on. The block keeps its kind and its types. The
/// instructions of the guard are not in `before`.
pub open spec fn begins_with_guard(
    before: Body,
    after: Body,
    block: ExprId,
    counter: GlobalId,
    budget: GlobalId,
    amount: i64,
) -> bool {
    &&& after.dom().contains(block)
    &&& after[block].immediate == before[block].immediate
    &&& before[block].shape matches Shape::Block { exprs: held }
    &&& after[block].shape matches Shape::Block { exprs }
    &&& exprs.len() == held.len() + 2
    &&& exprs.skip(2) == held
    &&& is_update(after, exprs[0], counter, amount)
    &&& is_check(after, exprs[1], counter, budget)
    &&& forall|id: ExprId| #[trigger]
        guard_nodes(after, block).contains(id) ==> after.dom().contains(id)
            && !before.dom().contains(id)
}

/// Every instruction of `before` is live in `after`, and but for `block` it
/// is as it was: the same operands, and the same branch targets and block
/// types.
pub open spec fn kept_but(before: Body, after: Body, block: ExprId) -> bool {
    forall|id: ExprId| #[trigger]
        before.dom().contains(id) ==> after.dom().contains(id) && (id != block ==> after[id]
            == before[id])
}

/// `after` is `before` with the guard for `amount` put at the head of `block`,
/// and nothing else changed or added.
pub open spec fn guarded(
    before: Body,
    after: Body,
    block: ExprId,
    counter: GlobalId,
    budget: GlobalId,
    amount: i64,
) -> bool {
    &&& kept_but(before, after, block)
    &&& begins_with_guard(before, after, block, counter, budget, amount)
    &&& forall|id: ExprId| #[trigger]
        after.dom().contains(id) ==> before.dom().contains(id) || guard_nodes(
            after,
            block,
        ).contains(id)
}

/// The instructions that a guard is made of, one by one, are the nodes of the
/// guard, and the nodes of the guard are these.
pub proof fn lemma_guard_members(body: Body, block: ExprId)
    ensures
        ({
            let update = body[block].shape->Block_exprs[0];
            let check = body[block].shape->Block_exprs[1];
            let sum = body[update].shape->GlobalSet_value;
            let condition = body[check].shape->IfElse_condition;
            let consequent = body[check].shape->IfElse_consequent;
            let alternative = body[check].shape->IfElse_alternative;
            let nodes = guard_nodes(body, block);
            &&& nodes.contains(update)
            &&& nodes.contains(sum)
            &&& nodes.contains(body[sum].shape->Binop_lhs)
            &&& nodes.contains(body[sum].shape->Binop_rhs)
            &&& nodes.contains(check)
            &&& nodes.contains(condition)
            &&& nodes.contains(body[condition].shape->Binop_lhs)
            &&& nodes.contains(body[condition].shape->Binop_rhs)
            &&& nodes.contains(consequent)
            &&& nodes.contains(body[consequent].shape->Block_exprs[0])
            &&& nodes.contains(alternative)
            &&& forall|id: ExprId| #[trigger]
                nodes.contains(id) ==> update_nodes(body, update).contains(id) || check_nodes(
                    body,
                    check,
                ).contains(id)
        }),
{
    let update = body[block].shape->Block_exprs[0];
    let check = body[block].shape->Block_exprs[1];
    let sum = body[update].shape->GlobalSet_value;
    let condition = body[check].shape->IfElse_condition;
    let consequent = body[check].shape->IfElse_consequent;
    assert(update_nodes(body, update).contains(update));
    assert(update_nodes(body, update).contains(sum));
    assert(update_nodes(body, update).contains(body[sum].shape->Binop_lhs));
    assert(update_nodes(body, update).contains(body[sum].shape->Binop_rhs));
    assert(check_nodes(body, check).contains(check));
    assert(check_nodes(body, check).contains(condition));
    assert(check_nodes(body, check).contains(body[condition].shape->Binop_lhs));
    assert(check_nodes(body, check).contains(body[condition].shape->Binop_rhs));
    assert(check_nodes(body, check).contains(consequent));
    assert(check_nodes(body, check).contains(body[consequent].shape->Block_exprs[0]));
    assert(check_nodes(body, check).contains(body[check].shape->IfElse_alternative));
}

/// A guard stays where it is when another block of the first body changes
/// and instructions are added.
pub proof fn lemma_guard_stays(
    first: Body,
    before: Body,
    after: Body,
    block: ExprId,
    other: ExprId,
    counter: GlobalId,
    budget: GlobalId,
    amount: i64,
)
    requires
        begins_with_guard(first, before, block, counter, budget, amount),
        kept_but(before, after, other),
        first.dom().contains(other),
        other != block,
    ensures
        begins_with_guard(first, after, block, counter, budget, amount),
        guard_nodes(after, block) == guard_nodes(before, block),
{
    let exprs = before[block].shape->Block_exprs;
    let update = exprs[0];
    let check = exprs[1];
    let nodes = guard_nodes(before, block);
    assert(before.dom().contains(block));
    assert(after[block] == before[block]);
    assert forall|id: ExprId| #[trigger] nodes.contains(id) implies after.dom().contains(id)
        && after[id] == before[id] by {
        assert(before.dom().contains(id));
        assert(!first.dom().contains(id));
    }
    lemma_guard_members(before, block);
    assert(update_nodes(after, update) == update_nodes(before, update));
    assert(check_nodes(after, check) == check_nodes(before, check));
    assert(guard_nodes(after, block) == nodes);
    assert(is_update(after, update, counter, amount));
    assert(is_check(after, check, counter, budget));
}

/// Puts the guard for the weight `count` at the head of the block `block_id`.
pub fn inject_ops(
    func: &mut LocalFunction,
    counter: GlobalId,
    budget: GlobalId,
    block_id: ExprId,
    count: i64,
)
    requires
        body_of(*old(func)).dom().contains(block_id),
        body_of(*old(func))[block_id].shape is Block,
    ensures
        guarded(body_of(*old(func)), body_of(*final(func)), block_id, counter, budget, count),
        entry_of(*final(func)) == entry_of(*old(func)),
{
    let ghost before = body_of(*func);
    let set_op = {
        let get_op = global_get(func, counter);
        let count_op = i64_const(func, count);
        let add_op = i64_add(func, get_op, count_op);
        global_set(func, counter, add_op)
    };
    let if_block = {
        let budget_op = global_get(func, budget);
        let get_op = global_get(func, counter);
        let less_op = i64_lt_s(func, budget_op, get_op);
        let bail_op = trap(func);
        let bail_block = block_of(func, bail_op);
        let empty_block = empty_block(func);
        if_else(func, less_op, bail_block, empty_block)
    };
    insert_expr(func, block_id, 0, set_op);
    insert_expr(func, block_id, 1, if_block);
    proof {
        let after = body_of(*func);
        let exprs = after[block_id].shape->Block_exprs;
        let held = before[block_id].shape->Block_exprs;
        assert(exprs.skip(2) =~= held);
    }
}

} // verus!
