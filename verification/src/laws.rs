//! What holds of the analysis and of the pass whatever the function.

use crate::analyze::{analysis, lemma_operand};
use crate::cost::{acyclic, cost, cost_from, height, recorded, recorded_from, weight};
use crate::ir::Body;
use crate::generate::begins_with_guard;
use crate::pass::{blocks, instrumented, well_formed};
use crate::preserve::{lemma_guard_weighs, lemma_stays_well_formed, lemma_weighed_again};
use vstd::prelude::*;
use walrus::ir::ExprId;
use walrus::GlobalId;

verus! {

/// Everything that is charged at or below `id`: by the instruction itself
/// and by every instruction below it, whichever block they charge.
pub open spec fn charges(body: Body, id: ExprId) -> nat
    decreases height(body, id), body[id].shape.operands().len() + 1,
    when acyclic(body) && body.dom().contains(id)
{
    charges_from(body, id, 0) + body[id].shape.charge()
}

/// Everything that is charged at or below the operands of `id`, from the
/// operand at `from` on.
pub open spec fn charges_from(body: Body, id: ExprId, from: nat) -> nat
    decreases height(body, id), body[id].shape.operands().len() - from,
    when acyclic(body) && body.dom().contains(id)
{
    let operands = body[id].shape.operands();
    if from >= operands.len() {
        0
    } else {
        charges(body, operands[from as int]) + charges_from(body, id, from + 1)
    }
}

/// The sum of the weights in `weights`.
pub open spec fn total(weights: Seq<(ExprId, int)>) -> int
    decreases weights.len(),
{
    if weights.len() == 0 {
        0
    } else {
        total(weights.drop_last()) + weights.last().1
    }
}

proof fn lemma_total_concat(a: Seq<(ExprId, int)>, b: Seq<(ExprId, int)>)
    ensures
        total(a + b) == total(a) + total(b),
    decreases b.len(),
{
    if b.len() == 0 {
        assert(a + b == a);
    } else {
        assert((a + b).drop_last() == a + b.drop_last());
        lemma_total_concat(a, b.drop_last());
    }
}

proof fn lemma_total_push(a: Seq<(ExprId, int)>, entry: (ExprId, int))
    ensures
        total(a.push(entry)) == total(a) + entry.1,
{
    assert(a.push(entry).drop_last() == a);
}

/// What `id` charges to its block, and the weights of the blocks at and below
/// it, add up to everything that is charged at or below `id`.
pub proof fn lemma_charges(body: Body, id: ExprId)
    requires
        acyclic(body),
        body.dom().contains(id),
    ensures
        cost(body, id) + total(recorded(body, id)) == charges(body, id),
    decreases height(body, id), body[id].shape.operands().len() + 1,
{
    lemma_charges_from(body, id, 0);
    if body[id].shape is Block {
        lemma_total_push(recorded_from(body, id, 0), (id, weight(body, id) as int));
    }
}

/// The same of the operands of `id` from `from` on.
pub proof fn lemma_charges_from(body: Body, id: ExprId, from: nat)
    requires
        acyclic(body),
        body.dom().contains(id),
    ensures
        cost_from(body, id, from) + total(recorded_from(body, id, from)) == charges_from(
            body,
            id,
            from,
        ),
    decreases height(body, id), body[id].shape.operands().len() - from,
{
    let operands = body[id].shape.operands();
    if from < operands.len() {
        lemma_operand(body, id, from as int);
        lemma_charges(body, operands[from as int]);
        lemma_charges_from(body, id, from + 1);
        lemma_total_concat(
            recorded(body, operands[from as int]),
            recorded_from(body, id, from + 1),
        );
    }
}

/// The analysis undercounts nothing: the weight of a block and the weights of
/// all blocks nested in it, however deep, add up to everything that the
/// instructions inside the block charge.
pub proof fn law_weights_add_up(body: Body, block: ExprId)
    requires
        acyclic(body),
        body.dom().contains(block),
        body[block].shape is Block,
    ensures
        total(recorded(body, block)) == charges_from(body, block, 0),
        recorded(body, block).last() == (block, weight(body, block) as int),
{
    lemma_charges(body, block);
}

/// The analysis is a function of the body: two runs on the same body, with
/// the same entry, yield the same weights in the same order, or both nothing.
pub proof fn law_analysis_is_deterministic(
    body: Body,
    entry: ExprId,
    first: Option<Seq<(ExprId, int)>>,
    second: Option<Seq<(ExprId, int)>>,
)
    requires
        first == analysis(body, entry),
        second == analysis(body, entry),
    ensures
        first == second,
{
}

/// The pass can run again on what it has made, and then charges again: an
/// instrumented body is well-formed, and each of its blocks that the pass
/// has weighed weighs 12 more than before, 4 for the update of its guard
/// and 8 for the check. A second pass puts a second guard before the first,
/// for the old weight and these 12.
pub proof fn law_second_pass_charges_again(
    before: Body,
    after: Body,
    entry: ExprId,
    counter: GlobalId,
    budget: GlobalId,
    at: int,
)
    requires
        well_formed(before, entry),
        instrumented(before, after, entry, counter, budget),
        0 <= at < recorded(before, entry).len(),
    ensures
        well_formed(after, entry),
        weight(after, recorded(before, entry)[at].0) == recorded(before, entry)[at].1 + 12,
{
    lemma_stays_well_formed(before, after, entry, counter, budget);
    lemma_guard_weighs(before, after, entry, counter, budget, at);
}

/// A second pass neither finds nor skips the guards of the first: every
/// block that the first pass has weighed then begins with the guard of the
/// second pass, for the old weight and 12, and goes on with the guard of the
/// first pass and with what it held at the start, the same instructions in
/// the same order.
pub proof fn law_second_pass_guards_again(
    before: Body,
    after: Body,
    again: Body,
    entry: ExprId,
    first: (GlobalId, GlobalId),
    second: (GlobalId, GlobalId),
    at: int,
)
    requires
        well_formed(before, entry),
        instrumented(before, after, entry, first.0, first.1),
        instrumented(after, again, entry, second.0, second.1),
        0 <= at < recorded(before, entry).len(),
    ensures
        ({
            let block = recorded(before, entry)[at].0;
            let amount = recorded(before, entry)[at].1;
            &&& begins_with_guard(before, after, block, first.0, first.1, amount as i64)
            &&& begins_with_guard(after, again, block, second.0, second.1, (amount + 12) as i64)
            &&& again[block].shape->Block_exprs.skip(2) == after[block].shape->Block_exprs
            &&& again[block].shape->Block_exprs.skip(4) == before[block].shape->Block_exprs
        }),
{
    let block = recorded(before, entry)[at].0;
    let found = lemma_weighed_again(before, after, entry, first.0, first.1, at);
    assert(recorded(after, entry)[found].0 == block);
    let twice = again[block].shape->Block_exprs;
    assert(twice.skip(4) == twice.skip(2).skip(2));
}

/// The pass leaves every instruction that it finds in its place and as it
/// was: the same branch targets, the same block types and the same operands.
/// Only a block that the pass has weighed holds two instructions more, before
/// all that it held.
pub proof fn law_pass_keeps_what_it_finds(
    before: Body,
    after: Body,
    entry: ExprId,
    counter: GlobalId,
    budget: GlobalId,
    id: ExprId,
)
    requires
        instrumented(before, after, entry, counter, budget),
        before.dom().contains(id),
    ensures
        after.dom().contains(id),
        after[id].immediate == before[id].immediate,
        !blocks(recorded(before, entry)).contains(id) ==> after[id].shape == before[id].shape,
        blocks(recorded(before, entry)).contains(id) ==> {
            &&& before[id].shape is Block
            &&& after[id].shape is Block
            &&& after[id].shape->Block_exprs.skip(2) == before[id].shape->Block_exprs
        },
{
    let weights = recorded(before, entry);
    assert(weights.take(weights.len() as int) == weights);
    if blocks(weights).contains(id) {
        let at = choose|at: int| 0 <= at < blocks(weights).len() && blocks(weights)[at] == id;
        assert(weights[at].0 == id);
    }
}

} // verus!
