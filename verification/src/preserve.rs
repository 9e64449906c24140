//! An instrumented function is well-formed again.

use crate::analyze::lemma_operand;
use crate::cost::{acyclic, cost, cost_from, height, ranked, recorded, recorded_from, weight};
use crate::generate::{
    begins_with_guard, check_nodes, guard_nodes, is_check, is_update, lemma_guard_members,
    update_nodes,
};
use crate::ir::{Body, Shape};
use crate::pass::{blocks, guards_placed, instrumented, lemma_recorded, weighed, well_formed};
use vstd::prelude::*;
use walrus::ir::ExprId;
use walrus::GlobalId;

verus! {

/// How far an instruction of a guard stands above the leaves of the guard.
pub open spec fn guard_rank(shape: Shape) -> nat {
    match shape {
        Shape::GlobalSet { .. } => 2,
        Shape::IfElse { .. } => 2,
        Shape::Binop { .. } => 1,
        Shape::Block { exprs } => if exprs.len() == 0 {
            0
        } else {
            1
        },
        _ => 0,
    }
}

/// The operands of an instruction of a guard are live, new, and rank lower.
proof fn lemma_guard_ranked(
    before: Body,
    after: Body,
    block: ExprId,
    counter: GlobalId,
    budget: GlobalId,
    amount: i64,
    id: ExprId,
    at: int,
)
    requires
        begins_with_guard(before, after, block, counter, budget, amount),
        guard_nodes(after, block).contains(id),
        0 <= at < after[id].shape.operands().len(),
    ensures
        after.dom().contains(after[id].shape.operands()[at]),
        !before.dom().contains(after[id].shape.operands()[at]),
        guard_rank(after[after[id].shape.operands()[at]].shape) < guard_rank(after[id].shape),
{
    let exprs = after[block].shape->Block_exprs;
    lemma_guard_members(after, block);
    assert(update_nodes(after, exprs[0]).contains(id) || check_nodes(after, exprs[1]).contains(id));
}

/// A body with guards placed is acyclic as the body before was.
pub proof fn lemma_stays_acyclic(
    before: Body,
    after: Body,
    weights: Seq<(ExprId, int)>,
    counter: GlobalId,
    budget: GlobalId,
)
    requires
        acyclic(before),
        weighed(before, weights),
        guards_placed(before, after, weights, weights.len() as int, counter, budget),
    ensures
        acyclic(after),
{
    let held = choose|rank: spec_fn(ExprId) -> nat| ranked(before, rank);
    let rank = |id: ExprId|
        if before.dom().contains(id) {
            held(id) + 3
        } else {
            guard_rank(after[id].shape)
        };
    assert(weights.take(weights.len() as int) == weights);
    assert forall|id: ExprId, at: int|
        after.dom().contains(id) && 0 <= at < after[id].shape.operands().len() implies {
        &&& after.dom().contains(#[trigger] after[id].shape.operands()[at])
        &&& rank(after[id].shape.operands()[at]) < rank(id)
    } by {
        let operand = after[id].shape.operands()[at];
        if before.dom().contains(id) {
            if blocks(weights).contains(id) {
                let i = choose|i: int| 0 <= i < blocks(weights).len() && blocks(weights)[i] == id;
                assert(weights[i].0 == id);
                assert(begins_with_guard(before, after, id, counter, budget, weights[i].1 as i64));
                let exprs = after[id].shape->Block_exprs;
                let was = before[id].shape->Block_exprs;
                lemma_guard_members(after, id);
                if at >= 2 {
                    assert(exprs.skip(2)[at - 2] == exprs[at]);
                    assert(operand == before[id].shape.operands()[at - 2]);
                    assert(before.dom().contains(operand));
                }
            } else {
                assert(after[id] == before[id]);
                assert(before.dom().contains(before[id].shape.operands()[at]));
            }
        } else {
            let i = choose|i: int|
                0 <= i < weights.len() && guard_nodes(after, (#[trigger] weights[i]).0).contains(
                    id,
                );
            lemma_guard_ranked(
                before,
                after,
                weights[i].0,
                counter,
                budget,
                weights[i].1 as i64,
                id,
                at,
            );
        }
    }
    assert(ranked(after, rank));
}

/// How often `x` stands in `list`.
pub open spec fn occurrences(list: Seq<ExprId>, x: ExprId) -> nat
    decreases list.len(),
{
    if list.len() == 0 {
        0
    } else {
        occurrences(list.drop_last(), x) + if list.last() == x {
            1nat
        } else {
            0nat
        }
    }
}

proof fn lemma_occurrences_push(list: Seq<ExprId>, last: ExprId, x: ExprId)
    ensures
        occurrences(list.push(last), x) == occurrences(list, x) + if last == x {
            1nat
        } else {
            0nat
        },
{
    assert(list.push(last).drop_last() == list);
}

proof fn lemma_occurrences_concat(a: Seq<ExprId>, b: Seq<ExprId>, x: ExprId)
    ensures
        occurrences(a + b, x) == occurrences(a, x) + occurrences(b, x),
    decreases b.len(),
{
    if b.len() == 0 {
        assert(a + b == a);
    } else {
        assert((a + b).drop_last() == a + b.drop_last());
        lemma_occurrences_concat(a, b.drop_last(), x);
    }
}

proof fn lemma_occurrences_absent(list: Seq<ExprId>, x: ExprId)
    requires
        !list.contains(x),
    ensures
        occurrences(list, x) == 0,
    decreases list.len(),
{
    if list.len() > 0 {
        assert(list.last() == list[list.len() - 1]);
        assert forall|i: int| 0 <= i < list.drop_last().len() implies list.drop_last()[i] != x by {
            assert(list.drop_last()[i] == list[i]);
        }
        lemma_occurrences_absent(list.drop_last(), x);
    }
}

proof fn lemma_occurrences_present(list: Seq<ExprId>, at: int)
    requires
        0 <= at < list.len(),
    ensures
        occurrences(list, list[at]) >= 1,
    decreases list.len(),
{
    if at < list.len() - 1 {
        assert(list.drop_last()[at] == list[at]);
        lemma_occurrences_present(list.drop_last(), at);
    }
}

/// A list in which nothing stands twice has no duplicates.
proof fn lemma_once_each(list: Seq<ExprId>)
    requires
        forall|x: ExprId| occurrences(list, x) <= 1,
    ensures
        list.no_duplicates(),
    decreases list.len(),
{
    if list.len() > 0 {
        let front = list.drop_last();
        assert forall|x: ExprId| occurrences(front, x) <= 1 by {
            assert(occurrences(list, x) <= 1);
        }
        lemma_once_each(front);
        assert forall|i: int, j: int| 0 <= i < list.len() && 0 <= j < list.len() && i
            != j implies list[i] != list[j] by {
            if i < list.len() - 1 && j < list.len() - 1 {
                assert(front[i] == list[i] && front[j] == list[j]);
            } else {
                let other = if i < j {
                    i
                } else {
                    j
                };
                assert(front[other] == list[other]);
                lemma_occurrences_present(front, other);
                assert(occurrences(list, list.last()) <= 1);
            }
        }
    }
}

/// In a list without duplicates nothing stands twice.
proof fn lemma_no_duplicates_once(list: Seq<ExprId>, x: ExprId)
    requires
        list.no_duplicates(),
    ensures
        occurrences(list, x) <= 1,
    decreases list.len(),
{
    if list.len() > 0 {
        let front = list.drop_last();
        assert forall|i: int, j: int| 0 <= i < front.len() && 0 <= j < front.len() && i
            != j implies front[i] != front[j] by {
            assert(front[i] == list[i] && front[j] == list[j]);
        }
        lemma_no_duplicates_once(front, x);
        if list.last() == x {
            assert forall|i: int| 0 <= i < front.len() implies front[i] != x by {
                assert(front[i] == list[i]);
            }
            lemma_occurrences_absent(front, x);
        }
    }
}

proof fn lemma_blocks_concat(a: Seq<(ExprId, int)>, b: Seq<(ExprId, int)>)
    ensures
        blocks(a + b) == blocks(a) + blocks(b),
{
    assert(blocks(a + b) =~= blocks(a) + blocks(b));
}

proof fn lemma_blocks_push(a: Seq<(ExprId, int)>, last: (ExprId, int))
    ensures
        blocks(a.push(last)) == blocks(a).push(last.0),
{
    assert(blocks(a.push(last)) =~= blocks(a).push(last.0));
}

/// The two blocks of the check at the head of `block`: what runs where the
/// budget is passed, and what runs where it is not.
pub open spec fn arms(body: Body, block: ExprId) -> Seq<ExprId> {
    let check = body[block].shape->Block_exprs[1];
    seq![body[check].shape->IfElse_consequent, body[check].shape->IfElse_alternative]
}

/// The arms of the guards of the blocks in `list`, in the order of the list.
pub open spec fn all_arms(body: Body, list: Seq<ExprId>) -> Seq<ExprId>
    decreases list.len(),
{
    if list.len() == 0 {
        Seq::empty()
    } else {
        all_arms(body, list.drop_last()) + arms(body, list.last())
    }
}

proof fn lemma_all_arms_push(body: Body, list: Seq<ExprId>, last: ExprId)
    ensures
        all_arms(body, list.push(last)) == all_arms(body, list) + arms(body, last),
{
    assert(list.push(last).drop_last() == list);
}

proof fn lemma_all_arms_concat(body: Body, a: Seq<ExprId>, b: Seq<ExprId>)
    ensures
        all_arms(body, a + b) == all_arms(body, a) + all_arms(body, b),
    decreases b.len(),
{
    if b.len() == 0 {
        assert(a + b == a);
        assert(all_arms(body, a) + Seq::<ExprId>::empty() == all_arms(body, a));
    } else {
        assert((a + b).drop_last() == a + b.drop_last());
        assert((a + b).last() == b.last());
        lemma_all_arms_concat(body, a, b.drop_last());
        assert((all_arms(body, a) + all_arms(body, b.drop_last())) + arms(body, b.last())
            == all_arms(body, a) + (all_arms(body, b.drop_last()) + arms(body, b.last())));
    }
}

/// An instruction without operands records no block, unless it is one.
proof fn lemma_leaf_records_nothing(body: Body, id: ExprId)
    requires
        acyclic(body),
        body.dom().contains(id),
        body[id].shape.operands().len() == 0,
        !(body[id].shape is Block),
    ensures
        recorded(body, id) == Seq::<(ExprId, int)>::empty(),
{
}

/// A binary operator on two such instructions records no block.
proof fn lemma_binop_records_nothing(body: Body, id: ExprId)
    requires
        acyclic(body),
        body.dom().contains(id),
        body[id].shape is Binop,
        body.dom().contains(body[id].shape->Binop_lhs),
        body.dom().contains(body[id].shape->Binop_rhs),
        body[body[id].shape->Binop_lhs].shape.operands().len() == 0,
        body[body[id].shape->Binop_rhs].shape.operands().len() == 0,
        !(body[body[id].shape->Binop_lhs].shape is Block),
        !(body[body[id].shape->Binop_rhs].shape is Block),
    ensures
        recorded(body, id) == Seq::<(ExprId, int)>::empty(),
{
    let lhs = body[id].shape->Binop_lhs;
    let rhs = body[id].shape->Binop_rhs;
    lemma_leaf_records_nothing(body, lhs);
    lemma_leaf_records_nothing(body, rhs);
    assert(body[id].shape.operands() == seq![lhs, rhs]);
    assert(recorded_from(body, id, 2) == Seq::<(ExprId, int)>::empty());
    assert(recorded_from(body, id, 1) == recorded(body, rhs) + recorded_from(body, id, 2));
    assert(recorded_from(body, id, 0) == recorded(body, lhs) + recorded_from(body, id, 1));
    assert(recorded(body, id) =~= Seq::<(ExprId, int)>::empty());
}

/// The update of a guard holds no block.
proof fn lemma_update_records_nothing(body: Body, update: ExprId, counter: GlobalId, amount: i64)
    requires
        acyclic(body),
        is_update(body, update, counter, amount),
    ensures
        recorded(body, update) == Seq::<(ExprId, int)>::empty(),
{
    let sum = body[update].shape->GlobalSet_value;
    lemma_binop_records_nothing(body, sum);
    assert(body[update].shape.operands() == seq![sum]);
    assert(recorded_from(body, update, 1) == Seq::<(ExprId, int)>::empty());
    assert(recorded_from(body, update, 0) == recorded(body, sum) + recorded_from(body, update, 1));
    assert(recorded(body, update) =~= Seq::<(ExprId, int)>::empty());
}

/// The check of a guard holds its two arms and no other block.
proof fn lemma_check_records_arms(
    body: Body,
    block: ExprId,
    check: ExprId,
    counter: GlobalId,
    budget: GlobalId,
)
    requires
        acyclic(body),
        body[block].shape is Block,
        body[block].shape->Block_exprs.len() >= 2,
        check == body[block].shape->Block_exprs[1],
        is_check(body, check, counter, budget),
    ensures
        blocks(recorded(body, check)) == arms(body, block),
{
    let condition = body[check].shape->IfElse_condition;
    let consequent = body[check].shape->IfElse_consequent;
    let alternative = body[check].shape->IfElse_alternative;
    let bail = body[consequent].shape->Block_exprs[0];
    let none = Seq::<(ExprId, int)>::empty();
    lemma_binop_records_nothing(body, condition);
    lemma_leaf_records_nothing(body, bail);
    assert(body[consequent].shape.operands() == seq![bail]);
    assert(recorded_from(body, consequent, 1) == none);
    assert(recorded_from(body, consequent, 0) == recorded(body, bail) + recorded_from(
        body,
        consequent,
        1,
    ));
    assert(recorded_from(body, consequent, 0) =~= none);
    assert(recorded_from(body, alternative, 0) == none);
    assert(body[check].shape.operands() == seq![condition, consequent, alternative]);
    assert(recorded_from(body, check, 3) == none);
    assert(recorded_from(body, check, 2) == recorded(body, alternative) + recorded_from(
        body,
        check,
        3,
    ));
    assert(recorded_from(body, check, 1) == recorded(body, consequent) + recorded_from(
        body,
        check,
        2,
    ));
    assert(recorded_from(body, check, 0) == recorded(body, condition) + recorded_from(
        body,
        check,
        1,
    ));
    assert(blocks(recorded(body, check)) =~= arms(body, block));
}

/// Every block that `before` records at or below `id` is one of `weights`.
pub open spec fn covered(before: Body, id: ExprId, weights: Seq<(ExprId, int)>) -> bool {
    forall|k: int|
        0 <= k < recorded(before, id).len() ==> blocks(weights).contains(
            (#[trigger] recorded(before, id)[k]).0,
        )
}

/// The same of the operands of `id` from `from` on.
pub open spec fn covered_from(before: Body, id: ExprId, from: nat, weights: Seq<(ExprId, int)>)
    -> bool {
    forall|k: int|
        0 <= k < recorded_from(before, id, from).len() ==> blocks(weights).contains(
            (#[trigger] recorded_from(before, id, from)[k]).0,
        )
}

/// What the lemmas on the blocks of an instrumented body start from.
pub open spec fn setting(
    before: Body,
    after: Body,
    weights: Seq<(ExprId, int)>,
    counter: GlobalId,
    budget: GlobalId,
) -> bool {
    &&& acyclic(before)
    &&& acyclic(after)
    &&& weighed(before, weights)
    &&& guards_placed(before, after, weights, weights.len() as int, counter, budget)
}

/// At or below an instruction of `before`, `after` records the blocks that
/// `before` records, and with each the two arms of its guard.
proof fn lemma_tally(
    before: Body,
    after: Body,
    weights: Seq<(ExprId, int)>,
    counter: GlobalId,
    budget: GlobalId,
    id: ExprId,
    x: ExprId,
)
    requires
        setting(before, after, weights, counter, budget),
        before.dom().contains(id),
        covered(before, id, weights),
    ensures
        occurrences(blocks(recorded(after, id)), x) == occurrences(
            blocks(recorded(before, id)),
            x,
        ) + occurrences(all_arms(after, blocks(recorded(before, id))), x),
    decreases height(before, id), before[id].shape.operands().len() + 1,
{
    assert(weights.take(weights.len() as int) == weights);
    let was = recorded_from(before, id, 0);
    assert(covered_from(before, id, 0, weights)) by {
        assert forall|k: int| 0 <= k < was.len() implies blocks(weights).contains(
            (#[trigger] was[k]).0,
        ) by {
            assert(recorded(before, id)[k] == was[k]);
        }
    }
    if before[id].shape is Block {
        assert(recorded(before, id)[was.len() as int].0 == id);
        assert(blocks(weights).contains(id));
        let i = choose|i: int| 0 <= i < blocks(weights).len() && blocks(weights)[i] == id;
        assert(weights[i].0 == id);
        assert(begins_with_guard(before, after, id, counter, budget, weights[i].1 as i64));
        let exprs = after[id].shape->Block_exprs;
        let held = before[id].shape->Block_exprs;
        assert forall|k: int| 0 <= k < held.len() implies exprs[k + 2] == held[k] by {
            assert(exprs.skip(2)[k] == exprs[k + 2]);
        }
        lemma_tally_from(before, after, weights, counter, budget, id, 0, 2, x);
        lemma_update_records_nothing(after, exprs[0], counter, weights[i].1 as i64);
        lemma_check_records_arms(after, id, exprs[1], counter, budget);
        let rest = recorded_from(after, id, 2);
        assert(recorded_from(after, id, 1) == recorded(after, exprs[1]) + rest);
        assert(recorded_from(after, id, 0) == recorded(after, exprs[0]) + recorded_from(
            after,
            id,
            1,
        ));
        assert(recorded_from(after, id, 0) =~= recorded(after, exprs[1]) + rest);
        lemma_blocks_concat(recorded(after, exprs[1]), rest);
        lemma_occurrences_concat(arms(after, id), blocks(rest), x);
        let last = recorded(after, id).last();
        assert(last.0 == id);
        lemma_blocks_push(recorded_from(after, id, 0), last);
        lemma_occurrences_push(blocks(recorded_from(after, id, 0)), id, x);
        let last_was = recorded(before, id).last();
        assert(last_was.0 == id);
        lemma_blocks_push(was, last_was);
        lemma_occurrences_push(blocks(was), id, x);
        lemma_all_arms_push(after, blocks(was), id);
        lemma_occurrences_concat(all_arms(after, blocks(was)), arms(after, id), x);
    } else {
        assert(!blocks(weights).contains(id)) by {
            if blocks(weights).contains(id) {
                let i = choose|i: int| 0 <= i < blocks(weights).len() && blocks(weights)[i] == id;
                assert(weights[i].0 == id);
            }
        }
        assert(after[id] == before[id]);
        lemma_tally_from(before, after, weights, counter, budget, id, 0, 0, x);
    }
}

/// The same of the operands of `id` from `from` on, which stand `shift`
/// places further on in `after`.
proof fn lemma_tally_from(
    before: Body,
    after: Body,
    weights: Seq<(ExprId, int)>,
    counter: GlobalId,
    budget: GlobalId,
    id: ExprId,
    from: nat,
    shift: nat,
    x: ExprId,
)
    requires
        setting(before, after, weights, counter, budget),
        before.dom().contains(id),
        after.dom().contains(id),
        covered_from(before, id, from, weights),
        after[id].shape.operands().len() == before[id].shape.operands().len() + shift,
        forall|k: int|
            0 <= k < before[id].shape.operands().len() ==> after[id].shape.operands()[k + shift]
                == before[id].shape.operands()[k],
    ensures
        occurrences(blocks(recorded_from(after, id, from + shift)), x) == occurrences(
            blocks(recorded_from(before, id, from)),
            x,
        ) + occurrences(all_arms(after, blocks(recorded_from(before, id, from))), x),
    decreases height(before, id), before[id].shape.operands().len() - from,
{
    let operands = before[id].shape.operands();
    if from < operands.len() {
        let operand = operands[from as int];
        lemma_operand(before, id, from as int);
        let first = recorded(before, operand);
        let rest = recorded_from(before, id, from + 1);
        assert(recorded_from(before, id, from) == first + rest);
        assert(covered(before, operand, weights)) by {
            assert forall|k: int| 0 <= k < first.len() implies blocks(weights).contains(
                (#[trigger] first[k]).0,
            ) by {
                assert(recorded_from(before, id, from)[k] == first[k]);
            }
        }
        assert(covered_from(before, id, from + 1, weights)) by {
            assert forall|k: int| 0 <= k < rest.len() implies blocks(weights).contains(
                (#[trigger] rest[k]).0,
            ) by {
                assert(recorded_from(before, id, from)[first.len() + k] == rest[k]);
            }
        }
        lemma_tally(before, after, weights, counter, budget, operand, x);
        lemma_tally_from(before, after, weights, counter, budget, id, from + 1, shift, x);
        let first_now = recorded(after, operand);
        let rest_now = recorded_from(after, id, from + 1 + shift);
        assert(after[id].shape.operands()[from as int + shift as int] == operand);
        assert(recorded_from(after, id, from + shift) == first_now + rest_now);
        lemma_blocks_concat(first, rest);
        lemma_blocks_concat(first_now, rest_now);
        lemma_occurrences_concat(blocks(first), blocks(rest), x);
        lemma_occurrences_concat(blocks(first_now), blocks(rest_now), x);
        lemma_all_arms_concat(after, blocks(first), blocks(rest));
        lemma_occurrences_concat(
            all_arms(after, blocks(first)),
            all_arms(after, blocks(rest)),
            x,
        );
    } else {
        assert(blocks(recorded_from(before, id, from)) =~= Seq::<ExprId>::empty());
        assert(blocks(recorded_from(after, id, from + shift)) =~= Seq::<ExprId>::empty());
    }
}

/// The arms of the guard of a weighed block are instructions of that guard,
/// and two.
proof fn lemma_arms(
    before: Body,
    after: Body,
    weights: Seq<(ExprId, int)>,
    counter: GlobalId,
    budget: GlobalId,
    at: int,
)
    requires
        setting(before, after, weights, counter, budget),
        0 <= at < weights.len(),
    ensures
        arms(after, weights[at].0).len() == 2,
        arms(after, weights[at].0)[0] != arms(after, weights[at].0)[1],
        guard_nodes(after, weights[at].0).contains(arms(after, weights[at].0)[0]),
        guard_nodes(after, weights[at].0).contains(arms(after, weights[at].0)[1]),
        !before.dom().contains(arms(after, weights[at].0)[0]),
        !before.dom().contains(arms(after, weights[at].0)[1]),
{
    let block = weights[at].0;
    assert(begins_with_guard(before, after, block, counter, budget, weights[at].1 as i64));
    lemma_guard_members(after, block);
}

/// No instruction of `before` is an arm of a guard.
proof fn lemma_arms_are_new(
    before: Body,
    after: Body,
    weights: Seq<(ExprId, int)>,
    counter: GlobalId,
    budget: GlobalId,
    upto: int,
    x: ExprId,
)
    requires
        setting(before, after, weights, counter, budget),
        0 <= upto <= weights.len(),
        before.dom().contains(x),
    ensures
        occurrences(all_arms(after, blocks(weights).take(upto)), x) == 0,
    decreases upto,
{
    if upto > 0 {
        let list = blocks(weights).take(upto);
        assert(list.drop_last() == blocks(weights).take(upto - 1));
        assert(list.last() == weights[upto - 1].0);
        lemma_arms_are_new(before, after, weights, counter, budget, upto - 1, x);
        lemma_arms(before, after, weights, counter, budget, upto - 1);
        let two = arms(after, weights[upto - 1].0);
        lemma_occurrences_concat(all_arms(after, list.drop_last()), two, x);
        assert forall|i: int| 0 <= i < two.len() implies two[i] != x by {}
        lemma_occurrences_absent(two, x);
    }
}

/// No instruction is an arm of two guards, or both arms of one. One that is
/// an arm belongs to the guard of one of the blocks.
proof fn lemma_arms_once(
    before: Body,
    after: Body,
    weights: Seq<(ExprId, int)>,
    counter: GlobalId,
    budget: GlobalId,
    upto: int,
    x: ExprId,
)
    requires
        setting(before, after, weights, counter, budget),
        0 <= upto <= weights.len(),
    ensures
        occurrences(all_arms(after, blocks(weights).take(upto)), x) <= 1,
        occurrences(all_arms(after, blocks(weights).take(upto)), x) == 1 ==> exists|i: int|
            0 <= i < upto && guard_nodes(after, (#[trigger] weights[i]).0).contains(x),
    decreases upto,
{
    if upto > 0 {
        let list = blocks(weights).take(upto);
        assert(list.drop_last() == blocks(weights).take(upto - 1));
        assert(list.last() == weights[upto - 1].0);
        lemma_arms_once(before, after, weights, counter, budget, upto - 1, x);
        lemma_arms(before, after, weights, counter, budget, upto - 1);
        let two = arms(after, weights[upto - 1].0);
        lemma_occurrences_concat(all_arms(after, list.drop_last()), two, x);
        assert(two == seq![two[0]].push(two[1]));
        lemma_occurrences_push(seq![two[0]], two[1], x);
        assert(seq![two[0]] == Seq::<ExprId>::empty().push(two[0]));
        lemma_occurrences_push(Seq::<ExprId>::empty(), two[0], x);
        if occurrences(two, x) >= 1 {
            assert(guard_nodes(after, weights[upto - 1].0).contains(x));
            if occurrences(all_arms(after, list.drop_last()), x) == 1 {
                let i = choose|i: int|
                    0 <= i < upto - 1 && guard_nodes(after, (#[trigger] weights[i]).0).contains(x);
                assert(guard_nodes(after, weights[i].0).disjoint(
                    guard_nodes(after, weights[upto - 1].0),
                ));
            }
        }
    }
}

/// An instrumented body is well-formed as the body before was.
pub proof fn lemma_stays_well_formed(
    before: Body,
    after: Body,
    entry: ExprId,
    counter: GlobalId,
    budget: GlobalId,
)
    requires
        well_formed(before, entry),
        instrumented(before, after, entry, counter, budget),
    ensures
        well_formed(after, entry),
{
    let weights = recorded(before, entry);
    let size = weights.len() as int;
    lemma_recorded(before, entry);
    lemma_stays_acyclic(before, after, weights, counter, budget);
    assert(weights.last().0 == entry);
    assert(begins_with_guard(before, after, entry, counter, budget, weights.last().1 as i64));
    assert(blocks(weights).take(size) == blocks(weights));
    assert(covered(before, entry, weights)) by {
        assert forall|k: int| 0 <= k < weights.len() implies blocks(weights).contains(
            (#[trigger] weights[k]).0,
        ) by {
            assert(blocks(weights)[k] == weights[k].0);
        }
    }
    assert forall|x: ExprId| occurrences(blocks(recorded(after, entry)), x) <= 1 by {
        lemma_tally(before, after, weights, counter, budget, entry, x);
        lemma_no_duplicates_once(blocks(weights), x);
        if before.dom().contains(x) {
            lemma_arms_are_new(before, after, weights, counter, budget, size, x);
        } else {
            assert forall|k: int| 0 <= k < blocks(weights).len() implies blocks(weights)[k]
                != x by {
                assert(before.dom().contains(weights[k].0));
            }
            lemma_occurrences_absent(blocks(weights), x);
            lemma_arms_once(before, after, weights, counter, budget, size, x);
        }
    }
    lemma_once_each(blocks(recorded(after, entry)));
}

/// An instruction of `before` charges in `after` what it charged before.
proof fn lemma_cost_stays(
    before: Body,
    after: Body,
    weights: Seq<(ExprId, int)>,
    counter: GlobalId,
    budget: GlobalId,
    id: ExprId,
)
    requires
        setting(before, after, weights, counter, budget),
        before.dom().contains(id),
        covered(before, id, weights),
    ensures
        cost(after, id) == cost(before, id),
    decreases height(before, id), before[id].shape.operands().len() + 1,
{
    assert(weights.take(weights.len() as int) == weights);
    let was = recorded_from(before, id, 0);
    if before[id].shape is Block {
        assert(recorded(before, id)[was.len() as int].0 == id);
        let i = choose|i: int| 0 <= i < blocks(weights).len() && blocks(weights)[i] == id;
        assert(weights[i].0 == id);
        assert(begins_with_guard(before, after, id, counter, budget, weights[i].1 as i64));
    } else {
        assert(covered_from(before, id, 0, weights)) by {
            assert forall|k: int| 0 <= k < was.len() implies blocks(weights).contains(
                (#[trigger] was[k]).0,
            ) by {
                assert(recorded(before, id)[k] == was[k]);
            }
        }
        assert(!blocks(weights).contains(id)) by {
            if blocks(weights).contains(id) {
                let i = choose|i: int| 0 <= i < blocks(weights).len() && blocks(weights)[i] == id;
                assert(weights[i].0 == id);
            }
        }
        assert(after[id] == before[id]);
        lemma_cost_stays_from(before, after, weights, counter, budget, id, 0, 0);
    }
}

/// The same of the operands of `id` from `from` on, which stand `shift`
/// places further on in `after`.
proof fn lemma_cost_stays_from(
    before: Body,
    after: Body,
    weights: Seq<(ExprId, int)>,
    counter: GlobalId,
    budget: GlobalId,
    id: ExprId,
    from: nat,
    shift: nat,
)
    requires
        setting(before, after, weights, counter, budget),
        before.dom().contains(id),
        after.dom().contains(id),
        covered_from(before, id, from, weights),
        after[id].shape.operands().len() == before[id].shape.operands().len() + shift,
        forall|k: int|
            0 <= k < before[id].shape.operands().len() ==> after[id].shape.operands()[k + shift]
                == before[id].shape.operands()[k],
    ensures
        cost_from(after, id, from + shift) == cost_from(before, id, from),
    decreases height(before, id), before[id].shape.operands().len() - from,
{
    let operands = before[id].shape.operands();
    if from < operands.len() {
        let operand = operands[from as int];
        lemma_operand(before, id, from as int);
        let first = recorded(before, operand);
        let rest = recorded_from(before, id, from + 1);
        assert(recorded_from(before, id, from) == first + rest);
        assert(covered(before, operand, weights)) by {
            assert forall|k: int| 0 <= k < first.len() implies blocks(weights).contains(
                (#[trigger] first[k]).0,
            ) by {
                assert(recorded_from(before, id, from)[k] == first[k]);
            }
        }
        assert(covered_from(before, id, from + 1, weights)) by {
            assert forall|k: int| 0 <= k < rest.len() implies blocks(weights).contains(
                (#[trigger] rest[k]).0,
            ) by {
                assert(recorded_from(before, id, from)[first.len() + k] == rest[k]);
            }
        }
        lemma_cost_stays(before, after, weights, counter, budget, operand);
        lemma_cost_stays_from(before, after, weights, counter, budget, id, from + 1, shift);
        assert(after[id].shape.operands()[from as int + shift as int] == operand);
    }
}

/// Every block that is recorded at or below `id` has all its own blocks
/// among those of `weights`, where `id` has.
proof fn lemma_covered_below(before: Body, id: ExprId, weights: Seq<(ExprId, int)>, at: int)
    requires
        acyclic(before),
        before.dom().contains(id),
        covered(before, id, weights),
        0 <= at < recorded(before, id).len(),
    ensures
        covered(before, recorded(before, id)[at].0, weights),
    decreases height(before, id), before[id].shape.operands().len() + 1,
{
    let was = recorded_from(before, id, 0);
    if at < was.len() {
        assert(covered_from(before, id, 0, weights)) by {
            assert forall|k: int| 0 <= k < was.len() implies blocks(weights).contains(
                (#[trigger] was[k]).0,
            ) by {
                assert(recorded(before, id)[k] == was[k]);
            }
        }
        assert(recorded(before, id)[at] == was[at]);
        lemma_covered_below_from(before, id, 0, weights, at);
    }
}

/// The same of the operands of `id` from `from` on.
proof fn lemma_covered_below_from(
    before: Body,
    id: ExprId,
    from: nat,
    weights: Seq<(ExprId, int)>,
    at: int,
)
    requires
        acyclic(before),
        before.dom().contains(id),
        covered_from(before, id, from, weights),
        0 <= at < recorded_from(before, id, from).len(),
    ensures
        covered(before, recorded_from(before, id, from)[at].0, weights),
    decreases height(before, id), before[id].shape.operands().len() - from,
{
    let operands = before[id].shape.operands();
    if from < operands.len() {
        let operand = operands[from as int];
        lemma_operand(before, id, from as int);
        let first = recorded(before, operand);
        let rest = recorded_from(before, id, from + 1);
        assert(recorded_from(before, id, from) == first + rest);
        if at < first.len() {
            assert(covered(before, operand, weights)) by {
                assert forall|k: int| 0 <= k < first.len() implies blocks(weights).contains(
                    (#[trigger] first[k]).0,
                ) by {
                    assert(recorded_from(before, id, from)[k] == first[k]);
                }
            }
            lemma_covered_below(before, operand, weights, at);
        } else {
            assert(covered_from(before, id, from + 1, weights)) by {
                assert forall|k: int| 0 <= k < rest.len() implies blocks(weights).contains(
                    (#[trigger] rest[k]).0,
                ) by {
                    assert(recorded_from(before, id, from)[first.len() + k] == rest[k]);
                }
            }
            assert(recorded_from(before, id, from)[at] == rest[at - first.len()]);
            lemma_covered_below_from(before, id, from + 1, weights, at - first.len());
        }
    }
}

/// The update of a guard charges 4.
proof fn lemma_update_costs(body: Body, update: ExprId, counter: GlobalId, amount: i64)
    requires
        acyclic(body),
        is_update(body, update, counter, amount),
    ensures
        cost(body, update) == 4,
{
    let sum = body[update].shape->GlobalSet_value;
    let lhs = body[sum].shape->Binop_lhs;
    let rhs = body[sum].shape->Binop_rhs;
    assert(cost(body, lhs) == 1);
    assert(cost(body, rhs) == 1);
    assert(body[sum].shape.operands() == seq![lhs, rhs]);
    assert(cost_from(body, sum, 2) == 0);
    assert(cost_from(body, sum, 1) == cost(body, rhs) + cost_from(body, sum, 2));
    assert(cost_from(body, sum, 0) == cost(body, lhs) + cost_from(body, sum, 1));
    assert(cost(body, sum) == 3);
    assert(body[update].shape.operands() == seq![sum]);
    assert(cost_from(body, update, 1) == 0);
    assert(cost_from(body, update, 0) == cost(body, sum) + cost_from(body, update, 1));
}

/// The check of a guard charges 8.
proof fn lemma_check_costs(body: Body, check: ExprId, counter: GlobalId, budget: GlobalId)
    requires
        acyclic(body),
        is_check(body, check, counter, budget),
    ensures
        cost(body, check) == 8,
{
    let condition = body[check].shape->IfElse_condition;
    let consequent = body[check].shape->IfElse_consequent;
    let alternative = body[check].shape->IfElse_alternative;
    let lhs = body[condition].shape->Binop_lhs;
    let rhs = body[condition].shape->Binop_rhs;
    assert(cost(body, lhs) == 1);
    assert(cost(body, rhs) == 1);
    assert(body[condition].shape.operands() == seq![lhs, rhs]);
    assert(cost_from(body, condition, 2) == 0);
    assert(cost_from(body, condition, 1) == cost(body, rhs) + cost_from(body, condition, 2));
    assert(cost_from(body, condition, 0) == cost(body, lhs) + cost_from(body, condition, 1));
    assert(cost(body, condition) == 3);
    assert(cost(body, consequent) == 1);
    assert(cost(body, alternative) == 1);
    assert(body[check].shape.operands() == seq![condition, consequent, alternative]);
    assert(cost_from(body, check, 3) == 0);
    assert(cost_from(body, check, 2) == cost(body, alternative) + cost_from(body, check, 3));
    assert(cost_from(body, check, 1) == cost(body, consequent) + cost_from(body, check, 2));
    assert(cost_from(body, check, 0) == cost(body, condition) + cost_from(body, check, 1));
}

/// In an instrumented body every weighed block weighs 12 more than before: 4
/// for the update of its guard and 8 for the check.
pub proof fn lemma_guard_weighs(
    before: Body,
    after: Body,
    entry: ExprId,
    counter: GlobalId,
    budget: GlobalId,
    at: int,
)
    requires
        well_formed(before, entry),
        instrumented(before, after, entry, counter, budget),
        0 <= at < recorded(before, entry).len(),
    ensures
        weight(after, recorded(before, entry)[at].0) == recorded(before, entry)[at].1 + 12,
{
    let weights = recorded(before, entry);
    let block = weights[at].0;
    lemma_recorded(before, entry);
    lemma_stays_acyclic(before, after, weights, counter, budget);
    assert(covered(before, entry, weights)) by {
        assert forall|k: int| 0 <= k < weights.len() implies blocks(weights).contains(
            (#[trigger] weights[k]).0,
        ) by {
            assert(blocks(weights)[k] == weights[k].0);
        }
    }
    lemma_covered_below(before, entry, weights, at);
    assert(begins_with_guard(before, after, block, counter, budget, weights[at].1 as i64));
    let exprs = after[block].shape->Block_exprs;
    let held = before[block].shape->Block_exprs;
    assert forall|k: int| 0 <= k < held.len() implies exprs[k + 2] == held[k] by {
        assert(exprs.skip(2)[k] == exprs[k + 2]);
    }
    let was = recorded_from(before, block, 0);
    assert(covered_from(before, block, 0, weights)) by {
        assert forall|k: int| 0 <= k < was.len() implies blocks(weights).contains(
            (#[trigger] was[k]).0,
        ) by {
            assert(recorded(before, block)[k] == was[k]);
        }
    }
    lemma_cost_stays_from(before, after, weights, counter, budget, block, 0, 2);
    lemma_update_costs(after, exprs[0], counter, weights[at].1 as i64);
    lemma_check_costs(after, exprs[1], counter, budget);
    assert(cost_from(after, block, 1) == cost(after, exprs[1]) + cost_from(after, block, 2));
    assert(cost_from(after, block, 0) == cost(after, exprs[0]) + cost_from(after, block, 1));
}

/// In an instrumented body every block that the pass has weighed is weighed
/// again, with 12 more.
pub proof fn lemma_weighed_again(
    before: Body,
    after: Body,
    entry: ExprId,
    counter: GlobalId,
    budget: GlobalId,
    at: int,
) -> (found: int)
    requires
        well_formed(before, entry),
        instrumented(before, after, entry, counter, budget),
        0 <= at < recorded(before, entry).len(),
    ensures
        0 <= found < recorded(after, entry).len(),
        recorded(after, entry)[found] == (
            recorded(before, entry)[at].0,
            recorded(before, entry)[at].1 + 12,
        ),
{
    let weights = recorded(before, entry);
    let block = weights[at].0;
    let now = recorded(after, entry);
    lemma_recorded(before, entry);
    lemma_stays_acyclic(before, after, weights, counter, budget);
    assert(covered(before, entry, weights)) by {
        assert forall|k: int| 0 <= k < weights.len() implies blocks(weights).contains(
            (#[trigger] weights[k]).0,
        ) by {
            assert(blocks(weights)[k] == weights[k].0);
        }
    }
    lemma_tally(before, after, weights, counter, budget, entry, block);
    assert(blocks(weights)[at] == block);
    lemma_occurrences_present(blocks(weights), at);
    if !blocks(now).contains(block) {
        lemma_occurrences_absent(blocks(now), block);
    }
    let found = choose|found: int| 0 <= found < blocks(now).len() && blocks(now)[found] == block;
    assert(now[found].0 == block);
    assert(after.dom().contains(entry));
    lemma_recorded(after, entry);
    lemma_guard_weighs(before, after, entry, counter, budget, at);
    found
}

} // verus!
