//! The pass: two globals for the whole module, and for every function the
//! analysis, then a guard at the head of every block that the analysis has
//! weighed.

use crate::analyze::{analysis, inject, lemma_operand, pairs, walkable};
use crate::cost::{acyclic, height, recorded, recorded_from, weight};
use crate::function_body::{body_of, entry_of};
use crate::generate::{begins_with_guard, guard_nodes, guarded, inject_ops, lemma_guard_stays};
use crate::ir::Body;
use crate::module::{
    add_i64_global, globals_of, local_function, local_function_ids, local_function_mut,
    local_functions, sound, GlobalView,
};
use crate::preserve::lemma_stays_well_formed;
use vstd::prelude::*;
use walrus::ir::ExprId;
use walrus::{FunctionId, GlobalId, LocalFunction, Module};

verus! {

/// The blocks of a list of weights.
pub open spec fn blocks(weights: Seq<(ExprId, int)>) -> Seq<ExprId> {
    weights.map_values(|w: (ExprId, int)| w.0)
}

/// A body as a function holds it: the walk from the entry block ends, and it
/// comes to no block twice.
pub open spec fn well_formed(body: Body, entry: ExprId) -> bool {
    &&& walkable(body, entry)
    &&& blocks(recorded(body, entry)).no_duplicates()
}

/// `after` is `before` with a guard at the head of each of the first `upto`
/// blocks of `weights`, for the weight of that block. Every instruction of
/// `before` is live in `after`, and all but those blocks are as they were.
/// Nothing but the guards is added, and no two guards share an instruction.
pub open spec fn guards_placed(
    before: Body,
    after: Body,
    weights: Seq<(ExprId, int)>,
    upto: int,
    counter: GlobalId,
    budget: GlobalId,
) -> bool {
    &&& forall|id: ExprId| #[trigger] before.dom().contains(id) ==> after.dom().contains(id)
    &&& forall|id: ExprId|
        #[trigger] before.dom().contains(id) && !blocks(weights.take(upto)).contains(id)
            ==> after[id] == before[id]
    &&& forall|i: int|
        0 <= i < upto ==> begins_with_guard(
            before,
            after,
            (#[trigger] weights[i]).0,
            counter,
            budget,
            weights[i].1 as i64,
        )
    &&& forall|id: ExprId| #[trigger]
        after.dom().contains(id) ==> before.dom().contains(id) || exists|i: int|
            0 <= i < upto && guard_nodes(after, (#[trigger] weights[i]).0).contains(id)
    &&& forall|i: int, j: int|
        0 <= i < j < upto ==> guard_nodes(after, (#[trigger] weights[i]).0).disjoint(
            guard_nodes(after, (#[trigger] weights[j]).0),
        )
}

/// `after` is `before` with a guard at the head of every block that the
/// analysis has weighed from `entry` down.
pub open spec fn instrumented(
    before: Body,
    after: Body,
    entry: ExprId,
    counter: GlobalId,
    budget: GlobalId,
) -> bool {
    guards_placed(
        before,
        after,
        recorded(before, entry),
        recorded(before, entry).len() as int,
        counter,
        budget,
    )
}

/// A guard at the head of the next block of `weights` is one guard more.
proof fn lemma_one_more(
    first: Body,
    before: Body,
    after: Body,
    weights: Seq<(ExprId, int)>,
    upto: int,
    counter: GlobalId,
    budget: GlobalId,
)
    requires
        0 <= upto < weights.len(),
        blocks(weights).no_duplicates(),
        first.dom().contains(weights[upto].0),
        guards_placed(first, before, weights, upto, counter, budget),
        guarded(before, after, weights[upto].0, counter, budget, weights[upto].1 as i64),
    ensures
        guards_placed(first, after, weights, upto + 1, counter, budget),
{
    let block = weights[upto].0;
    assert(blocks(weights)[upto] == block);
    assert(!blocks(weights.take(upto)).contains(block)) by {
        if blocks(weights.take(upto)).contains(block) {
            let j = choose|j: int|
                0 <= j < blocks(weights.take(upto)).len() && blocks(weights.take(upto))[j]
                    == block;
            assert(blocks(weights)[j] == block);
        }
    }
    assert(before[block] == first[block]);
    assert forall|i: int| 0 <= i < upto implies begins_with_guard(
        first,
        after,
        (#[trigger] weights[i]).0,
        counter,
        budget,
        weights[i].1 as i64,
    ) && guard_nodes(after, weights[i].0) == guard_nodes(before, weights[i].0) by {
        assert(blocks(weights)[i] == weights[i].0);
        lemma_guard_stays(
            first,
            before,
            after,
            weights[i].0,
            block,
            counter,
            budget,
            weights[i].1 as i64,
        );
    }
    assert forall|id: ExprId|
        #[trigger] first.dom().contains(id) && !blocks(weights.take(upto + 1)).contains(
            id,
        ) implies after[id] == first[id] by {
        assert(weights.take(upto + 1)[upto] == weights[upto]);
        assert(blocks(weights.take(upto + 1))[upto] == block);
        if blocks(weights.take(upto)).contains(id) {
            let j = choose|j: int|
                0 <= j < blocks(weights.take(upto)).len() && blocks(weights.take(upto))[j] == id;
            assert(blocks(weights.take(upto + 1))[j] == id);
        }
    }
    assert(begins_with_guard(first, after, block, counter, budget, weights[upto].1 as i64));
    assert forall|id: ExprId| #[trigger] after.dom().contains(id) implies first.dom().contains(id)
        || exists|i: int|
        0 <= i < upto + 1 && guard_nodes(after, (#[trigger] weights[i]).0).contains(id) by {
        if before.dom().contains(id) {
            if !first.dom().contains(id) {
                let i = choose|i: int|
                    0 <= i < upto && guard_nodes(before, (#[trigger] weights[i]).0).contains(id);
                assert(guard_nodes(after, weights[i].0).contains(id));
            }
        } else {
            assert(guard_nodes(after, weights[upto].0).contains(id));
        }
    }
    assert forall|i: int, j: int| 0 <= i < j < upto + 1 implies guard_nodes(
        after,
        (#[trigger] weights[i]).0,
    ).disjoint(guard_nodes(after, (#[trigger] weights[j]).0)) by {
        if j == upto {
            assert forall|id: ExprId|
                guard_nodes(before, weights[i].0).contains(id) implies !guard_nodes(
                after,
                block,
            ).contains(id) by {
                assert(before.dom().contains(id));
            }
        }
    }
}

/// Every block recorded at or below `id` is a live block, recorded with its
/// weight.
pub open spec fn weighed(body: Body, weights: Seq<(ExprId, int)>) -> bool {
    forall|i: int|
        0 <= i < weights.len() ==> {
            &&& body.dom().contains((#[trigger] weights[i]).0)
            &&& body[weights[i].0].shape is Block
            &&& weights[i].1 == weight(body, weights[i].0)
        }
}

/// What the analysis records at or below `id` are live blocks with their
/// weights.
pub proof fn lemma_recorded(body: Body, id: ExprId)
    requires
        acyclic(body),
        body.dom().contains(id),
    ensures
        weighed(body, recorded(body, id)),
    decreases height(body, id), body[id].shape.operands().len() + 1,
{
    lemma_recorded_from(body, id, 0);
}

/// The same of the operands of `id` from `from` on.
pub proof fn lemma_recorded_from(body: Body, id: ExprId, from: nat)
    requires
        acyclic(body),
        body.dom().contains(id),
    ensures
        weighed(body, recorded_from(body, id, from)),
    decreases height(body, id), body[id].shape.operands().len() - from,
{
    let operands = body[id].shape.operands();
    if from < operands.len() {
        lemma_operand(body, id, from as int);
        lemma_recorded(body, operands[from as int]);
        lemma_recorded_from(body, id, from + 1);
    }
}

/// Weighs the blocks of `func` and puts a guard at the head of each. Returns
/// false, and leaves the function as it is, where a weight is no `i64`. The
/// function is well-formed afterwards as it was before.
pub fn instrument_function(
    func: &mut LocalFunction,
    counter: GlobalId,
    budget: GlobalId,
) -> (done: bool)
    requires
        well_formed(body_of(*old(func)), entry_of(*old(func))),
    ensures
        entry_of(*final(func)) == entry_of(*old(func)),
        done <==> analysis(body_of(*old(func)), entry_of(*old(func))) is Some,
        done ==> instrumented(
            body_of(*old(func)),
            body_of(*final(func)),
            entry_of(*old(func)),
            counter,
            budget,
        ),
        !done ==> body_of(*final(func)) == body_of(*old(func)),
        well_formed(body_of(*final(func)), entry_of(*final(func))),
{
    let ghost first = body_of(*func);
    let ghost entry = entry_of(*func);
    let map = match inject(func) {
        Some(map) => map,
        None => {
            return false;
        },
    };
    let ghost weights = recorded(first, entry);
    proof {
        lemma_recorded(first, entry);
    }
    let mut i: usize = 0;
    while i < map.len()
        invariant
            i <= map@.len(),
            pairs(map@) == weights,
            weighed(first, weights),
            blocks(weights).no_duplicates(),
            entry_of(*func) == entry,
            guards_placed(first, body_of(*func), weights, i as int, counter, budget),
        decreases map@.len() - i,
    {
        let ghost before = body_of(*func);
        let entry_weight = map[i];
        proof {
            assert(pairs(map@)[i as int] == map@[i as int]@);
        }
        inject_ops(func, counter, budget, entry_weight.block, entry_weight.weight);
        proof {
            lemma_one_more(first, before, body_of(*func), weights, i as int, counter, budget);
        }
        i += 1;
    }
    proof {
        lemma_stays_well_formed(first, body_of(*func), entry, counter, budget);
    }
    true
}

/// The two globals that the guards of a module share.
#[derive(Debug, Clone, Copy)]
pub struct Globals {
    /// Counts the weight of every block entered. Starts at 0.
    pub counter: GlobalId,
    /// The limit that the counter is held against. No guard writes it.
    pub budget: GlobalId,
}

/// `after` is `before` with the two globals of `globals` declared: both new,
/// distinct, mutable and 64 bits wide, the counter 0 and the budget `limit`.
pub open spec fn provisioned(
    before: Map<GlobalId, GlobalView>,
    after: Map<GlobalId, GlobalView>,
    globals: Globals,
    limit: i64,
) -> bool {
    &&& !before.dom().contains(globals.counter)
    &&& !before.dom().contains(globals.budget)
    &&& globals.counter != globals.budget
    &&& after == before.insert(
        globals.counter,
        GlobalView::I64 { mutable: true, initial: 0 },
    ).insert(globals.budget, GlobalView::I64 { mutable: true, initial: limit })
}

/// Declares the counter and the budget of a module.
pub fn provision(module: &mut Module, limit: i64) -> (globals: Globals)
    ensures
        provisioned(globals_of(*old(module)), globals_of(*final(module)), globals, limit),
        local_functions(*final(module)) == local_functions(*old(module)),
{
    let counter = add_i64_global(module, 0);
    let budget = add_i64_global(module, limit);
    Globals { counter, budget }
}

/// What the pass makes of one function: `after` is `before` instrumented,
/// with the same entry block.
pub open spec fn processed(before: LocalFunction, after: LocalFunction, globals: Globals) -> bool {
    &&& entry_of(after) == entry_of(before)
    &&& instrumented(
        body_of(before),
        body_of(after),
        entry_of(before),
        globals.counter,
        globals.budget,
    )
}

/// Every weight of every local function of `module` is an `i64`.
pub open spec fn weighable(module: Module) -> bool {
    forall|id: FunctionId| #[trigger]
        local_functions(module).dom().contains(id) ==> analysis(
            body_of(local_functions(module)[id]),
            entry_of(local_functions(module)[id]),
        ) is Some
}

/// `after` is `before` after the pass with the budget `limit` and the globals
/// `globals`: the counter and the budget are declared, the functions are the
/// same in number, and each is instrumented.
pub open spec fn counted(before: Module, after: Module, globals: Globals, limit: i64) -> bool {
    &&& provisioned(globals_of(before), globals_of(after), globals, limit)
    &&& local_functions(after).dom() == local_functions(before).dom()
    &&& forall|id: FunctionId| #[trigger]
        local_functions(before).dom().contains(id) ==> processed(
            local_functions(before)[id],
            local_functions(after)[id],
            globals,
        )
}

/// Weighs every local function of `module` and changes none. Returns whether
/// every weight is an `i64`.
pub fn weigh(module: &Module) -> (fits: bool)
    requires
        sound(*module),
    ensures
        fits <==> weighable(*module),
{
    let ids = local_function_ids(module);
    let ghost functions = local_functions(*module);
    let mut i: usize = 0;
    while i < ids.len()
        invariant
            i <= ids@.len(),
            sound(*module),
            functions == local_functions(*module),
            forall|id: FunctionId| ids@.contains(id) <==> functions.dom().contains(id),
            forall|j: int|
                0 <= j < i ==> analysis(
                    body_of(functions[#[trigger] ids@[j]]),
                    entry_of(functions[ids@[j]]),
                ) is Some,
        decreases ids@.len() - i,
    {
        let id = ids[i];
        proof {
            assert(ids@.contains(id));
        }
        if inject(local_function(module, id)).is_none() {
            return false;
        }
        i += 1;
    }
    proof {
        assert forall|id: FunctionId| #[trigger] functions.dom().contains(id) implies analysis(
            body_of(functions[id]),
            entry_of(functions[id]),
        ) is Some by {
            let j = choose|j: int| 0 <= j < ids@.len() && ids@[j] == id;
            assert(ids@[j] == id);
        }
    }
    true
}

/// Weighs every local function first. Where every weight is an `i64`, declares
/// the counter and the budget, instruments every local function in turn, and
/// returns the two globals: no function is added or removed, and every
/// function is well-formed afterwards. Where a weight is no `i64`, returns
/// `None` and leaves the module as it was.
pub fn inject_counting(module: &mut Module, limit: i64) -> (globals: Option<Globals>)
    requires
        sound(*old(module)),
    ensures
        globals is Some <==> weighable(*old(module)),
        globals matches Some(declared) ==> counted(*old(module), *final(module), declared, limit)
            && sound(*final(module)),
        globals is None ==> *final(module) == *old(module),
{
    if !weigh(module) {
        return None;
    }
    let ghost first = local_functions(*module);
    let globals = provision(module, limit);
    let ghost declared = globals_of(*module);
    let ids = local_function_ids(module);
    let mut i: usize = 0;
    while i < ids.len()
        invariant
            i <= ids@.len(),
            ids@.no_duplicates(),
            forall|id: FunctionId| ids@.contains(id) <==> first.dom().contains(id),
            forall|id: FunctionId| #[trigger]
                first.dom().contains(id) ==> well_formed(body_of(first[id]), entry_of(first[id])),
            forall|id: FunctionId| #[trigger]
                first.dom().contains(id) ==> analysis(body_of(first[id]), entry_of(first[id]))
                    is Some,
            globals_of(*module) == declared,
            local_functions(*module).dom() == first.dom(),
            sound(*module),
            forall|j: int|
                0 <= j < i ==> processed(
                    first[#[trigger] ids@[j]],
                    local_functions(*module)[ids@[j]],
                    globals,
                ),
            forall|j: int|
                i <= j < ids@.len() ==> local_functions(*module)[#[trigger] ids@[j]]
                    == first[ids@[j]],
        decreases ids@.len() - i,
    {
        let id = ids[i];
        proof {
            assert(ids@.contains(id));
        }
        match local_function_mut(module, id) {
            Some(func) => {
                instrument_function(func, globals.counter, globals.budget);
            },
            None => {},
        }
        proof {
            let after = local_functions(*module);
            assert(after.dom() =~= first.dom());
            assert forall|j: int| 0 <= j < i + 1 implies processed(
                first[#[trigger] ids@[j]],
                after[ids@[j]],
                globals,
            ) by {
                if j < i {
                    assert(ids@[j] != ids@[i as int]);
                }
            }
        }
        i += 1;
    }
    proof {
        assert forall|id: FunctionId| #[trigger] first.dom().contains(id) implies processed(
            first[id],
            local_functions(*module)[id],
            globals,
        ) by {
            let j = choose|j: int| 0 <= j < ids@.len() && ids@[j] == id;
            assert(ids@[j] == id);
        }
    }
    Some(globals)
}

} // verus!
