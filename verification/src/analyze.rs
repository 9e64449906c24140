//! The block cost analysis: one walk over a function body that finds the
//! weight of every block.

use crate::cost::{
    acyclic, cost, cost_from, heaviest, heaviest_from, height, ranked, recorded, recorded_from,
    weight,
};
use crate::function_body::{body_of, entry_block, entry_of, read};
use crate::ir::{Body, Node, Shape};
use vstd::prelude::*;
use walrus::ir::ExprId;
use walrus::LocalFunction;

verus! {

/// A block and the weight that the analysis found for it.
#[derive(Debug, Clone, Copy)]
pub struct BlockWeight {
    pub block: ExprId,
    pub weight: i64,
}

impl View for BlockWeight {
    type V = (ExprId, int);

    open spec fn view(&self) -> (ExprId, int) {
        (self.block, self.weight as int)
    }
}

/// The entries of a list of block weights as mathematical pairs.
pub open spec fn pairs(weights: Seq<BlockWeight>) -> Seq<(ExprId, int)> {
    weights.map_values(|w: BlockWeight| w@)
}

/// The operands of `id` can be counted from `start` within an `i64`, and so
/// can every block below them.
pub open spec fn room(body: Body, id: ExprId, start: int) -> bool {
    start + cost_from(body, id, 0) <= i64::MAX && heaviest_from(body, id, 0) <= i64::MAX
}

/// The instruction `id` can be counted from `start` within an `i64`, and so
/// can every block at or below it.
pub open spec fn fits(body: Body, id: ExprId, start: int) -> bool {
    start + cost(body, id) <= i64::MAX && heaviest(body, id) <= i64::MAX
}

/// An operand of a live instruction is live and lies lower.
pub proof fn lemma_operand(body: Body, id: ExprId, at: int)
    requires
        acyclic(body),
        body.dom().contains(id),
        0 <= at < body[id].shape.operands().len(),
    ensures
        body.dom().contains(body[id].shape.operands()[at]),
        height(body, body[id].shape.operands()[at]) < height(body, id),
{
    let rank = choose|rank: spec_fn(ExprId) -> nat| ranked(body, rank);
    assert(ranked(body, rank));
    assert(body.dom().contains(body[id].shape.operands()[at]));
}

/// The state of the walk over one function.
pub struct Injector {
    /// What has been charged so far to the block that the walk stands in.
    pub count: i64,
    /// The blocks that the walk has left, with their weights.
    pub map: Vec<BlockWeight>,
}

impl Injector {
    /// The walk has gone through `id`, begun in the state `before`.
    pub open spec fn passed(self, before: Injector, body: Body, id: ExprId) -> bool {
        &&& self.count == before.count + cost(body, id)
        &&& pairs(self.map@) == pairs(before.map@) + recorded(body, id)
    }

    /// The walk has gone through the operands of `id` before the one at `at`,
    /// begun in the state `start`, and each fitted.
    pub open spec fn arrived(self, start: Injector, body: Body, id: ExprId, at: nat) -> bool {
        &&& at <= body[id].shape.operands().len()
        &&& 0 <= start.count
        &&& 0 <= self.count
        &&& self.count + cost_from(body, id, at) == start.count + cost_from(body, id, 0)
        &&& pairs(self.map@) + recorded_from(body, id, at) == pairs(start.map@) + recorded_from(
            body,
            id,
            0,
        )
        &&& heaviest_from(body, id, 0) <= i64::MAX <==> heaviest_from(body, id, at) <= i64::MAX
    }

    /// The walk stands before the first operand of `id`.
    proof fn lemma_arrived(self, body: Body, id: ExprId)
        requires
            0 <= self.count,
        ensures
            self.arrived(self, body, id, 0),
    {
        assert(pairs(self.map@) + recorded_from(body, id, 0) == pairs(self.map@) + recorded_from(
            body,
            id,
            0,
        ));
    }

    /// A walk that has counted nothing.
    pub fn new() -> (fresh: Injector)
        ensures
            fresh.count == 0,
            fresh.map@.len() == 0,
    {
        Injector { count: 0, map: Vec::new() }
    }

    /// Adds `amount` to the count of the current block. Returns false, and
    /// leaves the count as it is, where the sum is no `i64`.
    fn charge(&mut self, amount: i64) -> (done: bool)
        requires
            amount >= 0,
        ensures
            done <==> old(self).count + amount <= i64::MAX,
            done ==> final(self).count == old(self).count + amount,
            final(self).map == old(self).map,
    {
        match self.count.checked_add(amount) {
            Some(sum) => {
                self.count = sum;
                true
            },
            None => false,
        }
    }

    /// Visits the operand `operand` of `id`, which stands at `at`.
    fn operand(
        &mut self,
        func: &LocalFunction,
        Ghost(id): Ghost<ExprId>,
        Ghost(start): Ghost<Injector>,
        Ghost(at): Ghost<nat>,
        operand: ExprId,
    ) -> (done: bool)
        requires
            acyclic(body_of(*func)),
            body_of(*func).dom().contains(id),
            at < body_of(*func)[id].shape.operands().len(),
            operand == body_of(*func)[id].shape.operands()[at as int],
            old(self).arrived(start, body_of(*func), id, at),
        ensures
            done ==> final(self).arrived(start, body_of(*func), id, (at + 1) as nat),
            !done ==> !room(body_of(*func), id, start.count as int),
        decreases height(body_of(*func), id), 1nat,
    {
        proof {
            lemma_operand(body_of(*func), id, at as int);
        }
        let ghost body = body_of(*func);
        let ghost entered = *self;
        let done = self.visit(func, operand);
        proof {
            if done {
                let rest = recorded_from(body, id, (at + 1) as nat);
                let here = recorded(body, operand);
                assert(pairs(self.map@) + rest == pairs(start.map@) + recorded_from(body, id, 0))
                    by {
                    assert(pairs(entered.map@) + (here + rest) == (pairs(entered.map@) + here)
                        + rest);
                }
            }
        }
        done
    }

    /// Visits `list`, which holds the operands of `id` from `at` on.
    fn operands(
        &mut self,
        func: &LocalFunction,
        Ghost(id): Ghost<ExprId>,
        Ghost(start): Ghost<Injector>,
        Ghost(at): Ghost<nat>,
        list: &Vec<ExprId>,
    ) -> (done: bool)
        requires
            acyclic(body_of(*func)),
            body_of(*func).dom().contains(id),
            at + list@.len() <= body_of(*func)[id].shape.operands().len(),
            forall|j: int|
                0 <= j < list@.len() ==> list@[j] == body_of(*func)[id].shape.operands()[at + j],
            old(self).arrived(start, body_of(*func), id, at),
        ensures
            done ==> final(self).arrived(start, body_of(*func), id, (at + list@.len()) as nat),
            !done ==> !room(body_of(*func), id, start.count as int),
        decreases height(body_of(*func), id), 2nat,
    {
        let mut i: usize = 0;
        while i < list.len()
            invariant
                acyclic(body_of(*func)),
                body_of(*func).dom().contains(id),
                i <= list@.len(),
                at + list@.len() <= body_of(*func)[id].shape.operands().len(),
                forall|j: int|
                    0 <= j < list@.len() ==> list@[j] == body_of(*func)[id].shape.operands()[at
                        + j],
                self.arrived(start, body_of(*func), id, (at + i) as nat),
            decreases list@.len() - i,
        {
            if !self.operand(func, Ghost(id), Ghost(start), Ghost((at + i) as nat), list[i]) {
                return false;
            }
            i += 1;
        }
        true
    }

    /// Adds what `id` charges for itself, after its operands.
    fn own(
        &mut self,
        func: &LocalFunction,
        Ghost(id): Ghost<ExprId>,
        Ghost(start): Ghost<Injector>,
        amount: i64,
    ) -> (done: bool)
        requires
            acyclic(body_of(*func)),
            body_of(*func).dom().contains(id),
            !(body_of(*func)[id].shape is Block),
            amount == body_of(*func)[id].shape.charge(),
            old(self).arrived(
                start,
                body_of(*func),
                id,
                body_of(*func)[id].shape.operands().len(),
            ),
        ensures
            done <==> fits(body_of(*func), id, start.count as int),
            done ==> final(self).passed(start, body_of(*func), id),
    {
        self.charge(amount)
    }

    /// Visits the instruction `id`: its operands first, then itself. Returns
    /// false where a count leaves the range of `i64` on the way; the state of
    /// the walk is then of no further use.
    pub fn visit(&mut self, func: &LocalFunction, id: ExprId) -> (done: bool)
        requires
            acyclic(body_of(*func)),
            body_of(*func).dom().contains(id),
            0 <= old(self).count,
        ensures
            done <==> fits(body_of(*func), id, old(self).count as int),
            done ==> final(self).passed(*old(self), body_of(*func), id),
        decreases height(body_of(*func), id), 5nat,
    {
        self.visit_expr_id(func, id)
    }

    /// Visits the instruction `id` according to its kind.
    fn visit_expr_id(&mut self, func: &LocalFunction, id: ExprId) -> (done: bool)
        requires
            acyclic(body_of(*func)),
            body_of(*func).dom().contains(id),
            0 <= old(self).count,
        ensures
            done <==> fits(body_of(*func), id, old(self).count as int),
            done ==> final(self).passed(*old(self), body_of(*func), id),
        decreases height(body_of(*func), id), 4nat,
    {
        let ghost start = *self;
        let node = read(func, id);
        proof {
            self.lemma_arrived(body_of(*func), id);
        }
        match node {
            Node::Const => self.own(func, Ghost(id), Ghost(start), 1),
            Node::Block { exprs } => self.visit_block(func, id, &exprs),
            Node::BrTable { which, targets, args } => self.visit_br_table(
                func,
                id,
                which,
                targets,
                &args,
            ),
            Node::IfElse { condition, consequent, alternative } => self.visit_if_else(
                func,
                id,
                condition,
                consequent,
                alternative,
            ),
            Node::Drop { expr } => {
                if !self.operand(func, Ghost(id), Ghost(start), Ghost(0), expr) {
                    return false;
                }
                self.own(func, Ghost(id), Ghost(start), 1)
            },
            Node::Return { values } => {
                if !self.operands(func, Ghost(id), Ghost(start), Ghost(0), &values) {
                    return false;
                }
                self.own(func, Ghost(id), Ghost(start), 1)
            },
            Node::WithSideEffects { before, value, after } => {
                if !self.operands(func, Ghost(id), Ghost(start), Ghost(0), &before) {
                    return false;
                }
                if !self.operand(func, Ghost(id), Ghost(start), Ghost(before@.len()), value) {
                    return false;
                }
                if !self.operands(func, Ghost(id), Ghost(start), Ghost(before@.len() + 1), &after) {
                    return false;
                }
                self.own(func, Ghost(id), Ghost(start), 0)
            },
            Node::MemorySize => self.own(func, Ghost(id), Ghost(start), 1),
            Node::MemoryGrow { pages } => {
                if !self.operand(func, Ghost(id), Ghost(start), Ghost(0), pages) {
                    return false;
                }
                self.own(func, Ghost(id), Ghost(start), 1)
            },
            Node::MemoryInit { memory_offset, data_offset, len } => {
                if !self.operand(func, Ghost(id), Ghost(start), Ghost(0), memory_offset) {
                    return false;
                }
                if !self.operand(func, Ghost(id), Ghost(start), Ghost(1), data_offset) {
                    return false;
                }
                if !self.operand(func, Ghost(id), Ghost(start), Ghost(2), len) {
                    return false;
                }
                self.own(func, Ghost(id), Ghost(start), 1)
            },
            Node::DataDrop => self.own(func, Ghost(id), Ghost(start), 1),
            Node::MemoryCopy { dst_offset, src_offset, len } => {
                if !self.operand(func, Ghost(id), Ghost(start), Ghost(0), dst_offset) {
                    return false;
                }
                if !self.operand(func, Ghost(id), Ghost(start), Ghost(1), src_offset) {
                    return false;
                }
                if !self.operand(func, Ghost(id), Ghost(start), Ghost(2), len) {
                    return false;
                }
                self.own(func, Ghost(id), Ghost(start), 1)
            },
            Node::MemoryFill { offset, value, len } => {
                if !self.operand(func, Ghost(id), Ghost(start), Ghost(0), offset) {
                    return false;
                }
                if !self.operand(func, Ghost(id), Ghost(start), Ghost(1), value) {
                    return false;
                }
                if !self.operand(func, Ghost(id), Ghost(start), Ghost(2), len) {
                    return false;
                }
                self.own(func, Ghost(id), Ghost(start), 1)
            },
            Node::Binop { lhs, rhs } => {
                if !self.operand(func, Ghost(id), Ghost(start), Ghost(0), lhs) {
                    return false;
                }
                if !self.operand(func, Ghost(id), Ghost(start), Ghost(1), rhs) {
                    return false;
                }
                self.own(func, Ghost(id), Ghost(start), 1)
            },
            Node::Unop { expr } => {
                if !self.operand(func, Ghost(id), Ghost(start), Ghost(0), expr) {
                    return false;
                }
                self.own(func, Ghost(id), Ghost(start), 1)
            },
            Node::Select { condition, consequent, alternative } => {
                if !self.operand(func, Ghost(id), Ghost(start), Ghost(0), alternative) {
                    return false;
                }
                if !self.operand(func, Ghost(id), Ghost(start), Ghost(1), consequent) {
                    return false;
                }
                if !self.operand(func, Ghost(id), Ghost(start), Ghost(2), condition) {
                    return false;
                }
                self.own(func, Ghost(id), Ghost(start), 1)
            },
            Node::Unreachable => self.own(func, Ghost(id), Ghost(start), 0),
            Node::Br { args } => {
                if !self.operands(func, Ghost(id), Ghost(start), Ghost(0), &args) {
                    return false;
                }
                self.own(func, Ghost(id), Ghost(start), 1)
            },
            Node::BrIf { condition, args } => {
                if !self.operands(func, Ghost(id), Ghost(start), Ghost(0), &args) {
                    return false;
                }
                if !self.operand(func, Ghost(id), Ghost(start), Ghost(args@.len()), condition) {
                    return false;
                }
                self.own(func, Ghost(id), Ghost(start), 1)
            },
            Node::Call { args } => {
                if !self.operands(func, Ghost(id), Ghost(start), Ghost(0), &args) {
                    return false;
                }
                self.own(func, Ghost(id), Ghost(start), 1)
            },
            Node::CallIndirect { func: callee, args } => {
                if !self.operands(func, Ghost(id), Ghost(start), Ghost(0), &args) {
                    return false;
                }
                if !self.operand(func, Ghost(id), Ghost(start), Ghost(args@.len()), callee) {
                    return false;
                }
                self.own(func, Ghost(id), Ghost(start), 1)
            },
            Node::LocalGet => self.own(func, Ghost(id), Ghost(start), 1),
            Node::LocalSet { value } => {
                if !self.operand(func, Ghost(id), Ghost(start), Ghost(0), value) {
                    return false;
                }
                self.own(func, Ghost(id), Ghost(start), 1)
            },
            Node::LocalTee { value } => {
                if !self.operand(func, Ghost(id), Ghost(start), Ghost(0), value) {
                    return false;
                }
                self.own(func, Ghost(id), Ghost(start), 1)
            },
            Node::GlobalGet => self.own(func, Ghost(id), Ghost(start), 1),
            Node::GlobalSet { value } => {
                if !self.operand(func, Ghost(id), Ghost(start), Ghost(0), value) {
                    return false;
                }
                self.own(func, Ghost(id), Ghost(start), 1)
            },
            Node::Load { address } => {
                if !self.operand(func, Ghost(id), Ghost(start), Ghost(0), address) {
                    return false;
                }
                self.own(func, Ghost(id), Ghost(start), 1)
            },
            Node::Store { address, value } => {
                if !self.operand(func, Ghost(id), Ghost(start), Ghost(0), address) {
                    return false;
                }
                if !self.operand(func, Ghost(id), Ghost(start), Ghost(1), value) {
                    return false;
                }
                self.own(func, Ghost(id), Ghost(start), 1)
            },
            Node::AtomicRmw { address, value } => {
                if !self.operand(func, Ghost(id), Ghost(start), Ghost(0), address) {
                    return false;
                }
                if !self.operand(func, Ghost(id), Ghost(start), Ghost(1), value) {
                    return false;
                }
                self.own(func, Ghost(id), Ghost(start), 1)
            },
            Node::Cmpxchg { address, expected, replacement } => {
                if !self.operand(func, Ghost(id), Ghost(start), Ghost(0), address) {
                    return false;
                }
                if !self.operand(func, Ghost(id), Ghost(start), Ghost(1), expected) {
                    return false;
                }
                if !self.operand(func, Ghost(id), Ghost(start), Ghost(2), replacement) {
                    return false;
                }
                self.own(func, Ghost(id), Ghost(start), 1)
            },
            Node::AtomicNotify { address, count } => {
                if !self.operand(func, Ghost(id), Ghost(start), Ghost(0), address) {
                    return false;
                }
                if !self.operand(func, Ghost(id), Ghost(start), Ghost(1), count) {
                    return false;
                }
                self.own(func, Ghost(id), Ghost(start), 1)
            },
            Node::AtomicWait { address, expected, timeout } => {
                if !self.operand(func, Ghost(id), Ghost(start), Ghost(0), address) {
                    return false;
                }
                if !self.operand(func, Ghost(id), Ghost(start), Ghost(1), expected) {
                    return false;
                }
                if !self.operand(func, Ghost(id), Ghost(start), Ghost(2), timeout) {
                    return false;
                }
                self.own(func, Ghost(id), Ghost(start), 1)
            },
            Node::TableGet { index } => {
                if !self.operand(func, Ghost(id), Ghost(start), Ghost(0), index) {
                    return false;
                }
                self.own(func, Ghost(id), Ghost(start), 1)
            },
            Node::TableSet { index, value } => {
                if !self.operand(func, Ghost(id), Ghost(start), Ghost(0), index) {
                    return false;
                }
                if !self.operand(func, Ghost(id), Ghost(start), Ghost(1), value) {
                    return false;
                }
                self.own(func, Ghost(id), Ghost(start), 1)
            },
            Node::TableGrow { amount, value } => {
                if !self.operand(func, Ghost(id), Ghost(start), Ghost(0), amount) {
                    return false;
                }
                if !self.operand(func, Ghost(id), Ghost(start), Ghost(1), value) {
                    return false;
                }
                self.own(func, Ghost(id), Ghost(start), 1)
            },
            Node::TableSize => self.own(func, Ghost(id), Ghost(start), 1),
            Node::RefNull => self.own(func, Ghost(id), Ghost(start), 1),
            Node::RefIsNull { value } => {
                if !self.operand(func, Ghost(id), Ghost(start), Ghost(0), value) {
                    return false;
                }
                self.own(func, Ghost(id), Ghost(start), 1)
            },
        }
    }

    /// Visits the block `id`, whose body is `exprs`: charges 1 to the block
    /// that the walk stands in, counts the body from 0, and records the count
    /// under `id`.
    fn visit_block(
        &mut self,
        func: &LocalFunction,
        id: ExprId,
        exprs: &Vec<ExprId>,
    ) -> (done: bool)
        requires
            acyclic(body_of(*func)),
            body_of(*func).dom().contains(id),
            body_of(*func)[id].shape == (Shape::Block { exprs: exprs@ }),
            0 <= old(self).count,
        ensures
            done <==> fits(body_of(*func), id, old(self).count as int),
            done ==> final(self).passed(*old(self), body_of(*func), id),
        decreases height(body_of(*func), id), 3nat,
    {
        let ghost body = body_of(*func);
        let ghost outer = *self;
        if !self.charge(1) {
            return false;
        }
        let save = self.count;
        self.count = 0;
        let ghost start = *self;
        proof {
            self.lemma_arrived(body, id);
        }
        if !self.operands(func, Ghost(id), Ghost(start), Ghost(0), exprs) {
            return false;
        }
        proof {
            assert(pairs(self.map@) =~= pairs(outer.map@) + recorded_from(body, id, 0)) by {
                assert(pairs(self.map@) + recorded_from(body, id, exprs@.len()) =~= pairs(
                    self.map@,
                ));
            }
            assert(self.count == weight(body, id));
        }
        let ghost counted = self.map@;
        self.map.push(BlockWeight { block: id, weight: self.count });
        proof {
            assert(pairs(self.map@) =~= pairs(counted).push((id, weight(body, id) as int)));
        }
        self.count = save;
        true
    }

    /// Visits the `if`/`else` `id`: the condition and the two arms, then 3 for
    /// the construct.
    fn visit_if_else(
        &mut self,
        func: &LocalFunction,
        id: ExprId,
        condition: ExprId,
        consequent: ExprId,
        alternative: ExprId,
    ) -> (done: bool)
        requires
            acyclic(body_of(*func)),
            body_of(*func).dom().contains(id),
            body_of(*func)[id].shape == (Shape::IfElse { condition, consequent, alternative }),
            0 <= old(self).count,
        ensures
            done <==> fits(body_of(*func), id, old(self).count as int),
            done ==> final(self).passed(*old(self), body_of(*func), id),
        decreases height(body_of(*func), id), 3nat,
    {
        let ghost start = *self;
        proof {
            self.lemma_arrived(body_of(*func), id);
        }
        if !self.operand(func, Ghost(id), Ghost(start), Ghost(0), condition) {
            return false;
        }
        if !self.operand(func, Ghost(id), Ghost(start), Ghost(1), consequent) {
            return false;
        }
        if !self.operand(func, Ghost(id), Ghost(start), Ghost(2), alternative) {
            return false;
        }
        self.own(func, Ghost(id), Ghost(start), 3)
    }

    /// Visits the `br_table` `id`: its arguments and its selector, then 2 for
    /// the dispatch and its default target, and 1 for each of the `targets`
    /// that its table lists.
    fn visit_br_table(
        &mut self,
        func: &LocalFunction,
        id: ExprId,
        which: ExprId,
        targets: usize,
        args: &Vec<ExprId>,
    ) -> (done: bool)
        requires
            acyclic(body_of(*func)),
            body_of(*func).dom().contains(id),
            body_of(*func)[id].shape == (Shape::BrTable {
                which,
                targets: targets as nat,
                args: args@,
            }),
            0 <= old(self).count,
        ensures
            done <==> fits(body_of(*func), id, old(self).count as int),
            done ==> final(self).passed(*old(self), body_of(*func), id),
        decreases height(body_of(*func), id), 3nat,
    {
        let ghost start = *self;
        proof {
            self.lemma_arrived(body_of(*func), id);
        }
        if !self.operands(func, Ghost(id), Ghost(start), Ghost(0), args) {
            return false;
        }
        if !self.operand(func, Ghost(id), Ghost(start), Ghost(args@.len()), which) {
            return false;
        }
        if targets as u64 > 0x7fff_ffff_ffff_fffd {
            return false;
        }
        self.own(func, Ghost(id), Ghost(start), targets as i64 + 2)
    }
}

/// Every weight in `weights` is an `i64`.
pub open spec fn within(weights: Seq<(ExprId, int)>) -> bool {
    forall|i: int| 0 <= i < weights.len() ==> (#[trigger] weights[i]).1 <= i64::MAX
}

/// What the analysis of a body yields: the weight of every block from the
/// entry down, or nothing where one of them is no `i64`.
pub open spec fn analysis(body: Body, entry: ExprId) -> Option<Seq<(ExprId, int)>> {
    if within(recorded(body, entry)) {
        Some(recorded(body, entry))
    } else {
        None
    }
}

/// A body that the analysis can walk: the walk ends, and it starts at a block.
pub open spec fn walkable(body: Body, entry: ExprId) -> bool {
    &&& acyclic(body)
    &&& body.dom().contains(entry)
    &&& body[entry].shape is Block
}

proof fn lemma_within_concat(a: Seq<(ExprId, int)>, b: Seq<(ExprId, int)>)
    ensures
        within(a + b) <==> within(a) && within(b),
{
    if within(a + b) {
        assert forall|i: int| 0 <= i < a.len() implies (#[trigger] a[i]).1 <= i64::MAX by {
            assert((a + b)[i] == a[i]);
        }
        assert forall|i: int| 0 <= i < b.len() implies (#[trigger] b[i]).1 <= i64::MAX by {
            assert((a + b)[a.len() + i] == b[i]);
        }
    }
}

/// The greatest weight at or below `id` is an `i64` exactly where every weight
/// recorded there is.
pub proof fn lemma_heaviest(body: Body, id: ExprId)
    requires
        acyclic(body),
        body.dom().contains(id),
    ensures
        heaviest(body, id) <= i64::MAX <==> within(recorded(body, id)),
    decreases height(body, id), body[id].shape.operands().len() + 1,
{
    lemma_heaviest_from(body, id, 0);
    if body[id].shape is Block {
        let below = recorded_from(body, id, 0);
        let own = seq![(id, weight(body, id) as int)];
        assert(below.push((id, weight(body, id) as int)) == below + own);
        lemma_within_concat(below, own);
        assert(within(own) <==> weight(body, id) <= i64::MAX) by {
            assert(own[0].1 == weight(body, id));
        }
    }
}

/// The same of the operands of `id` from `from` on.
pub proof fn lemma_heaviest_from(body: Body, id: ExprId, from: nat)
    requires
        acyclic(body),
        body.dom().contains(id),
    ensures
        heaviest_from(body, id, from) <= i64::MAX <==> within(recorded_from(body, id, from)),
    decreases height(body, id), body[id].shape.operands().len() - from,
{
    let operands = body[id].shape.operands();
    if from < operands.len() {
        lemma_operand(body, id, from as int);
        lemma_heaviest(body, operands[from as int]);
        lemma_heaviest_from(body, id, from + 1);
        lemma_within_concat(
            recorded(body, operands[from as int]),
            recorded_from(body, id, from + 1),
        );
    }
}

/// The entries of the result of an analysis as mathematical pairs.
pub open spec fn found(weights: Option<Vec<BlockWeight>>) -> Option<Seq<(ExprId, int)>> {
    match weights {
        Some(list) => Some(pairs(list@)),
        None => None,
    }
}

/// Walks the body of `func` from its entry block and returns the weight of
/// every block, each nested block before the block that holds it. Returns
/// `None` where a weight is no `i64`.
pub fn inject(func: &LocalFunction) -> (weights: Option<Vec<BlockWeight>>)
    requires
        walkable(body_of(*func), entry_of(*func)),
    ensures
        found(weights) == analysis(body_of(*func), entry_of(*func)),
{
    let mut v = Injector::new();
    let entry = entry_block(func);
    proof {
        lemma_heaviest(body_of(*func), entry);
        assert(pairs(v.map@) =~= Seq::empty());
    }
    if v.visit(func, entry) {
        proof {
            assert(pairs(v.map@) =~= recorded(body_of(*func), entry));
        }
        Some(v.map)
    } else {
        None
    }
}

} // verus!
