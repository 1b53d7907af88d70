//! The cost model: a pure, total mapping from operators to non-negative
//! integer costs, supplied by the embedder at configuration time.

use vstd::prelude::*;

verus! {

/// The closed set of guest operators the metering pass knows about.
///
/// Operators that transfer control (`Branch`, `BranchIf`, `LoopStart`,
/// `Call`, `Return`, `End`) delimit the straight-line blocks that the
/// instrumentation pass meters as a unit.
#[derive(Clone, Copy, Debug, PartialEq, Eq, Structural)]
pub enum Operator {
    LocalGet,
    LocalSet,
    ConstLoad,
    IntAdd,
    IntSub,
    IntMul,
    MemLoad,
    MemStore,
    Nop,
    Branch,
    BranchIf,
    LoopStart,
    Call,
    Return,
    End,
}

impl Operator {
    /// True of every operator after which control may leave the current
    /// straight-line block.
    pub open spec fn spec_is_control_edge(self) -> bool {
        match self {
            Operator::Branch => true,
            Operator::BranchIf => true,
            Operator::LoopStart => true,
            Operator::Call => true,
            Operator::Return => true,
            Operator::End => true,
            _ => false,
        }
    }

    pub fn is_control_edge(self) -> (r: bool)
        ensures
            r == self.spec_is_control_edge(),
    {
        match self {
            Operator::Branch => true,
            Operator::BranchIf => true,
            Operator::LoopStart => true,
            Operator::Call => true,
            Operator::Return => true,
            Operator::End => true,
            _ => false,
        }
    }
}

/// An embedder-supplied table of per-operator costs.
///
/// The mapping is pure and total: an operator without an entry costs zero,
/// and later entries for the same operator are shadowed by earlier ones, so
/// the cost of a given operator never changes for the lifetime of the model.
pub struct CostModel {
    entries: Vec<(Operator, u64)>,
}

/// Cost of `op` under the entry table `entries`: the first matching entry
/// wins, and an operator with no entry costs zero.
pub open spec fn table_cost(entries: Seq<(Operator, u64)>, op: Operator) -> int
    decreases entries.len(),
{
    if entries.len() == 0 {
        0
    } else if entries[0].0 == op {
        entries[0].1 as int
    } else {
        table_cost(entries.drop_first(), op)
    }
}

/// A cost table never yields a negative cost.
proof fn lemma_table_cost_nonneg(entries: Seq<(Operator, u64)>, op: Operator)
    ensures
        table_cost(entries, op) >= 0,
    decreases entries.len(),
{
    if entries.len() > 0 && entries[0].0 != op {
        lemma_table_cost_nonneg(entries.drop_first(), op);
    }
}

/// Every operator's cost under every model is non-negative.
pub proof fn lemma_cost_nonneg(model: CostModel, op: Operator)
    ensures
        model.spec_cost(op) >= 0,
{
    lemma_table_cost_nonneg(model.entries@, op);
}

impl CostModel {
    /// Cost assigned to one operator: non-negative, pure, and independent of
    /// any runtime state.
    pub closed spec fn spec_cost(self, op: Operator) -> int {
        table_cost(self.entries@, op)
    }

    /// A model that assigns every operator the default cost of zero.
    pub fn new() -> (r: CostModel)
        ensures
            forall|op: Operator| r.spec_cost(op) == 0,
    {
        CostModel { entries: Vec::new() }
    }

    /// Assigns `cost` to `op`, shadowing any earlier assignment; the cost of
    /// every other operator is unchanged.
    pub fn assign(&mut self, op: Operator, cost: u64)
        ensures
            final(self).spec_cost(op) == cost,
            forall|other: Operator|
                other != op ==> final(self).spec_cost(other) == old(self).spec_cost(other),
    {
        self.entries.insert(0, (op, cost));
        proof {
            assert(self.entries@.drop_first() =~= old(self).entries@);
        }
    }

    /// Looks the cost of `op` up in the table.
    pub fn cost(&self, op: Operator) -> (r: u64)
        ensures
            r as int == self.spec_cost(op),
    {
        let n = self.entries.len();
        let mut i: usize = 0;
        proof {
            assert(self.entries@.skip(0) =~= self.entries@);
        }
        while i < n
            invariant
                n == self.entries.len(),
                0 <= i <= n,
                table_cost(self.entries@, op) == table_cost(self.entries@.skip(i as int), op),
            decreases n - i,
        {
            let (candidate, cost) = self.entries[i];
            if candidate == op {
                proof {
                    assert(self.entries@.skip(i as int)[0] == self.entries@[i as int]);
                }
                return cost;
            }
            proof {
                assert(self.entries@.skip(i as int).drop_first() =~= self.entries@.skip(
                    i as int + 1,
                ));
            }
            i = i + 1;
        }
        proof {
            assert(self.entries@.skip(n as int).len() == 0);
        }
        0
    }
}

} // verus!
