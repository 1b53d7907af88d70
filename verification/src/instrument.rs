//! The instrumentation pass: rewrites one function body into a sequence of
//! metered blocks, each a maximal straight-line run of operators prefixed by
//! a single combined deduction of the block's static cost.

use vstd::prelude::*;

use crate::cost::CostModel;
use crate::cost::Operator;

verus! {

/// One maximal straight-line block of a function body, together with the
/// combined static cost deducted before any of its operators takes effect.
pub struct MeteredBlock {
    pub cost: u64,
    pub ops: Vec<Operator>,
}

/// The output of the instrumentation pass: the original body, partitioned
/// into metered blocks. Created once at module-compile time and immutable
/// thereafter; every operator of the input is preserved, in order.
pub struct InstrumentedFunction {
    pub blocks: Vec<MeteredBlock>,
}

/// The instrumentation pass failed; the body cannot be metered.
#[derive(Clone, Copy, Debug, PartialEq, Eq, Structural)]
pub enum InstrumentError {
    /// Some straight-line run of operators has a combined cost beyond what
    /// a single 64-bit deduction can express.
    CostOverflow,
}

/// Sum of the model's costs over a sequence of operators.
pub open spec fn seq_cost(model: CostModel, ops: Seq<Operator>) -> int
    decreases ops.len(),
{
    if ops.len() == 0 {
        0
    } else {
        seq_cost(model, ops.drop_last()) + model.spec_cost(ops.last())
    }
}

/// All operators of a block sequence, in order.
pub open spec fn flat_ops(blocks: Seq<MeteredBlock>) -> Seq<Operator>
    decreases blocks.len(),
{
    if blocks.len() == 0 {
        Seq::empty()
    } else {
        flat_ops(blocks.drop_last()) + blocks.last().ops@
    }
}

/// Combined stored cost of a block sequence: what a full execution of all
/// the blocks deducts from the ledger.
pub open spec fn blocks_cost(blocks: Seq<MeteredBlock>) -> int
    decreases blocks.len(),
{
    if blocks.len() == 0 {
        0
    } else {
        blocks_cost(blocks.drop_last()) + blocks.last().cost
    }
}

/// Stored cost of the first `k` blocks: what executing them in order
/// deducts from the ledger.
pub open spec fn prefix_cost(blocks: Seq<MeteredBlock>, k: int) -> int {
    blocks_cost(blocks.take(k))
}

/// `blocks` is exactly the original `body`, partitioned into maximal
/// straight-line blocks: nothing lost, nothing reordered, every block
/// nonempty with control transfers only at its end, and every block but the
/// last closed by a control edge.
pub open spec fn well_split(blocks: Seq<MeteredBlock>, body: Seq<Operator>) -> bool {
    &&& flat_ops(blocks) == body
    &&& forall|i: int| 0 <= i < blocks.len() ==> #[trigger] blocks[i].ops@.len() > 0
    &&& forall|i: int, j: int|
        0 <= i < blocks.len() && 0 <= j < blocks[i].ops@.len() - 1
            ==> !(#[trigger] blocks[i].ops@[j]).spec_is_control_edge()
    &&& forall|i: int|
        0 <= i < blocks.len() - 1 ==> (#[trigger] blocks[i].ops@.last()).spec_is_control_edge()
}

/// Every stored block cost agrees with the model: the single deduction at
/// the head of a block charges exactly the summed costs of its operators.
pub open spec fn costs_accurate(model: CostModel, blocks: Seq<MeteredBlock>) -> bool {
    forall|i: int|
        0 <= i < blocks.len() ==> #[trigger] blocks[i].cost as int == seq_cost(
            model,
            blocks[i].ops@,
        )
}

/// A sequence cost is never negative: every operator cost is non-negative.
pub proof fn lemma_seq_cost_nonneg(model: CostModel, ops: Seq<Operator>)
    ensures
        seq_cost(model, ops) >= 0,
    decreases ops.len(),
{
    if ops.len() > 0 {
        lemma_seq_cost_nonneg(model, ops.drop_last());
        crate::cost::lemma_cost_nonneg(model, ops.last());
    }
}

/// Splitting a sequence of operators splits its cost.
pub proof fn lemma_seq_cost_concat(model: CostModel, a: Seq<Operator>, b: Seq<Operator>)
    ensures
        seq_cost(model, a + b) == seq_cost(model, a) + seq_cost(model, b),
    decreases b.len(),
{
    if b.len() == 0 {
        assert(a + b =~= a);
    } else {
        lemma_seq_cost_concat(model, a, b.drop_last());
        assert((a + b).drop_last() =~= a + b.drop_last());
        assert((a + b).last() == b.last());
    }
}

/// Cost of a prefix of the body, one operator longer.
pub proof fn lemma_seq_cost_take_step(model: CostModel, body: Seq<Operator>, i: int)
    requires
        0 <= i < body.len(),
    ensures
        seq_cost(model, body.take(i + 1)) == seq_cost(model, body.take(i)) + model.spec_cost(
            body[i],
        ),
{
    assert(body.take(i + 1).drop_last() =~= body.take(i));
    assert(body.take(i + 1).last() == body[i]);
}

/// The cost of any prefix of a body is bounded by the cost of the whole.
pub proof fn lemma_seq_cost_take_le(model: CostModel, body: Seq<Operator>, i: int)
    requires
        0 <= i <= body.len(),
    ensures
        seq_cost(model, body.take(i)) <= seq_cost(model, body),
    decreases body.len() - i,
{
    if i == body.len() {
        assert(body.take(i) =~= body);
    } else {
        lemma_seq_cost_take_step(model, body, i);
        lemma_seq_cost_take_le(model, body, i + 1);
        crate::cost::lemma_cost_nonneg(model, body[i]);
    }
}

/// Law of conservation at the level of blocks: when every stored block cost
/// agrees with the model, a full execution of the blocks deducts exactly the
/// summed per-operator cost of every operator they contain — no operator is
/// charged twice and none is forgotten.
pub proof fn lemma_conservation(model: CostModel, blocks: Seq<MeteredBlock>)
    requires
        costs_accurate(model, blocks),
    ensures
        blocks_cost(blocks) == seq_cost(model, flat_ops(blocks)),
    decreases blocks.len(),
{
    if blocks.len() > 0 {
        assert(costs_accurate(model, blocks.drop_last())) by {
            assert(forall|i: int|
                0 <= i < blocks.len() - 1 ==> blocks.drop_last()[i] == blocks[i]);
        }
        lemma_conservation(model, blocks.drop_last());
        lemma_seq_cost_concat(model, flat_ops(blocks.drop_last()), blocks.last().ops@);
        assert(blocks[blocks.len() - 1].cost as int == seq_cost(model, blocks.last().ops@));
    }
}

/// Law of conservation for an instrumented function: when `blocks` is the
/// instrumentation of `body` and every stored block cost agrees with the
/// model, a call that executes all the blocks deducts from the ledger
/// exactly `seq_cost(model, body)` — the summed per-operator cost of the
/// operators of the original body, each counted once.
pub proof fn lemma_instrumented_conservation(
    model: CostModel,
    blocks: Seq<MeteredBlock>,
    body: Seq<Operator>,
)
    requires
        well_split(blocks, body),
        costs_accurate(model, blocks),
    ensures
        blocks_cost(blocks) == seq_cost(model, body),
{
    lemma_conservation(model, blocks);
}

/// The cost of a block prefix never decreases as the prefix grows.
pub proof fn lemma_prefix_cost_monotone(blocks: Seq<MeteredBlock>, k1: int, k2: int)
    requires
        0 <= k1 <= k2 <= blocks.len(),
    ensures
        prefix_cost(blocks, k1) <= prefix_cost(blocks, k2),
    decreases k2 - k1,
{
    if k1 < k2 {
        lemma_prefix_cost_monotone(blocks, k1, k2 - 1);
        assert(blocks.take(k2).drop_last() =~= blocks.take(k2 - 1));
        assert(blocks.take(k2).last() == blocks[k2 - 1]);
    }
}

/// One more block in the prefix adds exactly that block's stored cost.
pub proof fn lemma_prefix_cost_step(blocks: Seq<MeteredBlock>, k: int)
    requires
        0 <= k < blocks.len(),
    ensures
        prefix_cost(blocks, k + 1) == prefix_cost(blocks, k) + blocks[k].cost,
{
    assert(blocks.take(k + 1).drop_last() =~= blocks.take(k));
    assert(blocks.take(k + 1).last() == blocks[k]);
}

/// The full prefix is the whole sequence.
pub proof fn lemma_prefix_cost_all(blocks: Seq<MeteredBlock>)
    ensures
        prefix_cost(blocks, blocks.len() as int) == blocks_cost(blocks),
{
    assert(blocks.take(blocks.len() as int) =~= blocks);
}

/// Rewrites `body` into metered blocks. The partition preserves every
/// operator in order, cuts exactly after each control edge, and stores at
/// the head of each block the summed cost of its operators under `model`.
///
/// Fails only when a straight-line run of operators is so expensive that its
/// combined cost cannot be held in one 64-bit deduction; a body whose total
/// cost fits in 64 bits always instruments successfully.
pub fn instrument(body: &Vec<Operator>, model: &CostModel) -> (r: Result<
    InstrumentedFunction,
    InstrumentError,
>)
    ensures
        r is Ok ==> well_split(r->Ok_0.blocks@, body@) && costs_accurate(
            *model,
            r->Ok_0.blocks@,
        ),
        r is Err ==> seq_cost(*model, body@) > u64::MAX,
{
    let mut blocks: Vec<MeteredBlock> = Vec::new();
    let mut cur_ops: Vec<Operator> = Vec::new();
    let mut cur_cost: u64 = 0;
    let n = body.len();
    let mut i: usize = 0;
    proof {
        assert(body@.take(0) =~= Seq::<Operator>::empty());
        assert(flat_ops(blocks@) + cur_ops@ =~= body@.take(0));
    }
    while i < n
        invariant
            n == body@.len(),
            0 <= i <= n,
            flat_ops(blocks@) + cur_ops@ == body@.take(i as int),
            blocks_cost(blocks@) + cur_cost == seq_cost(*model, body@.take(i as int)),
            cur_cost as int == seq_cost(*model, cur_ops@),
            costs_accurate(*model, blocks@),
            forall|j: int| 0 <= j < blocks@.len() ==> #[trigger] blocks@[j].ops@.len() > 0,
            forall|j: int, k: int|
                0 <= j < blocks@.len() && 0 <= k < blocks@[j].ops@.len() - 1
                    ==> !(#[trigger] blocks@[j].ops@[k]).spec_is_control_edge(),
            forall|j: int|
                0 <= j < blocks@.len() ==> (#[trigger] blocks@[j].ops@.last()).spec_is_control_edge(),
            forall|k: int| 0 <= k < cur_ops@.len() ==> !(#[trigger] cur_ops@[k]).spec_is_control_edge(),
        decreases n - i,
    {
        let op = body[i];
        let c = model.cost(op);
        if cur_cost > u64::MAX - c {
            proof {
                lemma_seq_cost_take_step(*model, body@, i as int);
                lemma_seq_cost_take_le(*model, body@, i as int + 1);
                lemma_seq_cost_nonneg(*model, cur_ops@);
                assert(blocks_cost(blocks@) >= 0) by {
                    lemma_conservation(*model, blocks@);
                    lemma_seq_cost_nonneg(*model, flat_ops(blocks@));
                }
            }
            return Err(InstrumentError::CostOverflow);
        }
        cur_cost = cur_cost + c;
        let ghost prev_ops = cur_ops@;
        cur_ops.push(op);
        let is_edge = op.is_control_edge();
        proof {
            assert(cur_ops@.drop_last() =~= prev_ops);
            assert(cur_ops@.last() == op);
            lemma_seq_cost_take_step(*model, body@, i as int);
            assert(body@.take(i as int + 1) =~= body@.take(i as int).push(body@[i as int]));
            assert(flat_ops(blocks@) + cur_ops@ =~= body@.take(i as int + 1));
        }
        if is_edge {
            let finished = MeteredBlock { cost: cur_cost, ops: cur_ops };
            cur_ops = Vec::new();
            cur_cost = 0;
            let ghost prev_blocks = blocks@;
            blocks.push(finished);
            proof {
                assert(blocks@.drop_last() =~= prev_blocks);
                assert(blocks@.last() == finished);
                assert(forall|j: int|
                    0 <= j < prev_blocks.len() ==> blocks@[j] == prev_blocks[j]);
                assert(flat_ops(blocks@) + cur_ops@ =~= flat_ops(prev_blocks) + finished.ops@);
            }
        }
        i = i + 1;
    }
    proof {
        assert(body@.take(n as int) =~= body@);
    }
    if cur_ops.len() > 0 {
        let finished = MeteredBlock { cost: cur_cost, ops: cur_ops };
        let ghost prev_blocks = blocks@;
        blocks.push(finished);
        proof {
            assert(blocks@.drop_last() =~= prev_blocks);
            assert(blocks@.last() == finished);
            assert(forall|j: int| 0 <= j < prev_blocks.len() ==> blocks@[j] == prev_blocks[j]);
            assert(flat_ops(blocks@) =~= flat_ops(prev_blocks) + finished.ops@);
        }
    }
    Ok(InstrumentedFunction { blocks })
}

} // verus!
