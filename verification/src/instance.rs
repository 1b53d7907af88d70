//! A running instance: the points ledger with its trap policy, the linear
//! memory, and the table of guest-visible host handles.

use vstd::prelude::*;

use crate::instrument::InstrumentedFunction;
use crate::instrument::blocks_cost;
use crate::instrument::lemma_prefix_cost_all;
use crate::instrument::lemma_prefix_cost_monotone;
use crate::instrument::lemma_prefix_cost_step;
use crate::instrument::prefix_cost;

verus! {

/// A controlled, non-fatal abort of the current guest call.
#[derive(Clone, Copy, Debug, PartialEq, Eq, Structural)]
pub enum Trap {
    /// A deduction would have driven the points ledger negative.
    Exhausted,
}

/// A setup-time misconfiguration, fatal to instance creation.
#[derive(Clone, Copy, Debug, PartialEq, Eq, Structural)]
pub enum ConfigError {
    /// The budget limit handed to `Instance::new` was negative.
    NegativeBudget,
}

/// One running instance. It owns exactly one points ledger and one linear
/// memory; nothing here is shared between instances, and all mutation goes
/// through the operations below on the thread running the instance's code.
pub struct Instance {
    pub(crate) remaining: i64,
    pub(crate) faulted: bool,
    pub(crate) memory: Vec<u8>,
    pub(crate) files: Vec<Option<i32>>,
}

impl Instance {
    /// The points ledger: the budget still available to guest code.
    pub open(crate) spec fn points(self) -> int {
        self.remaining as int
    }

    /// True after a deduction has trapped and before the next explicit
    /// reset; while it holds, no further deduction occurs.
    pub open(crate) spec fn is_faulted(self) -> bool {
        self.faulted
    }

    /// The bytes of the instance's linear memory.
    pub open(crate) spec fn mem(self) -> Seq<u8> {
        self.memory@
    }

    /// The table mapping guest-visible handles (indices) to host file
    /// descriptors; a `None` slot is free.
    pub open(crate) spec fn handles(self) -> Seq<Option<i32>> {
        self.files@
    }

    /// The state an explicit ledger reset leaves behind: the ledger holds
    /// exactly the new value, the fault flag is cleared, and the memory and
    /// handle table are untouched.
    pub open(crate) spec fn spec_reset(self, value: i64) -> Instance {
        Instance { remaining: value, faulted: false, memory: self.memory, files: self.files }
    }

    /// Creates an instance with the given budget limit and a zeroed linear
    /// memory of `memory_size` bytes. A negative budget limit is a
    /// misconfiguration, detected here and never deferred to run time.
    pub fn new(budget: i64, memory_size: u32) -> (r: Result<Instance, ConfigError>)
        ensures
            r is Ok <==> budget >= 0,
            r is Err ==> r->Err_0 == ConfigError::NegativeBudget,
            r is Ok ==> {
                &&& r->Ok_0.points() == budget
                &&& !r->Ok_0.is_faulted()
                &&& r->Ok_0.mem().len() == memory_size
                &&& forall|i: int| 0 <= i < memory_size ==> r->Ok_0.mem()[i] == 0
                &&& r->Ok_0.handles().len() == 0
            },
    {
        if budget < 0 {
            return Err(ConfigError::NegativeBudget);
        }
        let size = memory_size as usize;
        let mut memory: Vec<u8> = Vec::new();
        let mut i: usize = 0;
        while i < size
            invariant
                0 <= i <= size,
                memory@.len() == i,
                forall|j: int| 0 <= j < i ==> memory@[j] == 0,
            decreases size - i,
        {
            memory.push(0);
            i = i + 1;
        }
        Ok(Instance { remaining: budget, faulted: false, memory, files: Vec::new() })
    }
}

/// Reads the points ledger. No side effect; callable at any time, a faulted
/// instance included.
pub fn get_remaining_points(instance: &Instance) -> (r: i64)
    ensures
        r as int == instance.points(),
{
    instance.remaining
}

/// Overwrites the points ledger with `value` and clears the faulted state,
/// recharging the instance for a new unit of work without recreating it.
/// Any value is accepted, a negative one included (a negative value forces
/// the next deduction to trap).
pub fn set_remaining_points(instance: &mut Instance, value: i64)
    ensures
        *final(instance) == old(instance).spec_reset(value),
        final(instance).points() == value,
        !final(instance).is_faulted(),
        final(instance).mem() == old(instance).mem(),
        final(instance).handles() == old(instance).handles(),
{
    instance.remaining = value;
    instance.faulted = false;
}

/// Law of idempotent reset: resetting the ledger to `value` and then reading
/// it yields exactly `value`, for every integer `value` — negative values
/// included — and whatever state the instance held before, a faulted one
/// included; the linear memory and the handle table are untouched.
pub proof fn lemma_reset_round_trip(pre: Instance, value: i64)
    ensures
        pre.spec_reset(value).points() == value,
        !pre.spec_reset(value).is_faulted(),
        pre.spec_reset(value).mem() == pre.mem(),
        pre.spec_reset(value).handles() == pre.handles(),
{
}

/// The deduction injected at the head of every metered block: charges `cost`
/// against the ledger, or traps. On a trap the ledger keeps exactly the
/// value it held before the deduction — no partial consumption — and the
/// instance is faulted until explicitly reset; while faulted, every further
/// deduction traps without touching the ledger.
pub fn charge_block(instance: &mut Instance, cost: u64) -> (r: Result<(), Trap>)
    ensures
        final(instance).mem() == old(instance).mem(),
        final(instance).handles() == old(instance).handles(),
        r is Err <==> (old(instance).is_faulted() || old(instance).points() - cost < 0),
        r is Err ==> r->Err_0 == Trap::Exhausted,
        r is Ok ==> final(instance).points() == old(instance).points() - cost
            && !final(instance).is_faulted(),
        r is Err ==> final(instance).points() == old(instance).points()
            && final(instance).is_faulted(),
{
    if instance.faulted {
        return Err(Trap::Exhausted);
    }
    if instance.remaining >= 0 {
        let available = instance.remaining as u64;
        if cost <= available {
            instance.remaining = instance.remaining - (cost as i64);
            return Ok(());
        }
    }
    instance.faulted = true;
    Err(Trap::Exhausted)
}

/// Runs one exported call of an instrumented function against the ledger:
/// the blocks are entered in order and each charges its stored cost before
/// any of its operations takes effect.
///
/// On success the ledger drops by exactly the combined stored cost of all
/// blocks, and by nothing else. On exhaustion the call aborts with a
/// distinguishable trap: the blocks before the failing one are charged, the
/// failing block and everything after it charge nothing, and the ledger
/// keeps exactly the value it held before the failing deduction.
pub fn call(instance: &mut Instance, func: &InstrumentedFunction) -> (r: Result<(), Trap>)
    ensures
        final(instance).mem() == old(instance).mem(),
        final(instance).handles() == old(instance).handles(),
        old(instance).is_faulted() ==> r is Err && final(instance).points() == old(
            instance,
        ).points() && final(instance).is_faulted(),
        !old(instance).is_faulted() ==> (r is Ok <==> (func.blocks@.len() == 0 || old(
            instance,
        ).points() >= blocks_cost(func.blocks@))),
        !old(instance).is_faulted() && r is Ok ==> final(instance).points() == old(
            instance,
        ).points() - blocks_cost(func.blocks@) && !final(instance).is_faulted(),
        !old(instance).is_faulted() && r is Err ==> final(instance).is_faulted() && exists|k: int|
            {
                &&& 0 <= k < func.blocks@.len()
                &&& forall|j: int|
                    0 <= j < k ==> old(instance).points() - #[trigger] prefix_cost(
                        func.blocks@,
                        j + 1,
                    ) >= 0
                &&& old(instance).points() - prefix_cost(func.blocks@, k + 1) < 0
                &&& final(instance).points() == old(instance).points() - #[trigger] prefix_cost(
                    func.blocks@,
                    k,
                )
            },
        r is Err ==> r->Err_0 == Trap::Exhausted,
{
    if instance.faulted {
        return Err(Trap::Exhausted);
    }
    let n = func.blocks.len();
    let mut k: usize = 0;
    proof {
        assert(func.blocks@.take(0) =~= Seq::<crate::instrument::MeteredBlock>::empty());
    }
    while k < n
        invariant
            n == func.blocks@.len(),
            0 <= k <= n,
            !old(instance).is_faulted(),
            !instance.is_faulted(),
            instance.points() == old(instance).points() - prefix_cost(func.blocks@, k as int),
            forall|j: int|
                0 <= j < k ==> old(instance).points() - #[trigger] prefix_cost(
                    func.blocks@,
                    j + 1,
                ) >= 0,
            instance.mem() == old(instance).mem(),
            instance.handles() == old(instance).handles(),
        decreases n - k,
    {
        let cost = func.blocks[k].cost;
        proof {
            lemma_prefix_cost_step(func.blocks@, k as int);
        }
        match charge_block(instance, cost) {
            Ok(()) => {},
            Err(trap) => {
                proof {
                    lemma_prefix_cost_monotone(func.blocks@, k as int + 1, n as int);
                    lemma_prefix_cost_all(func.blocks@);
                    assert(old(instance).points() - prefix_cost(func.blocks@, k as int + 1) < 0);
                    assert(instance.points() == old(instance).points() - prefix_cost(
                        func.blocks@,
                        k as int,
                    ));
                }
                return Err(trap);
            },
        }
        k = k + 1;
    }
    proof {
        lemma_prefix_cost_all(func.blocks@);
        if n > 0 {
            assert(old(instance).points() - prefix_cost(func.blocks@, (n - 1) as int + 1) >= 0);
            assert(prefix_cost(func.blocks@, (n - 1) as int + 1) == prefix_cost(
                func.blocks@,
                n as int,
            ));
        }
    }
    Ok(())
}

} // verus!
