//! The hazard classifier: given an execution trace and the final run state,
//! it decides which hazard classes actually manifested, and compares them
//! against the scenario's declaration. The rules are design-level: they read
//! the declared semantics of the trace, not a language runtime.

use vstd::prelude::*;
use crate::resource::ModelError;
use crate::scenario::{HazardClass, Scenario, SchedulingPolicy};
use crate::sharing::Synchronization;
use crate::task::Operation;
use crate::trace::{OpOutcome, RunState, StateModel, TraceEvent};

verus! {

/// Operations that mutate the resource's payload.
pub open spec fn is_write_op(op: Operation) -> bool {
    op matches Operation::Write(_) || op matches Operation::Swap(_)
}

/// Operations that touch the resource's payload at all.
pub open spec fn is_access_op(op: Operation) -> bool {
    op matches Operation::Read || is_write_op(op)
}

/// An event that released the resource, or faulted trying: either way a free
/// reached the resource. A suppressed free never did.
pub open spec fn is_free_event(e: TraceEvent) -> bool {
    e.outcome == OpOutcome::Freed || e.outcome == OpOutcome::Faulted(ModelError::DoubleFreeError)
}

/// An event whose free took effect.
pub open spec fn is_completed_free(e: TraceEvent) -> bool {
    e.outcome == OpOutcome::Freed
}

/// `DoubleFree` manifests exactly when two free events reached the one
/// resource of the run; the model has no reallocation that could lie
/// between them.
pub open spec fn double_free_manifested(tr: Seq<TraceEvent>) -> bool {
    exists|i: int, j: int|
        0 <= i < j < tr.len() && is_free_event(#[trigger] tr[i]) && is_free_event(#[trigger] tr[j])
}

/// An access at `i` whose logical timestamp is after a completed free at `j`.
pub open spec fn uaf_pair(tr: Seq<TraceEvent>, i: int, j: int) -> bool {
    is_access_op(tr[i].operation) && is_completed_free(tr[j]) && tr[j].timestamp < tr[i].timestamp
}

/// `UseAfterFree` manifests exactly when some read or write has a logical
/// timestamp after that of a completed free.
pub open spec fn use_after_free_manifested(tr: Seq<TraceEvent>) -> bool {
    exists|i: int, j: int|
        0 <= i < tr.len() && 0 <= j < tr.len() && #[trigger] uaf_pair(tr, i, j)
}

/// A write at `i` and an operation of a different task at `j`.
pub open spec fn race_pair(tr: Seq<TraceEvent>, i: int, j: int) -> bool {
    is_write_op(tr[i].operation) && tr[i].task != tr[j].task
}

/// `DataRace` manifests exactly when two operations of different tasks, one
/// of them a write, ran with no synchronization and no ordering declared
/// between tasks; only the parallel policy declares no ordering.
pub open spec fn data_race_manifested(s: Scenario, tr: Seq<TraceEvent>) -> bool {
    &&& s.policy matches SchedulingPolicy::Parallel
    &&& s.primitive.synchronization == Synchronization::NoSync
    &&& exists|i: int, j: int|
        0 <= i < tr.len() && 0 <= j < tr.len() && #[trigger] race_pair(tr, i, j)
}

/// Whether event `e` put the value `v` into the resource.
pub open spec fn writes_value(e: TraceEvent, v: u64) -> bool {
    ||| e.outcome == OpOutcome::Written(v)
    ||| (e.outcome matches OpOutcome::Swapped(_) && e.operation == Operation::Swap(v))
}

/// A read at `i` that observed a value which is neither the initial payload
/// nor a value any earlier event wrote: a torn observation.
pub open spec fn torn_observation_at(initial: u64, tr: Seq<TraceEvent>, i: int) -> bool {
    match tr[i].outcome {
        OpOutcome::ValueRead(v) => v != initial && (forall|j: int|
            0 <= j < i ==> !writes_value(#[trigger] tr[j], v)),
        _ => false,
    }
}

/// `TornWrite` manifests exactly when some read observed a value that no
/// single task's write produced and that the resource did not start with.
pub open spec fn torn_write_manifested(initial: u64, tr: Seq<TraceEvent>) -> bool {
    exists|i: int| 0 <= i < tr.len() && torn_observation_at(initial, tr, i)
}

/// `DanglingReference` manifests exactly when the owning scope has closed
/// while the allocation did not leak to process lifetime: the sharing
/// primitive still resolves to a handle that outlived its allocation's scope.
pub open spec fn dangling_reference_manifested(fin: StateModel) -> bool {
    fin.owner_scope_closed && !fin.leaked
}

/// An access at `i` after the owning scope closed at `j`.
pub open spec fn escape_pair(tr: Seq<TraceEvent>, i: int, j: int) -> bool {
    tr[j].operation == Operation::DropOwner && tr[j].timestamp < tr[i].timestamp && is_access_op(
        tr[i].operation,
    )
}

/// `LifetimeEscape` manifests exactly when a handle was exercised after the
/// owning scope closed: the escaped alias outlived its origin and was used.
pub open spec fn lifetime_escape_manifested(tr: Seq<TraceEvent>) -> bool {
    exists|i: int, j: int|
        0 <= i < tr.len() && 0 <= j < tr.len() && #[trigger] escape_pair(tr, i, j)
}

/// The set of hazard classes a run exhibited.
#[derive(Clone, Copy, PartialEq, Eq, Structural, Debug)]
pub struct HazardSet {
    pub data_race: bool,
    pub use_after_free: bool,
    pub double_free: bool,
    pub dangling_reference: bool,
    pub torn_write: bool,
    pub lifetime_escape: bool,
}

impl HazardSet {
    /// Membership of one class in the set.
    pub open spec fn spec_contains(self, c: HazardClass) -> bool {
        match c {
            HazardClass::DataRace => self.data_race,
            HazardClass::UseAfterFree => self.use_after_free,
            HazardClass::DoubleFree => self.double_free,
            HazardClass::DanglingReference => self.dangling_reference,
            HazardClass::TornWrite => self.torn_write,
            HazardClass::LifetimeEscape => self.lifetime_escape,
        }
    }

    /// Membership, executably.
    pub fn contains(&self, c: HazardClass) -> (r: bool)
        ensures
            r == self.spec_contains(c),
    {
        match c {
            HazardClass::DataRace => self.data_race,
            HazardClass::UseAfterFree => self.use_after_free,
            HazardClass::DoubleFree => self.double_free,
            HazardClass::DanglingReference => self.dangling_reference,
            HazardClass::TornWrite => self.torn_write,
            HazardClass::LifetimeEscape => self.lifetime_escape,
        }
    }
}

/// Everything a run exhibited, as one set.
pub open spec fn spec_hazards(s: Scenario, tr: Seq<TraceEvent>, fin: StateModel) -> HazardSet {
    HazardSet {
        data_race: data_race_manifested(s, tr),
        use_after_free: use_after_free_manifested(tr),
        double_free: double_free_manifested(tr),
        dangling_reference: dangling_reference_manifested(fin),
        torn_write: torn_write_manifested(s.resource.payload, tr),
        lifetime_escape: lifetime_escape_manifested(tr),
    }
}

/// The verdict of a run: the scenario reproduces its documented hazard when
/// the manifested set contains the declared class; otherwise the run fails
/// and reports the declared class as the difference.
#[derive(Clone, Copy, PartialEq, Eq, Structural, Debug)]
pub enum Verdict {
    Pass,
    Fail(HazardClass),
}

/// Compares what manifested against what the scenario declared.
pub fn verdict_of(declared: HazardClass, actual: &HazardSet) -> (r: Verdict)
    ensures
        actual.spec_contains(declared) ==> r == Verdict::Pass,
        !actual.spec_contains(declared) ==> r == Verdict::Fail(declared),
{
    if actual.contains(declared) {
        Verdict::Pass
    } else {
        Verdict::Fail(declared)
    }
}

/// Writes, executably.
fn op_is_write(op: &Operation) -> (r: bool)
    ensures
        r == is_write_op(*op),
{
    matches!(op, Operation::Write(_) | Operation::Swap(_))
}

/// Accesses, executably.
fn op_is_access(op: &Operation) -> (r: bool)
    ensures
        r == is_access_op(*op),
{
    matches!(op, Operation::Read | Operation::Write(_) | Operation::Swap(_))
}

/// Free events, executably.
fn event_is_free(e: &TraceEvent) -> (r: bool)
    ensures
        r == is_free_event(*e),
{
    e.outcome == OpOutcome::Freed || e.outcome == OpOutcome::Faulted(ModelError::DoubleFreeError)
}

/// Decides `DoubleFree`: two free events somewhere in the trace.
fn detect_double_free(tr: &Vec<TraceEvent>) -> (r: bool)
    ensures
        r == double_free_manifested(tr@),
{
    let n: usize = tr.len();
    let mut seen: bool = false;
    let ghost mut first: int = 0;
    let mut k: usize = 0;
    while k < n
        invariant
            n == tr@.len(),
            0 <= k <= n,
            seen ==> 0 <= first < k && is_free_event(tr@[first]),
            !seen ==> forall|i: int| 0 <= i < k ==> !is_free_event(#[trigger] tr@[i]),
            !(exists|i: int, j: int|
                0 <= i < j < k && is_free_event(#[trigger] tr@[i]) && is_free_event(
                    #[trigger] tr@[j],
                )),
        decreases n - k,
    {
        if event_is_free(&tr[k]) {
            if seen {
                proof {
                    assert(is_free_event(tr@[first]) && is_free_event(tr@[k as int]));
                }
                return true;
            }
            seen = true;
            proof {
                first = k as int;
            }
        }
        k = k + 1;
    }
    false
}

/// Decides `UseAfterFree`: an access whose timestamp follows a completed free.
fn detect_use_after_free(tr: &Vec<TraceEvent>) -> (r: bool)
    ensures
        r == use_after_free_manifested(tr@),
{
    let n: usize = tr.len();
    let mut i: usize = 0;
    while i < n
        invariant
            n == tr@.len(),
            0 <= i <= n,
            forall|a: int, b: int| 0 <= a < i && 0 <= b < n ==> !uaf_pair(tr@, a, b),
        decreases n - i,
    {
        if op_is_access(&tr[i].operation) {
            let mut j: usize = 0;
            while j < n
                invariant
                    n == tr@.len(),
                    i < n,
                    0 <= j <= n,
                    is_access_op(tr@[i as int].operation),
                    forall|b: int| 0 <= b < j ==> !uaf_pair(tr@, i as int, b),
                decreases n - j,
            {
                if tr[j].outcome == OpOutcome::Freed && tr[j].timestamp < tr[i].timestamp {
                    proof {
                        assert(uaf_pair(tr@, i as int, j as int));
                    }
                    return true;
                }
                j = j + 1;
            }
        } else {
            proof {
                assert(forall|b: int| 0 <= b < n ==> !uaf_pair(tr@, i as int, b));
            }
        }
        i = i + 1;
    }
    false
}

/// Decides the unordered-write part of `DataRace`: a write by one task and
/// any operation by a different task.
fn detect_conflicting_pair(tr: &Vec<TraceEvent>) -> (r: bool)
    ensures
        r == exists|i: int, j: int|
            0 <= i < tr@.len() && 0 <= j < tr@.len() && #[trigger] race_pair(tr@, i, j),
{
    let n: usize = tr.len();
    let mut i: usize = 0;
    while i < n
        invariant
            n == tr@.len(),
            0 <= i <= n,
            forall|a: int, b: int| 0 <= a < i && 0 <= b < n ==> !race_pair(tr@, a, b),
        decreases n - i,
    {
        if op_is_write(&tr[i].operation) {
            let mut j: usize = 0;
            while j < n
                invariant
                    n == tr@.len(),
                    i < n,
                    0 <= j <= n,
                    is_write_op(tr@[i as int].operation),
                    forall|b: int| 0 <= b < j ==> !race_pair(tr@, i as int, b),
                decreases n - j,
            {
                if tr[j].task != tr[i].task {
                    proof {
                        assert(race_pair(tr@, i as int, j as int));
                    }
                    return true;
                }
                j = j + 1;
            }
        } else {
            proof {
                assert(forall|b: int| 0 <= b < n ==> !race_pair(tr@, i as int, b));
            }
        }
        i = i + 1;
    }
    false
}

/// Decides `TornWrite`: a read observing a value that nothing wrote.
fn detect_torn_write(initial: u64, tr: &Vec<TraceEvent>) -> (r: bool)
    ensures
        r == torn_write_manifested(initial, tr@),
{
    let n: usize = tr.len();
    let mut i: usize = 0;
    while i < n
        invariant
            n == tr@.len(),
            0 <= i <= n,
            forall|a: int| 0 <= a < i ==> !torn_observation_at(initial, tr@, a),
        decreases n - i,
    {
        match tr[i].outcome {
            OpOutcome::ValueRead(v) => {
                if v != initial {
                    let mut j: usize = 0;
                    let mut sourced: bool = false;
                    while j < i
                        invariant
                            n == tr@.len(),
                            i < n,
                            0 <= j <= i,
                            !sourced ==> forall|b: int|
                                0 <= b < j ==> !writes_value(#[trigger] tr@[b], v),
                            sourced ==> exists|b: int|
                                0 <= b < j && writes_value(#[trigger] tr@[b], v),
                        decreases i - j,
                    {
                        let sources = match tr[j].outcome {
                            OpOutcome::Written(w) => w == v,
                            OpOutcome::Swapped(_) => tr[j].operation == Operation::Swap(v),
                            _ => false,
                        };
                        if sources {
                            sourced = true;
                            proof {
                                assert(writes_value(tr@[j as int], v));
                            }
                        }
                        j = j + 1;
                    }
                    if !sourced {
                        proof {
                            assert(torn_observation_at(initial, tr@, i as int));
                        }
                        return true;
                    }
                }
            },
            _ => {},
        }
        i = i + 1;
    }
    false
}

/// Decides `LifetimeEscape`: an access whose timestamp follows a close of
/// the owning scope.
fn detect_lifetime_escape(tr: &Vec<TraceEvent>) -> (r: bool)
    ensures
        r == lifetime_escape_manifested(tr@),
{
    let n: usize = tr.len();
    let mut i: usize = 0;
    while i < n
        invariant
            n == tr@.len(),
            0 <= i <= n,
            forall|a: int, b: int| 0 <= a < i && 0 <= b < n ==> !escape_pair(tr@, a, b),
        decreases n - i,
    {
        if op_is_access(&tr[i].operation) {
            let mut j: usize = 0;
            while j < n
                invariant
                    n == tr@.len(),
                    i < n,
                    0 <= j <= n,
                    is_access_op(tr@[i as int].operation),
                    forall|b: int| 0 <= b < j ==> !escape_pair(tr@, i as int, b),
                decreases n - j,
            {
                if tr[j].operation == Operation::DropOwner && tr[j].timestamp < tr[i].timestamp {
                    proof {
                        assert(escape_pair(tr@, i as int, j as int));
                    }
                    return true;
                }
                j = j + 1;
            }
        } else {
            proof {
                assert(forall|b: int| 0 <= b < n ==> !escape_pair(tr@, i as int, b));
            }
        }
        i = i + 1;
    }
    false
}

/// Classifies a run: decides, for each hazard class, whether the trace and
/// the final state exhibit it, by the design-level rules above.
pub fn classify(s: &Scenario, tr: &Vec<TraceEvent>, fin: &RunState) -> (r: HazardSet)
    ensures
        r == spec_hazards(*s, tr@, fin.model()),
{
    let racy_setting = matches!(s.policy, SchedulingPolicy::Parallel) && s.primitive.synchronization
        == Synchronization::NoSync;
    HazardSet {
        data_race: racy_setting && detect_conflicting_pair(tr),
        use_after_free: detect_use_after_free(tr),
        double_free: detect_double_free(tr),
        dangling_reference: fin.owner_scope_closed && !fin.leaked,
        torn_write: detect_torn_write(s.resource.payload, tr),
        lifetime_escape: detect_lifetime_escape(tr),
    }
}

} // verus!
