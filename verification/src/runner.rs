//! The task runner. A run executes every task's operation sequence against
//! the shared resource, one operation per step, in the order a schedule
//! gives: the scenario's own declared interleaving under
//! `DeterministicInterleave`, or an arrival order injected from outside the
//! model under `Parallel`. The whole run is a mathematical function of the
//! scenario and the schedule, so an interleaving replays exactly.

use vstd::prelude::*;
use crate::resource::{ModelError, Owner, Resource};
use crate::scenario::{Scenario, SchedulingPolicy};
use crate::sharing::{SharingKind, Synchronization};
use crate::task::{Operation, WriteSource};
use crate::trace::{OpOutcome, RunState, StateModel, TraceEvent};

verus! {

/// `n` operation indices, all zero: no task has stepped yet.
pub open spec fn zeros_usize(n: nat) -> Seq<usize> {
    Seq::new(n, |i: int| 0usize)
}

/// `n` last-read values, all zero: no task has read yet.
pub open spec fn zeros_u64(n: nat) -> Seq<u64> {
    Seq::new(n, |i: int| 0u64)
}

/// The state a run starts from: the scenario's resource, no claim taken, the
/// owning scope open, and the allocation leaked exactly when the primitive
/// declares a process-wide lifetime.
pub open spec fn init_state(s: Scenario) -> StateModel {
    StateModel {
        resource: s.resource,
        claim_taken: false,
        owner_scope_closed: false,
        leaked: s.primitive.kind == SharingKind::LeakedStaticRef,
        pcs: zeros_usize(s.tasks@.len()),
        last_reads: zeros_u64(s.tasks@.len()),
    }
}

/// A releasing action. Under the atomic-flag guard a release first takes the
/// one claim: a second release is suppressed and never touches the resource.
/// An unguarded release of an already freed resource is the double-free
/// fault, captured as an outcome.
pub open spec fn spec_release(sync: Synchronization, st: StateModel) -> (StateModel, OpOutcome) {
    if sync == Synchronization::AtomicFlag && st.claim_taken {
        (st, OpOutcome::FreeSuppressed)
    } else {
        let claimed = StateModel {
            claim_taken: if sync == Synchronization::AtomicFlag {
                true
            } else {
                st.claim_taken
            },
            ..st
        };
        if st.resource.freed {
            (claimed, OpOutcome::Faulted(ModelError::DoubleFreeError))
        } else {
            (
                StateModel { resource: Resource { freed: true, ..claimed.resource }, ..claimed },
                OpOutcome::Freed,
            )
        }
    }
}

/// What one operation of task `t` does to the state, and what it observes.
/// Accesses to a freed resource fault; faults are recorded, never thrown.
pub open spec fn spec_apply(sync: Synchronization, st: StateModel, t: int, op: Operation) -> (
    StateModel,
    OpOutcome,
) {
    match op {
        Operation::Read => {
            if st.resource.freed {
                (st, OpOutcome::Faulted(ModelError::UseAfterFreeError))
            } else {
                (
                    StateModel { last_reads: st.last_reads.update(t, st.resource.payload), ..st },
                    OpOutcome::ValueRead(st.resource.payload),
                )
            }
        },
        Operation::Write(src) => {
            let v = match src {
                WriteSource::Literal(x) => x,
                WriteSource::LastReadPlus(d) => vstd::wrapping::u64_specs::wrapping_add(
                    st.last_reads[t],
                    d,
                ),
            };
            if st.resource.freed {
                (st, OpOutcome::Faulted(ModelError::UseAfterFreeError))
            } else {
                (
                    StateModel { resource: Resource { payload: v, ..st.resource }, ..st },
                    OpOutcome::Written(v),
                )
            }
        },
        Operation::Swap(x) => {
            if st.resource.freed {
                (st, OpOutcome::Faulted(ModelError::UseAfterFreeError))
            } else {
                (
                    StateModel { resource: Resource { payload: x, ..st.resource }, ..st },
                    OpOutcome::Swapped(st.resource.payload),
                )
            }
        },
        Operation::Free => spec_release(sync, st),
        Operation::Forget => (
            StateModel {
                leaked: true,
                resource: Resource { owner: Owner::ProcessLifetime, ..st.resource },
                ..st
            },
            OpOutcome::Forgotten,
        ),
        Operation::DropOwner => {
            if st.leaked {
                (StateModel { owner_scope_closed: true, ..st }, OpOutcome::ScopeClosed)
            } else {
                let closed = StateModel {
                    owner_scope_closed: true,
                    resource: Resource { owner: Owner::Released, ..st.resource },
                    ..st
                };
                spec_release(sync, closed)
            }
        },
    }
}

/// One step of a run: task `t` executes its next operation, stamped with the
/// logical clock, and advances. A step naming a finished or unknown task
/// changes nothing.
pub open spec fn spec_step(s: Scenario, st: StateModel, tr: Seq<TraceEvent>, t: int) -> (
    StateModel,
    Seq<TraceEvent>,
) {
    if 0 <= t < s.tasks@.len() && (st.pcs[t] as int) < s.tasks@[t].operations@.len() {
        let op = s.tasks@[t].operations@[st.pcs[t] as int];
        let applied = spec_apply(s.primitive.synchronization, st, t, op);
        let ev = TraceEvent {
            task: s.tasks@[t].id,
            operation: op,
            timestamp: tr.len() as u64,
            outcome: applied.1,
        };
        (
            StateModel { pcs: applied.0.pcs.update(t, (st.pcs[t] + 1) as usize), ..applied.0 },
            tr.push(ev),
        )
    } else {
        (st, tr)
    }
}

/// The state and trace after the first `k` entries of a schedule.
pub open spec fn spec_run_prefix(s: Scenario, sched: Seq<usize>, k: int) -> (
    StateModel,
    Seq<TraceEvent>,
)
    decreases k,
{
    if k <= 0 {
        (init_state(s), Seq::empty())
    } else {
        let prev = spec_run_prefix(s, sched, k - 1);
        if k - 1 < sched.len() {
            spec_step(s, prev.0, prev.1, sched[k - 1] as int)
        } else {
            prev
        }
    }
}

/// The state and trace after a whole schedule.
pub open spec fn spec_run(s: Scenario, sched: Seq<usize>) -> (StateModel, Seq<TraceEvent>) {
    spec_run_prefix(s, sched, sched.len() as int)
}

/// The run continued from a given state and trace over a remaining
/// schedule; the compositional view of `spec_run`.
pub open spec fn run_from(
    s: Scenario,
    st: StateModel,
    tr: Seq<TraceEvent>,
    sched: Seq<usize>,
) -> (StateModel, Seq<TraceEvent>)
    decreases sched.len(),
{
    if sched.len() == 0 {
        (st, tr)
    } else {
        let first = spec_step(s, st, tr, sched[0] as int);
        run_from(s, first.0, first.1, sched.subrange(1, sched.len() as int))
    }
}

/// A state fits a scenario when it has one operation index and one last-read
/// value per task, no index past its task's end.
pub open spec fn state_wf(s: Scenario, st: StateModel) -> bool {
    &&& st.pcs.len() == s.tasks@.len()
    &&& st.last_reads.len() == s.tasks@.len()
    &&& forall|i: int|
        0 <= i < st.pcs.len() ==> (#[trigger] st.pcs[i]) as int <= s.tasks@[i].operations@.len()
}

/// The order a run actually follows before draining: the declared
/// interleaving under `DeterministicInterleave`, the injected arrival order
/// under `Parallel`.
pub open spec fn effective_order(s: Scenario, arrival: Seq<usize>) -> Seq<usize> {
    match s.policy {
        SchedulingPolicy::Parallel => arrival,
        SchedulingPolicy::DeterministicInterleave(order) => order@,
    }
}

/// The canonical completion of a schedule: after the given order runs out,
/// each task in turn is stepped as many times as it has operations, so every
/// task finishes. Entries for already finished tasks change nothing.
pub open spec fn drain_order(s: Scenario, t: int) -> Seq<usize>
    decreases s.tasks@.len() - t,
{
    if t < 0 || t >= s.tasks@.len() {
        Seq::empty()
    } else {
        Seq::new(s.tasks@[t].operations@.len(), |i: int| t as usize) + drain_order(s, t + 1)
    }
}

/// The complete schedule of a run: the effective order, then the drain.
pub open spec fn full_schedule(s: Scenario, arrival: Seq<usize>) -> Seq<usize> {
    effective_order(s, arrival) + drain_order(s, 0)
}

/// A releasing action, executably. Relied on by `Free` and by a `DropOwner`
/// of a non-leaked allocation.
fn release(sync: Synchronization, st: &mut RunState) -> (out: OpOutcome)
    ensures
        final(st).model() == spec_release(sync, old(st).model()).0,
        out == spec_release(sync, old(st).model()).1,
{
    if sync == Synchronization::AtomicFlag && st.claim_taken {
        OpOutcome::FreeSuppressed
    } else {
        if sync == Synchronization::AtomicFlag {
            st.claim_taken = true;
        }
        if st.resource.freed {
            OpOutcome::Faulted(ModelError::DoubleFreeError)
        } else {
            st.resource.freed = true;
            OpOutcome::Freed
        }
    }
}

/// Executes the next operation of task `t`, appending its event to the
/// trace; a finished task is left alone.
fn step_task(s: &Scenario, st: &mut RunState, tr: &mut Vec<TraceEvent>, t: usize)
    requires
        old(st).pcs@.len() == s.tasks@.len(),
        old(st).last_reads@.len() == s.tasks@.len(),
        t < s.tasks@.len(),
    ensures
        final(st).model() == spec_step(*s, old(st).model(), old(tr)@, t as int).0,
        final(tr)@ == spec_step(*s, old(st).model(), old(tr)@, t as int).1,
        final(st).pcs@.len() == s.tasks@.len(),
        final(st).last_reads@.len() == s.tasks@.len(),
{
    let pc = st.pcs[t];
    if pc >= s.tasks[t].operations.len() {
        proof {
            assert(st.model() =~= spec_step(*s, old(st).model(), old(tr)@, t as int).0);
        }
        return ;
    }
    let op = s.tasks[t].operations[pc];
    let ts: u64 = tr.len() as u64;
    let task_id = s.tasks[t].id;
    let outcome: OpOutcome = match op {
        Operation::Read => {
            if st.resource.freed {
                OpOutcome::Faulted(ModelError::UseAfterFreeError)
            } else {
                let v = st.resource.payload;
                st.last_reads.set(t, v);
                OpOutcome::ValueRead(v)
            }
        },
        Operation::Write(src) => {
            let v = match src {
                WriteSource::Literal(x) => x,
                WriteSource::LastReadPlus(d) => st.last_reads[t].wrapping_add(d),
            };
            if st.resource.freed {
                OpOutcome::Faulted(ModelError::UseAfterFreeError)
            } else {
                st.resource.payload = v;
                OpOutcome::Written(v)
            }
        },
        Operation::Swap(x) => {
            if st.resource.freed {
                OpOutcome::Faulted(ModelError::UseAfterFreeError)
            } else {
                let prev = st.resource.payload;
                st.resource.payload = x;
                OpOutcome::Swapped(prev)
            }
        },
        Operation::Free => release(s.primitive.synchronization, st),
        Operation::Forget => {
            st.leaked = true;
            st.resource.owner = Owner::ProcessLifetime;
            OpOutcome::Forgotten
        },
        Operation::DropOwner => {
            st.owner_scope_closed = true;
            if st.leaked {
                OpOutcome::ScopeClosed
            } else {
                st.resource.owner = Owner::Released;
                release(s.primitive.synchronization, st)
            }
        },
    };
    st.pcs.set(t, pc + 1);
    tr.push(TraceEvent { task: task_id, operation: op, timestamp: ts, outcome });
    proof {
        assert(st.model() =~= spec_step(*s, old(st).model(), old(tr)@, t as int).0);
        assert(tr@ =~= spec_step(*s, old(st).model(), old(tr)@, t as int).1);
    }
}

/// The state a run starts from, executably.
fn init_run_state(s: &Scenario) -> (r: RunState)
    ensures
        r.model() == init_state(*s),
        r.pcs@.len() == s.tasks@.len(),
        r.last_reads@.len() == s.tasks@.len(),
{
    let n: usize = s.tasks.len();
    let mut pcs: Vec<usize> = Vec::new();
    let mut last_reads: Vec<u64> = Vec::new();
    let mut i: usize = 0;
    while i < n
        invariant
            0 <= i <= n,
            pcs@ == zeros_usize(i as nat),
            last_reads@ == zeros_u64(i as nat),
        decreases n - i,
    {
        pcs.push(0);
        last_reads.push(0);
        proof {
            assert(pcs@ =~= zeros_usize((i + 1) as nat));
            assert(last_reads@ =~= zeros_u64((i + 1) as nat));
        }
        i = i + 1;
    }
    let r = RunState {
        resource: s.resource,
        claim_taken: false,
        owner_scope_closed: false,
        leaked: matches!(s.primitive.kind, SharingKind::LeakedStaticRef),
        pcs,
        last_reads,
    };
    proof {
        assert(r.model() =~= init_state(*s));
    }
    r
}

/// Builds the complete schedule of a run: the effective order followed by
/// the drain that finishes every task.
fn build_full_schedule(s: &Scenario, arrival: &Vec<usize>) -> (r: Vec<usize>)
    ensures
        r@ == full_schedule(*s, arrival@),
{
    let mut r: Vec<usize> = Vec::new();
    match &s.policy {
        SchedulingPolicy::Parallel => {
            let mut i: usize = 0;
            while i < arrival.len()
                invariant
                    s.policy matches SchedulingPolicy::Parallel,
                    0 <= i <= arrival@.len(),
                    r@ == arrival@.subrange(0, i as int),
                decreases arrival@.len() - i,
            {
                r.push(arrival[i]);
                proof {
                    assert(r@ =~= arrival@.subrange(0, (i + 1) as int));
                }
                i = i + 1;
            }
            proof {
                assert(r@ =~= effective_order(*s, arrival@));
            }
        },
        SchedulingPolicy::DeterministicInterleave(order) => {
            let mut i: usize = 0;
            while i < order.len()
                invariant
                    s.policy == SchedulingPolicy::DeterministicInterleave(*order),
                    0 <= i <= order@.len(),
                    r@ == order@.subrange(0, i as int),
                decreases order@.len() - i,
            {
                r.push(order[i]);
                proof {
                    assert(r@ =~= order@.subrange(0, (i + 1) as int));
                }
                i = i + 1;
            }
            proof {
                assert(order@ =~= order@.subrange(0, order@.len() as int));
                assert(r@ =~= effective_order(*s, arrival@));
            }
        },
    }
    let n: usize = s.tasks.len();
    let mut t: usize = 0;
    while t < n
        invariant
            n == s.tasks@.len(),
            0 <= t <= n,
            r@ + drain_order(*s, t as int) == full_schedule(*s, arrival@),
        decreases n - t,
    {
        let m: usize = s.tasks[t].operations.len();
        let ghost entered = r@;
        let mut i: usize = 0;
        while i < m
            invariant
                n == s.tasks@.len(),
                t < n,
                m == s.tasks@[t as int].operations@.len(),
                0 <= i <= m,
                r@ == entered + Seq::new(i as nat, |x: int| t),
            decreases m - i,
        {
            r.push(t);
            proof {
                assert(r@ =~= entered + Seq::new((i + 1) as nat, |x: int| t));
            }
            i = i + 1;
        }
        proof {
            assert(drain_order(*s, t as int) == Seq::new(
                s.tasks@[t as int].operations@.len(),
                |x: int| t as usize,
            ) + drain_order(*s, t as int + 1));
            assert(Seq::new(m as nat, |x: int| t) =~= Seq::new(
                s.tasks@[t as int].operations@.len(),
                |x: int| t as usize,
            ));
            assert(r@ + drain_order(*s, t as int + 1) =~= (entered + drain_order(*s, t as int)));
        }
        t = t + 1;
    }
    proof {
        assert(drain_order(*s, n as int) =~= Seq::<usize>::empty());
        assert(r@ =~= (r@ + drain_order(*s, n as int)));
    }
    r
}

/// Executes a scenario to completion under its policy: the declared
/// interleaving under `DeterministicInterleave`, the given arrival order
/// under `Parallel`; either way the run then drains every task to its end.
/// The result is exactly the mathematical run over the complete schedule.
pub fn execute(s: &Scenario, arrival: &Vec<usize>) -> (r: (RunState, Vec<TraceEvent>))
    ensures
        r.0.model() == spec_run(*s, full_schedule(*s, arrival@)).0,
        r.1@ == spec_run(*s, full_schedule(*s, arrival@)).1,
{
    let sched = build_full_schedule(s, arrival);
    let mut st = init_run_state(s);
    let mut tr: Vec<TraceEvent> = Vec::new();
    let mut k: usize = 0;
    let ghost full = sched@;
    while k < sched.len()
        invariant
            sched@ == full,
            full == full_schedule(*s, arrival@),
            0 <= k <= full.len(),
            st.pcs@.len() == s.tasks@.len(),
            st.last_reads@.len() == s.tasks@.len(),
            st.model() == spec_run_prefix(*s, full, k as int).0,
            tr@ == spec_run_prefix(*s, full, k as int).1,
        decreases full.len() - k,
    {
        let t = sched[k];
        if t < s.tasks.len() {
            step_task(s, &mut st, &mut tr, t);
        } else {
            proof {
                assert(spec_step(*s, st.model(), tr@, t as int).0 =~= st.model());
            }
        }
        proof {
            assert(spec_run_prefix(*s, full, (k + 1) as int).0 == spec_step(
                *s,
                spec_run_prefix(*s, full, k as int).0,
                spec_run_prefix(*s, full, k as int).1,
                full[k as int] as int,
            ).0);
        }
        k = k + 1;
    }
    (st, tr)
}

} // verus!
