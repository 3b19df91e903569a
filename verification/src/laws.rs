//! Laws of the model, proved once and for all schedules: deterministic
//! replay, the exactness of the double-free rule, the absence of
//! use-after-free false positives, the single-free guarantee of the atomic
//! claim flag, completion of every run, and the schedule sensitivity of an
//! unsynchronized counter.

use vstd::prelude::*;
use crate::catalog::counter_ops;
use crate::classifier::{
    double_free_manifested, is_access_op, is_completed_free, is_free_event, spec_hazards, uaf_pair,
    use_after_free_manifested,
};
use crate::report::{ops_sum_from, run_final, run_hazards, run_trace, run_verdict, total_operations};
use crate::runner::{
    drain_order, effective_order, full_schedule, init_state, run_from, spec_apply, spec_run,
    spec_run_prefix, spec_step, state_wf, zeros_usize,
};
use crate::scenario::{Scenario, SchedulingPolicy};
use crate::sharing::Synchronization;
use crate::task::Operation;
use crate::trace::{StateModel, TraceEvent};

verus! {

/// Determinism of a run: the whole report is a mathematical function of the
/// scenario and the injected arrival order, so repeated runs on identical
/// input produce identical traces, final states, hazard sets and verdicts.
pub proof fn lemma_deterministic_replay(
    s1: Scenario,
    s2: Scenario,
    arrival1: Seq<usize>,
    arrival2: Seq<usize>,
)
    requires
        s1 == s2,
        arrival1 == arrival2,
    ensures
        run_trace(s1, arrival1) == run_trace(s2, arrival2),
        run_final(s1, arrival1) == run_final(s2, arrival2),
        run_hazards(s1, arrival1) == run_hazards(s2, arrival2),
        run_verdict(s1, arrival1) == run_verdict(s2, arrival2),
{
}

/// Under the deterministic-interleave policy the injected arrival order is
/// immaterial: the declared interleaving alone decides the run, so repeated
/// runs agree whatever order the outside world supplies.
pub proof fn lemma_interleave_ignores_arrival(
    s: Scenario,
    arrival1: Seq<usize>,
    arrival2: Seq<usize>,
)
    requires
        s.policy matches SchedulingPolicy::DeterministicInterleave(_),
    ensures
        run_trace(s, arrival1) == run_trace(s, arrival2),
        run_final(s, arrival1) == run_final(s, arrival2),
        run_hazards(s, arrival1) == run_hazards(s, arrival2),
        run_verdict(s, arrival1) == run_verdict(s, arrival2),
{
    assert(effective_order(s, arrival1) == effective_order(s, arrival2));
    assert(full_schedule(s, arrival1) == full_schedule(s, arrival2));
}

/// The double-free rule is exact: the classification holds of a run if and
/// only if two free events reached the run's one resource. The model has no
/// reallocation, so no reallocation can lie between them.
pub proof fn lemma_double_free_characterization(s: Scenario, tr: Seq<TraceEvent>, fin: StateModel)
    ensures
        spec_hazards(s, tr, fin).double_free <==> (exists|i: int, j: int|
            0 <= i < j < tr.len() && is_free_event(#[trigger] tr[i]) && is_free_event(
                #[trigger] tr[j],
            )),
{
}

/// No use-after-free false positive: in a trace where every read and write
/// has a logical timestamp no later than that of every completed free, the
/// use-after-free classification does not trigger; in particular a read that
/// precedes every free never triggers it.
pub proof fn lemma_no_false_positive_use_after_free(tr: Seq<TraceEvent>)
    requires
        forall|i: int, j: int|
            0 <= i < tr.len() && 0 <= j < tr.len() && is_access_op(#[trigger] tr[i].operation)
                && is_completed_free(#[trigger] tr[j]) ==> tr[i].timestamp <= tr[j].timestamp,
    ensures
        !use_after_free_manifested(tr),
{
    assert forall|i: int, j: int|
        0 <= i < tr.len() && 0 <= j < tr.len() implies !uaf_pair(tr, i, j) by {
        if is_access_op(tr[i].operation) && is_completed_free(tr[j]) {
            assert(tr[i].timestamp <= tr[j].timestamp);
        }
    }
}

/// The heart of the atomic-claim guarantee, by induction over a run's steps:
/// while the claim is untaken no free event has reached the resource, and no
/// prefix of any run ever holds two free events.
proof fn lemma_atomic_claim_guard(s: Scenario, sched: Seq<usize>, k: int)
    requires
        s.primitive.synchronization == Synchronization::AtomicFlag,
    ensures
        !spec_run_prefix(s, sched, k).0.claim_taken ==> (forall|i: int|
            0 <= i < spec_run_prefix(s, sched, k).1.len() ==> !is_free_event(
                #[trigger] spec_run_prefix(s, sched, k).1[i],
            )),
        !double_free_manifested(spec_run_prefix(s, sched, k).1),
    decreases
            if k <= 0 {
                0int
            } else {
                k
            },
{
    if k <= 0 {
    } else {
        lemma_atomic_claim_guard(s, sched, k - 1);
        let prev = spec_run_prefix(s, sched, k - 1);
        let cur = spec_run_prefix(s, sched, k);
        if k - 1 < sched.len() {
            let t = sched[k - 1] as int;
            if 0 <= t < s.tasks@.len() && (prev.0.pcs[t] as int) < s.tasks@[t].operations@.len() {
                let op = s.tasks@[t].operations@[prev.0.pcs[t] as int];
                let applied = spec_apply(s.primitive.synchronization, prev.0, t, op);
                let ev = TraceEvent {
                    task: s.tasks@[t].id,
                    operation: op,
                    timestamp: prev.1.len() as u64,
                    outcome: applied.1,
                };
                assert(cur.1 == prev.1.push(ev));
                assert(cur.0.claim_taken == applied.0.claim_taken);
                assert(forall|i: int| 0 <= i < prev.1.len() ==> #[trigger] cur.1[i] == prev.1[i]);
                if is_free_event(ev) {
                    assert(!prev.0.claim_taken && applied.0.claim_taken);
                    assert(forall|i: int|
                        0 <= i < prev.1.len() ==> !is_free_event(#[trigger] prev.1[i]));
                    assert(!double_free_manifested(cur.1)) by {
                        assert forall|i: int, j: int|
                            0 <= i < j < cur.1.len() implies !(is_free_event(#[trigger] cur.1[i])
                            && is_free_event(#[trigger] cur.1[j])) by {
                            if j < prev.1.len() {
                                assert(!double_free_manifested(prev.1));
                            } else {
                                assert(!is_free_event(cur.1[i]));
                            }
                        }
                    }
                } else {
                    assert(applied.0.claim_taken == prev.0.claim_taken);
                    assert(!double_free_manifested(cur.1)) by {
                        assert forall|i: int, j: int|
                            0 <= i < j < cur.1.len() implies !(is_free_event(#[trigger] cur.1[i])
                            && is_free_event(#[trigger] cur.1[j])) by {
                            if j < prev.1.len() {
                                assert(!double_free_manifested(prev.1));
                            } else {
                                assert(!is_free_event(cur.1[j]));
                            }
                        }
                    }
                }
            }
        }
    }
}

/// The atomic-claim law: under the atomic claim flag, no run of any
/// scenario, under any schedule, manifests a double free — at most one
/// release ever reaches the resource; every later one is suppressed.
pub proof fn lemma_atomic_claim_never_double_free(s: Scenario, arrival: Seq<usize>)
    requires
        s.primitive.synchronization == Synchronization::AtomicFlag,
    ensures
        !run_hazards(s, arrival).double_free,
{
    let sched = full_schedule(s, arrival);
    lemma_atomic_claim_guard(s, sched, sched.len() as int);
}

/// The total of all tasks' operation indices from task `t` on.
pub open spec fn pc_sum(pcs: Seq<usize>, t: int) -> int
    decreases pcs.len() - t,
{
    if t < 0 || t >= pcs.len() {
        0
    } else {
        pcs[t] + pc_sum(pcs, t + 1)
    }
}

/// Updating one index moves the total by the difference at that index.
proof fn lemma_pc_sum_update(pcs: Seq<usize>, t: int, v: usize, u: int)
    requires
        0 <= t < pcs.len(),
        0 <= u,
    ensures
        pc_sum(pcs.update(t, v), u) == pc_sum(pcs, u) + (if u <= t {
            v - pcs[t]
        } else {
            0
        }),
    decreases pcs.len() - u,
{
    if u < pcs.len() {
        lemma_pc_sum_update(pcs, t, v, u + 1);
    }
}

/// Untouched indices sum to zero.
proof fn lemma_pc_sum_zeros(n: nat, u: int)
    requires
        0 <= u,
    ensures
        pc_sum(zeros_usize(n), u) == 0,
    decreases n - u,
{
    if u < n {
        lemma_pc_sum_zeros(n, u + 1);
    }
}

/// When every task's index stands at its end, the indices sum to the
/// operation count.
proof fn lemma_pc_sum_complete(s: Scenario, pcs: Seq<usize>, u: int)
    requires
        0 <= u,
        pcs.len() == s.tasks@.len(),
        forall|i: int|
            0 <= i < pcs.len() ==> (#[trigger] pcs[i]) as int == s.tasks@[i].operations@.len(),
    ensures
        pc_sum(pcs, u) == ops_sum_from(s, u),
    decreases pcs.len() - u,
{
    if u < pcs.len() {
        lemma_pc_sum_complete(s, pcs, u + 1);
    }
}

/// One step keeps the state fitting its scenario and advances only the
/// stepped task, by one exactly when it had an operation left.
proof fn lemma_step_frame(s: Scenario, st: StateModel, tr: Seq<TraceEvent>, t: int)
    requires
        state_wf(s, st),
    ensures
        ({
            let r = spec_step(s, st, tr, t);
            &&& state_wf(s, r.0)
            &&& r.0.pcs.len() == st.pcs.len()
            &&& forall|i: int| 0 <= i < st.pcs.len() && i != t ==> r.0.pcs[i] == st.pcs[i]
            &&& (0 <= t < st.pcs.len() && (st.pcs[t] as int) < s.tasks@[t].operations@.len()
                ==> r.0.pcs[t] == st.pcs[t] + 1)
            &&& (!(0 <= t < st.pcs.len() && (st.pcs[t] as int) < s.tasks@[t].operations@.len())
                ==> r.0 == st && r.1 == tr)
        }),
{
    if 0 <= t < st.pcs.len() && (st.pcs[t] as int) < s.tasks@[t].operations@.len() {
        assert(s.tasks@[t].operations.len() == s.tasks@[t].operations@.len());
        assert(st.pcs[t] + 1 <= usize::MAX);
        let op = s.tasks@[t].operations@[st.pcs[t] as int];
        let applied = spec_apply(s.primitive.synchronization, st, t, op);
        assert(applied.0.pcs == st.pcs);
    }
}

/// One step also grows the trace by exactly the progress made.
proof fn lemma_step_progress(s: Scenario, st: StateModel, tr: Seq<TraceEvent>, t: int)
    requires
        state_wf(s, st),
        tr.len() == pc_sum(st.pcs, 0),
    ensures
        ({
            let r = spec_step(s, st, tr, t);
            &&& state_wf(s, r.0)
            &&& r.1.len() == pc_sum(r.0.pcs, 0)
            &&& r.0.pcs.len() == st.pcs.len()
            &&& forall|i: int| 0 <= i < st.pcs.len() && i != t ==> r.0.pcs[i] == st.pcs[i]
            &&& (0 <= t < st.pcs.len() && (st.pcs[t] as int) < s.tasks@[t].operations@.len()
                ==> r.0.pcs[t] == st.pcs[t] + 1)
            &&& (!(0 <= t < st.pcs.len() && (st.pcs[t] as int) < s.tasks@[t].operations@.len())
                ==> r.0 == st && r.1 == tr)
        }),
{
    lemma_step_frame(s, st, tr, t);
    if 0 <= t < st.pcs.len() && (st.pcs[t] as int) < s.tasks@[t].operations@.len() {
        lemma_pc_sum_update(st.pcs, t, (st.pcs[t] + 1) as usize, 0);
    }
}

/// Running from a fitting state over any schedule keeps the state fitting
/// and the trace length equal to the total progress made.
proof fn lemma_run_from_progress(s: Scenario, st: StateModel, tr: Seq<TraceEvent>, sched: Seq<usize>)
    requires
        state_wf(s, st),
        tr.len() == pc_sum(st.pcs, 0),
    ensures
        state_wf(s, run_from(s, st, tr, sched).0),
        run_from(s, st, tr, sched).1.len() == pc_sum(run_from(s, st, tr, sched).0.pcs, 0),
    decreases sched.len(),
{
    if sched.len() > 0 {
        lemma_step_progress(s, st, tr, sched[0] as int);
        let first = spec_step(s, st, tr, sched[0] as int);
        lemma_run_from_progress(s, first.0, first.1, sched.subrange(1, sched.len() as int));
    }
}

/// Running a concatenation is running the parts in order.
proof fn lemma_run_from_concat(
    s: Scenario,
    st: StateModel,
    tr: Seq<TraceEvent>,
    a: Seq<usize>,
    b: Seq<usize>,
)
    ensures
        run_from(s, st, tr, a + b).0 == run_from(
            s,
            run_from(s, st, tr, a).0,
            run_from(s, st, tr, a).1,
            b,
        ).0,
        run_from(s, st, tr, a + b).1 == run_from(
            s,
            run_from(s, st, tr, a).0,
            run_from(s, st, tr, a).1,
            b,
        ).1,
    decreases a.len(),
{
    if a.len() == 0 {
        assert(a + b =~= b);
    } else {
        assert((a + b)[0] == a[0]);
        assert((a + b).subrange(1, (a + b).len() as int) =~= a.subrange(1, a.len() as int) + b);
        let first = spec_step(s, st, tr, a[0] as int);
        lemma_run_from_concat(s, first.0, first.1, a.subrange(1, a.len() as int), b);
    }
}

/// Appending one entry to a schedule appends one step to the run.
proof fn lemma_run_from_snoc(
    s: Scenario,
    st: StateModel,
    tr: Seq<TraceEvent>,
    sched: Seq<usize>,
    e: usize,
)
    ensures
        run_from(s, st, tr, sched.push(e)).0 == spec_step(
            s,
            run_from(s, st, tr, sched).0,
            run_from(s, st, tr, sched).1,
            e as int,
        ).0,
        run_from(s, st, tr, sched.push(e)).1 == spec_step(
            s,
            run_from(s, st, tr, sched).0,
            run_from(s, st, tr, sched).1,
            e as int,
        ).1,
{
    let single = seq![e];
    assert(sched.push(e) =~= sched + single);
    lemma_run_from_concat(s, st, tr, sched, single);
    let m = run_from(s, st, tr, sched);
    let first = spec_step(s, m.0, m.1, e as int);
    assert(single.len() == 1 && single[0] == e);
    assert(single.subrange(1, 1) =~= Seq::<usize>::empty());
    assert(run_from(s, m.0, m.1, single).0 == run_from(s, first.0, first.1, single.subrange(1, 1)).0);
    assert(run_from(s, m.0, m.1, single).1 == run_from(s, first.0, first.1, single.subrange(1, 1)).1);
    assert(run_from(s, first.0, first.1, single.subrange(1, 1)).0 == first.0);
    assert(run_from(s, first.0, first.1, single.subrange(1, 1)).1 == first.1);
}

/// The anchored run over a prefix is the compositional run over it.
proof fn lemma_prefix_run_from(s: Scenario, sched: Seq<usize>, k: int)
    requires
        0 <= k <= sched.len(),
    ensures
        spec_run_prefix(s, sched, k).0 == run_from(
            s,
            init_state(s),
            Seq::empty(),
            sched.take(k),
        ).0,
        spec_run_prefix(s, sched, k).1 == run_from(
            s,
            init_state(s),
            Seq::empty(),
            sched.take(k),
        ).1,
    decreases k,
{
    if k == 0 {
        assert(sched.take(0) =~= Seq::<usize>::empty());
    } else {
        lemma_prefix_run_from(s, sched, k - 1);
        assert(sched.take(k) =~= sched.take(k - 1).push(sched[k - 1]));
        lemma_run_from_snoc(s, init_state(s), Seq::empty(), sched.take(k - 1), sched[k - 1]);
    }
}

/// Stepping one task `j` times in a row advances it by `j`, to its end at
/// most, and touches no other task.
proof fn lemma_run_block(s: Scenario, st: StateModel, tr: Seq<TraceEvent>, t: int, j: nat)
    requires
        state_wf(s, st),
        tr.len() == pc_sum(st.pcs, 0),
        0 <= t < st.pcs.len(),
        t <= usize::MAX,
    ensures
        ({
            let r = run_from(s, st, tr, Seq::new(j, |x: int| t as usize));
            &&& state_wf(s, r.0)
            &&& r.1.len() == pc_sum(r.0.pcs, 0)
            &&& r.0.pcs.len() == st.pcs.len()
            &&& (r.0.pcs[t] as int) == (if st.pcs[t] + j <= s.tasks@[t].operations@.len() {
                (st.pcs[t] + j) as int
            } else {
                s.tasks@[t].operations@.len() as int
            })
            &&& forall|i: int| 0 <= i < st.pcs.len() && i != t ==> r.0.pcs[i] == st.pcs[i]
        }),
    decreases j,
{
    let blk = Seq::new(j, |x: int| t as usize);
    if j == 0 {
    } else {
        assert(blk[0] == t as usize);
        lemma_step_progress(s, st, tr, t);
        let first = spec_step(s, st, tr, t);
        assert(blk.subrange(1, j as int) =~= Seq::new((j - 1) as nat, |x: int| t as usize));
        lemma_run_block(s, first.0, first.1, t, (j - 1) as nat);
    }
}

/// Running the drain from task `t` on finishes every task from `t` on and
/// leaves the earlier ones where they stood.
proof fn lemma_run_drain(s: Scenario, st: StateModel, tr: Seq<TraceEvent>, t: int)
    requires
        state_wf(s, st),
        tr.len() == pc_sum(st.pcs, 0),
        0 <= t,
    ensures
        ({
            let r = run_from(s, st, tr, drain_order(s, t));
            &&& state_wf(s, r.0)
            &&& r.1.len() == pc_sum(r.0.pcs, 0)
            &&& r.0.pcs.len() == st.pcs.len()
            &&& forall|i: int|
                t <= i < st.pcs.len() ==> (#[trigger] r.0.pcs[i]) as int
                    == s.tasks@[i].operations@.len()
            &&& forall|i: int| 0 <= i < t && i < st.pcs.len() ==> r.0.pcs[i] == st.pcs[i]
        }),
    decreases s.tasks@.len() - t,
{
    if t >= s.tasks@.len() {
        assert(drain_order(s, t) =~= Seq::<usize>::empty());
    } else {
        assert(s.tasks.len() == s.tasks@.len());
        let len_t = s.tasks@[t].operations@.len();
        let blk = Seq::new(len_t, |x: int| t as usize);
        assert(drain_order(s, t) == blk + drain_order(s, t + 1));
        lemma_run_block(s, st, tr, t, len_t);
        let mid = run_from(s, st, tr, blk);
        lemma_run_from_concat(s, st, tr, blk, drain_order(s, t + 1));
        lemma_run_drain(s, mid.0, mid.1, t + 1);
    }
}

/// Completion: a run executes every operation of every task, whatever the
/// schedule — each task ends at the end of its sequence, and the trace holds
/// exactly one event per declared operation.
pub proof fn lemma_run_completes(s: Scenario, arrival: Seq<usize>)
    ensures
        forall|i: int|
            0 <= i < s.tasks@.len() ==> (#[trigger] run_final(s, arrival).pcs[i]) as int
                == s.tasks@[i].operations@.len(),
        run_trace(s, arrival).len() == total_operations(s),
{
    let sched = full_schedule(s, arrival);
    let init = init_state(s);
    assert(s.tasks.len() == s.tasks@.len());
    lemma_prefix_run_from(s, sched, sched.len() as int);
    assert(sched.take(sched.len() as int) =~= sched);
    lemma_pc_sum_zeros(s.tasks@.len(), 0);
    assert(state_wf(s, init));
    lemma_run_from_concat(s, init, Seq::empty(), effective_order(s, arrival), drain_order(s, 0));
    let mid = run_from(s, init, Seq::empty(), effective_order(s, arrival));
    lemma_run_from_progress(s, init, Seq::empty(), effective_order(s, arrival));
    lemma_run_drain(s, mid.0, mid.1, 0);
    let fin = run_from(s, mid.0, mid.1, drain_order(s, 0));
    lemma_pc_sum_complete(s, fin.0.pcs, 0);
}

/// Counter semantics of one task run alone: `j` uninterrupted
/// read-modify-write pairs add exactly `j` to the payload.
proof fn lemma_counter_block(
    s: Scenario,
    st: StateModel,
    tr: Seq<TraceEvent>,
    t: int,
    j: nat,
    n: nat,
)
    requires
        state_wf(s, st),
        0 <= t < st.pcs.len(),
        t <= usize::MAX,
        s.tasks@[t].operations@ == counter_ops(n),
        st.pcs[t] % 2 == 0,
        st.pcs[t] + 2 * j <= 2 * n,
        !st.resource.freed,
        st.resource.payload + j <= u64::MAX,
    ensures
        ({
            let r = run_from(s, st, tr, Seq::new(2 * j, |x: int| t as usize));
            &&& state_wf(s, r.0)
            &&& r.0.pcs.len() == st.pcs.len()
            &&& r.0.pcs[t] == st.pcs[t] + 2 * j
            &&& forall|i: int| 0 <= i < st.pcs.len() && i != t ==> r.0.pcs[i] == st.pcs[i]
            &&& r.0.resource == (crate::resource::Resource {
                payload: (st.resource.payload + j) as u64,
                ..st.resource
            })
            &&& r.0.claim_taken == st.claim_taken
            &&& r.0.owner_scope_closed == st.owner_scope_closed
            &&& r.0.leaked == st.leaked
        }),
    decreases j,
{
    let blk = Seq::new(2 * j, |x: int| t as usize);
    if j == 0 {
        assert(blk.len() == 0);
        assert(run_from(s, st, tr, blk).0 == st);
        assert(st.resource == (crate::resource::Resource {
            payload: (st.resource.payload + 0) as u64,
            ..st.resource
        }));
    } else {
        assert(s.tasks@[t].operations.len() == s.tasks@[t].operations@.len());
        assert(blk[0] == t as usize);
        assert(counter_ops(n)[st.pcs[t] as int] == Operation::Read);
        lemma_step_frame(s, st, tr, t);
        let s1 = spec_step(s, st, tr, t);
        assert(s1.0.last_reads[t] == st.resource.payload);
        assert(s1.0.resource == st.resource);
        let rest1 = blk.subrange(1, blk.len() as int);
        assert(rest1[0] == t as usize);
        assert(counter_ops(n)[s1.0.pcs[t] as int] == Operation::Write(
            crate::task::WriteSource::LastReadPlus(1),
        )) by {
            assert(s1.0.pcs[t] == st.pcs[t] + 1);
            assert((st.pcs[t] + 1) % 2 == 1);
        }
        lemma_step_frame(s, s1.0, s1.1, t);
        let s2 = spec_step(s, s1.0, s1.1, t);
        assert(s2.0.resource.payload == st.resource.payload + 1) by {
            assert(vstd::wrapping::u64_specs::wrapping_add(st.resource.payload, 1)
                == st.resource.payload + 1);
        }
        let rest2 = rest1.subrange(1, rest1.len() as int);
        assert(rest2 =~= Seq::new(2 * ((j - 1) as nat), |x: int| t as usize));
        lemma_counter_block(s, s2.0, s2.1, t, (j - 1) as nat, n);
        assert((blk[0] as int) == t);
        assert(run_from(s, st, tr, blk).0 == run_from(s, s1.0, s1.1, rest1).0);
        assert((rest1[0] as int) == t);
        assert(run_from(s, s1.0, s1.1, rest1).0 == run_from(s, s2.0, s2.1, rest2).0);
    }
}

/// Counter semantics in lockstep: each round of two interleaved
/// read-modify-write pairs adds exactly one to the payload, because both
/// tasks read the same value and both write that value plus one: one of the
/// two updates is lost.
proof fn lemma_counter_rounds(s: Scenario, st: StateModel, tr: Seq<TraceEvent>, j: nat, n: nat)
    requires
        state_wf(s, st),
        st.pcs.len() == 2,
        s.tasks@[0].operations@ == counter_ops(n),
        s.tasks@[1].operations@ == counter_ops(n),
        st.pcs[0] == st.pcs[1],
        st.pcs[0] % 2 == 0,
        st.pcs[0] + 2 * j <= 2 * n,
        !st.resource.freed,
        st.resource.payload + j <= u64::MAX,
    ensures
        run_from(s, st, tr, Seq::new(4 * j, |x: int| ((x % 2) as usize))).0.resource.payload
            == st.resource.payload + j,
    decreases j,
{
    let blk = Seq::new(4 * j, |x: int| ((x % 2) as usize));
    if j == 0 {
        assert(blk.len() == 0);
    } else {
        assert(s.tasks@[0].operations.len() == s.tasks@[0].operations@.len());
        assert(s.tasks@[1].operations.len() == s.tasks@[1].operations@.len());
        assert(counter_ops(n)[st.pcs[0] as int] == Operation::Read);
        assert((blk[0] as int) == 0);
        lemma_step_frame(s, st, tr, 0);
        let s1 = spec_step(s, st, tr, 0);
        assert(s1.0.last_reads[0] == st.resource.payload);
        assert(s1.0.resource == st.resource);
        let rest1 = blk.subrange(1, blk.len() as int);
        assert((rest1[0] as int) == 1);
        lemma_step_frame(s, s1.0, s1.1, 1);
        let s2 = spec_step(s, s1.0, s1.1, 1);
        assert(s2.0.last_reads[1] == st.resource.payload);
        assert(s2.0.resource == st.resource);
        assert(s2.0.pcs[0] == st.pcs[0] + 1 && s2.0.pcs[1] == st.pcs[1] + 1);
        let rest2 = rest1.subrange(1, rest1.len() as int);
        assert((rest2[0] as int) == 0);
        assert(counter_ops(n)[s2.0.pcs[0] as int] == Operation::Write(
            crate::task::WriteSource::LastReadPlus(1),
        )) by {
            assert((st.pcs[0] + 1) % 2 == 1);
        }
        lemma_step_frame(s, s2.0, s2.1, 0);
        let s3 = spec_step(s, s2.0, s2.1, 0);
        assert(s3.0.resource.payload == st.resource.payload + 1) by {
            assert(vstd::wrapping::u64_specs::wrapping_add(st.resource.payload, 1)
                == st.resource.payload + 1);
        }
        assert(s3.0.last_reads[1] == st.resource.payload);
        assert(!s3.0.resource.freed);
        let rest3 = rest2.subrange(1, rest2.len() as int);
        assert((rest3[0] as int) == 1);
        lemma_step_frame(s, s3.0, s3.1, 1);
        let s4 = spec_step(s, s3.0, s3.1, 1);
        assert(s4.0.resource.payload == st.resource.payload + 1) by {
            assert(vstd::wrapping::u64_specs::wrapping_add(st.resource.payload, 1)
                == st.resource.payload + 1);
        }
        assert(!s4.0.resource.freed);
        assert(s4.0.pcs[0] == st.pcs[0] + 2 && s4.0.pcs[1] == st.pcs[1] + 2);
        let rest4 = rest3.subrange(1, rest3.len() as int);
        assert(rest4 =~= Seq::new(4 * ((j - 1) as nat), |x: int| ((x % 2) as usize)));
        lemma_counter_rounds(s, s4.0, s4.1, (j - 1) as nat, n);
        assert(run_from(s, st, tr, blk).0 == run_from(s, s1.0, s1.1, rest1).0);
        assert(run_from(s, s1.0, s1.1, rest1).0 == run_from(s, s2.0, s2.1, rest2).0);
        assert(run_from(s, s2.0, s2.1, rest2).0 == run_from(s, s3.0, s3.1, rest3).0);
        assert(run_from(s, s3.0, s3.1, rest3).0 == run_from(s, s4.0, s4.1, rest4).0);
    }
}

/// Schedule sensitivity of the unsynchronized counter, for every increment
/// count: the sequential schedule ends at twice the count, the lockstep
/// schedule loses one of each pair of updates and ends at the count itself.
/// For any positive count the two disagree: a true race is schedule
/// sensitive, and the two endpoints of its final-state range are reached.
pub proof fn lemma_counter_schedule_dependence(s: Scenario, n: nat)
    requires
        s.tasks@.len() == 2,
        s.tasks@[0].operations@ == counter_ops(n),
        s.tasks@[1].operations@ == counter_ops(n),
        s.resource.payload == 0,
        !s.resource.freed,
        2 * n <= u64::MAX,
    ensures
        spec_run(
            s,
            Seq::new(2 * n, |x: int| 0usize) + Seq::new(2 * n, |x: int| 1usize),
        ).0.resource.payload == 2 * n,
        spec_run(s, Seq::new(4 * n, |x: int| ((x % 2) as usize))).0.resource.payload == n,
        n >= 1 ==> spec_run(
            s,
            Seq::new(2 * n, |x: int| 0usize) + Seq::new(2 * n, |x: int| 1usize),
        ).0.resource.payload != spec_run(
            s,
            Seq::new(4 * n, |x: int| ((x % 2) as usize)),
        ).0.resource.payload,
{
    let init = init_state(s);
    assert(s.tasks.len() == s.tasks@.len());
    assert(init.pcs[0] == 0 && init.pcs[1] == 0);
    assert(state_wf(s, init));
    let a = Seq::new(2 * n, |x: int| 0usize);
    let b = Seq::new(2 * n, |x: int| 1usize);
    lemma_prefix_run_from(s, a + b, (a + b).len() as int);
    assert((a + b).take((a + b).len() as int) =~= a + b);
    lemma_run_from_concat(s, init, Seq::empty(), a, b);
    lemma_counter_block(s, init, Seq::empty(), 0, n, n);
    let mid = run_from(s, init, Seq::empty(), a);
    assert(mid.0.resource.payload == n && mid.0.pcs[1] == 0 && !mid.0.resource.freed);
    lemma_counter_block(s, mid.0, mid.1, 1, n, n);
    let c = Seq::new(4 * n, |x: int| ((x % 2) as usize));
    lemma_prefix_run_from(s, c, c.len() as int);
    assert(c.take(c.len() as int) =~= c);
    lemma_counter_rounds(s, init, Seq::empty(), n, n);
}

} // verus!
