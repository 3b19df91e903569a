//! Run invocation: executing a scenario yields its trace, the final resource
//! state, the manifested hazard set, and the verdict, as one report. The
//! report is a mathematical function of the scenario and, under the parallel
//! policy, of the injected arrival order; nondeterminism enters nowhere else.

use vstd::prelude::*;
use crate::classifier::{classify, spec_hazards, verdict_of, HazardSet, Verdict};
use crate::resource::{ModelError, Resource};
use crate::runner::{execute, full_schedule, spec_run};
use crate::scenario::Scenario;
use crate::trace::{StateModel, TraceEvent};

verus! {

/// What one run hands to its consumer.
#[derive(Debug)]
pub struct RunReport {
    pub trace: Vec<TraceEvent>,
    pub final_resource: Resource,
    pub owner_scope_closed: bool,
    pub leaked: bool,
    pub manifested: HazardSet,
    pub verdict: Verdict,
}

/// The final state of a run.
pub open spec fn run_final(s: Scenario, arrival: Seq<usize>) -> StateModel {
    spec_run(s, full_schedule(s, arrival)).0
}

/// The trace of a run.
pub open spec fn run_trace(s: Scenario, arrival: Seq<usize>) -> Seq<TraceEvent> {
    spec_run(s, full_schedule(s, arrival)).1
}

/// What a run manifests.
pub open spec fn run_hazards(s: Scenario, arrival: Seq<usize>) -> HazardSet {
    spec_hazards(s, run_trace(s, arrival), run_final(s, arrival))
}

/// What a run concludes: the scenario reproduced its declared hazard class
/// exactly when the manifested set contains it.
pub open spec fn run_verdict(s: Scenario, arrival: Seq<usize>) -> Verdict {
    if run_hazards(s, arrival).spec_contains(s.declared_hazard) {
        Verdict::Pass
    } else {
        Verdict::Fail(s.declared_hazard)
    }
}

/// Runs a scenario to completion and classifies the outcome. Every field of
/// the report is the mathematical run of the scenario over its complete
/// schedule: two runs on the same scenario and arrival order agree exactly.
pub fn run(s: &Scenario, arrival: &Vec<usize>) -> (r: RunReport)
    ensures
        r.trace@ == run_trace(*s, arrival@),
        r.final_resource == run_final(*s, arrival@).resource,
        r.owner_scope_closed == run_final(*s, arrival@).owner_scope_closed,
        r.leaked == run_final(*s, arrival@).leaked,
        r.manifested == run_hazards(*s, arrival@),
        r.verdict == run_verdict(*s, arrival@),
{
    let executed = execute(s, arrival);
    let st = executed.0;
    let tr = executed.1;
    let manifested = classify(s, &tr, &st);
    let verdict = verdict_of(s.declared_hazard, &manifested);
    RunReport {
        trace: tr,
        final_resource: st.resource,
        owner_scope_closed: st.owner_scope_closed,
        leaked: st.leaked,
        manifested,
        verdict,
    }
}

/// The operations left to run from task `t` on.
pub open spec fn ops_sum_from(s: Scenario, t: int) -> int
    decreases s.tasks@.len() - t,
{
    if t < 0 || t >= s.tasks@.len() {
        0
    } else {
        s.tasks@[t].operations@.len() + ops_sum_from(s, t + 1)
    }
}

/// How many operations a whole run executes.
pub open spec fn total_operations(s: Scenario) -> int {
    ops_sum_from(s, 0)
}

/// The remaining-operations count is never negative.
proof fn lemma_ops_sum_nonneg(s: Scenario, t: int)
    ensures
        ops_sum_from(s, t) >= 0,
    decreases s.tasks@.len() - t,
{
    if !(t < 0 || t >= s.tasks@.len()) {
        lemma_ops_sum_nonneg(s, t + 1);
    }
}

/// Runs a scenario under a step budget, the deterministic stand-in for a
/// wall-clock budget: every operation is one instantaneous step. Fails with
/// `RunTimeout`, before executing anything, exactly when the run would
/// execute more operations than the budget allows; otherwise reports the
/// same run that `run` gives.
pub fn run_with_budget(s: &Scenario, arrival: &Vec<usize>, budget: u64) -> (r: Result<
    RunReport,
    ModelError,
>)
    ensures
        total_operations(*s) > budget ==> r == Err::<RunReport, ModelError>(
            ModelError::RunTimeout,
        ),
        total_operations(*s) <= budget ==> (r matches Ok(rep) && rep.trace@ == run_trace(
            *s,
            arrival@,
        ) && rep.final_resource == run_final(*s, arrival@).resource
            && rep.owner_scope_closed == run_final(*s, arrival@).owner_scope_closed && rep.leaked
            == run_final(*s, arrival@).leaked && rep.manifested == run_hazards(*s, arrival@)
            && rep.verdict == run_verdict(*s, arrival@)),
{
    let n: usize = s.tasks.len();
    let mut acc: u64 = 0;
    let mut t: usize = 0;
    while t < n
        invariant
            n == s.tasks@.len(),
            0 <= t <= n,
            acc <= budget,
            acc + ops_sum_from(*s, t as int) == total_operations(*s),
        decreases n - t,
    {
        let here: u64 = s.tasks[t].operations.len() as u64;
        if here > budget - acc {
            proof {
                lemma_ops_sum_nonneg(*s, t as int + 1);
            }
            return Err(ModelError::RunTimeout);
        }
        acc = acc + here;
        t = t + 1;
    }
    Ok(run(s, arrival))
}

} // verus!
