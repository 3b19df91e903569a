use hazard_model::catalog::{
    atomic_claim_free_scenario, counter_scenario, escaped_scope_scenario, parts_split_scenario,
    unguarded_double_free_scenario, use_after_free_scenario,
};
use hazard_model::classifier::{classify, Verdict};
use hazard_model::report::{run, run_with_budget};
use hazard_model::resource::{ModelError, Owner, Resource, ResourceKind};
use hazard_model::scenario::{HazardClass, Scenario, SchedulingPolicy};
use hazard_model::sharing::{Mutability, SharingKind, SharingPrimitive, Synchronization};
use hazard_model::task::TaskDescriptor;
use hazard_model::task::{Operation, WriteSource};
use hazard_model::trace::{OpOutcome, RunState, TraceEvent};

/// A small deterministic schedule generator for parallel trials: each entry
/// picks one of `tasks` task indices from a xorshift stream.
fn schedule_from_seed(mut seed: u64, len: usize, tasks: usize) -> Vec<usize> {
    let mut order = Vec::with_capacity(len);
    for _ in 0..len {
        seed ^= seed << 13;
        seed ^= seed >> 7;
        seed ^= seed << 17;
        order.push((seed % tasks as u64) as usize);
    }
    order
}

#[test]
fn counter_sequential_schedule_reaches_two_thousand() {
    let s = counter_scenario(1000);
    let report = run(&s, &Vec::new());
    assert_eq!(report.final_resource.payload, 2000);
    assert_eq!(report.trace.len(), 4000);
    assert_eq!(report.verdict, Verdict::Pass);
    assert!(report.manifested.data_race);
}

#[test]
fn counter_alternating_schedule_loses_every_other_update() {
    let s = counter_scenario(1000);
    let mut order = Vec::new();
    for _ in 0..2000 {
        order.push(0);
        order.push(1);
    }
    let report = run(&s, &order);
    assert_eq!(report.final_resource.payload, 1000);
    assert!(report.manifested.data_race);
    assert_eq!(report.verdict, Verdict::Pass);
}

#[test]
fn counter_trials_stay_in_range_and_vary() {
    let s = counter_scenario(1000);
    let mut finals = Vec::new();
    for trial in 0..20u64 {
        let order = schedule_from_seed(0x9e3779b97f4a7c15 ^ (trial + 1), 4000, 2);
        let report = run(&s, &order);
        let v = report.final_resource.payload;
        assert!(v >= 1000, "final value {} below the losing-every-update floor", v);
        assert!(v <= 2000, "final value {} above the loss-free ceiling", v);
        finals.push(v);
    }
    finals.sort();
    finals.dedup();
    assert!(finals.len() >= 2, "twenty schedules gave a single final state");
}

#[test]
fn deterministic_interleave_replays_identically() {
    let s1 = use_after_free_scenario();
    let s2 = use_after_free_scenario();
    let a = run(&s1, &Vec::new());
    let b = run(&s2, &vec![1, 1, 0, 0]);
    assert_eq!(a.trace, b.trace);
    assert_eq!(a.final_resource, b.final_resource);
    assert_eq!(a.verdict, b.verdict);
    assert_eq!(a.manifested, b.manifested);
}

#[test]
fn use_after_free_manifests_when_read_follows_drop() {
    let s = use_after_free_scenario();
    let report = run(&s, &Vec::new());
    assert!(report.manifested.use_after_free);
    assert!(report.manifested.dangling_reference);
    assert_eq!(report.verdict, Verdict::Pass);
    assert_eq!(report.trace.len(), 2);
    assert_eq!(report.trace[0].outcome, OpOutcome::Freed);
    assert_eq!(
        report.trace[1].outcome,
        OpOutcome::Faulted(ModelError::UseAfterFreeError)
    );
}

#[test]
fn read_preceding_every_free_is_not_use_after_free() {
    let mut s = use_after_free_scenario();
    // The same two tasks, but the read is scheduled before the drop.
    s.tasks.swap(0, 1);
    let report = run(&s, &Vec::new());
    assert_eq!(report.trace[0].outcome, OpOutcome::ValueRead(1989));
    assert_eq!(report.trace[1].outcome, OpOutcome::Freed);
    assert!(!report.manifested.use_after_free);
    assert_eq!(report.verdict, Verdict::Fail(HazardClass::UseAfterFree));
}

#[test]
fn unguarded_double_free_manifests() {
    let s = unguarded_double_free_scenario();
    let report = run(&s, &vec![0, 1]);
    assert_eq!(report.trace.len(), 2);
    assert_eq!(report.trace[0].outcome, OpOutcome::Freed);
    assert_eq!(
        report.trace[1].outcome,
        OpOutcome::Faulted(ModelError::DoubleFreeError)
    );
    assert!(report.manifested.double_free);
    assert_eq!(report.verdict, Verdict::Pass);
}

#[test]
fn single_free_is_not_double_free() {
    let mut s = unguarded_double_free_scenario();
    s.tasks.pop();
    let report = run(&s, &Vec::new());
    assert_eq!(report.trace.len(), 1);
    assert_eq!(report.trace[0].outcome, OpOutcome::Freed);
    assert!(!report.manifested.double_free);
    assert_eq!(report.verdict, Verdict::Fail(HazardClass::DoubleFree));
}

#[test]
fn atomic_claim_suppresses_second_free() {
    let s = atomic_claim_free_scenario();
    for order in [vec![0, 1], vec![1, 0]] {
        let report = run(&s, &order);
        let freed = report
            .trace
            .iter()
            .filter(|e| e.outcome == OpOutcome::Freed)
            .count();
        let suppressed = report
            .trace
            .iter()
            .filter(|e| e.outcome == OpOutcome::FreeSuppressed)
            .count();
        assert_eq!(freed, 1, "exactly one free must succeed");
        assert_eq!(suppressed, 1, "the other free must be suppressed");
        assert!(!report.manifested.double_free);
        assert_eq!(report.verdict, Verdict::Fail(HazardClass::DoubleFree));
    }
}

#[test]
fn parts_split_reconstruction_double_frees() {
    let s = parts_split_scenario();
    let report = run(&s, &Vec::new());
    assert_eq!(report.trace.len(), 3);
    assert_eq!(report.trace[0].outcome, OpOutcome::Forgotten);
    assert_eq!(report.trace[1].outcome, OpOutcome::Freed);
    assert_eq!(
        report.trace[2].outcome,
        OpOutcome::Faulted(ModelError::DoubleFreeError)
    );
    assert!(report.manifested.double_free);
    assert!(report.leaked);
    assert!(!report.manifested.dangling_reference);
    assert_eq!(report.verdict, Verdict::Pass);
}

#[test]
fn escaped_scope_access_is_a_lifetime_escape() {
    let s = escaped_scope_scenario();
    let report = run(&s, &Vec::new());
    assert!(report.manifested.lifetime_escape);
    assert!(report.owner_scope_closed);
    assert_eq!(report.verdict, Verdict::Pass);
}

#[test]
fn timestamps_count_executed_operations() {
    let s = parts_split_scenario();
    let report = run(&s, &Vec::new());
    for (i, e) in report.trace.iter().enumerate() {
        assert_eq!(e.timestamp, i as u64);
    }
}

#[test]
fn trace_records_task_identities_and_operations() {
    let s = use_after_free_scenario();
    let report = run(&s, &Vec::new());
    assert_eq!(report.trace[0].task, 1);
    assert_eq!(report.trace[0].operation, Operation::DropOwner);
    assert_eq!(report.trace[1].task, 2);
    assert_eq!(report.trace[1].operation, Operation::Read);
}

#[test]
fn leaked_static_resource_survives_its_owning_scope() {
    let resource = Resource::allocate(1, ResourceKind::HeapBox, 11, Owner::ProcessLifetime);
    let primitive = SharingPrimitive::expose(
        1,
        &resource,
        SharingKind::LeakedStaticRef,
        Mutability::ReadOnly,
        Synchronization::NoSync,
    );
    let tasks = vec![TaskDescriptor {
        id: 1,
        operations: vec![Operation::DropOwner, Operation::Read],
        operates_on: 1,
    }];
    let s = Scenario::new(
        resource,
        primitive,
        tasks,
        HazardClass::DanglingReference,
        SchedulingPolicy::DeterministicInterleave(vec![0, 0]),
    )
    .expect("references line up");
    let report = run(&s, &Vec::new());
    assert_eq!(report.trace[0].outcome, OpOutcome::ScopeClosed);
    assert_eq!(report.trace[1].outcome, OpOutcome::ValueRead(11));
    assert!(report.leaked);
    assert!(!report.final_resource.freed);
    assert!(!report.manifested.dangling_reference);
    assert!(!report.manifested.use_after_free);
    assert_eq!(report.verdict, Verdict::Fail(HazardClass::DanglingReference));
}

#[test]
fn torn_observation_is_classified_from_the_trace() {
    let s = counter_scenario(1);
    let fin = RunState {
        resource: s.resource,
        claim_taken: false,
        owner_scope_closed: false,
        leaked: false,
        pcs: vec![1, 1],
        last_reads: vec![0, 0],
    };
    let write = TraceEvent {
        task: 1,
        operation: Operation::Write(WriteSource::Literal(7)),
        timestamp: 0,
        outcome: OpOutcome::Written(7),
    };
    let torn_read = TraceEvent {
        task: 2,
        operation: Operation::Read,
        timestamp: 1,
        outcome: OpOutcome::ValueRead(3),
    };
    let sound_read = TraceEvent { outcome: OpOutcome::ValueRead(7), ..torn_read };
    let torn = classify(&s, &vec![write, torn_read], &fin);
    assert!(torn.torn_write, "a read of a value nobody wrote is torn");
    let sound = classify(&s, &vec![write, sound_read], &fin);
    assert!(!sound.torn_write, "a read of the written value is not torn");
}

#[test]
fn budget_below_operation_count_times_out() {
    let s = counter_scenario(10);
    let r = run_with_budget(&s, &Vec::new(), 39);
    assert_eq!(r.err(), Some(ModelError::RunTimeout));
}

#[test]
fn budget_at_operation_count_runs_to_completion() {
    let s = counter_scenario(10);
    let r = run_with_budget(&s, &Vec::new(), 40).expect("forty operations fit a budget of forty");
    assert_eq!(r.final_resource.payload, 20);
    assert_eq!(r.trace.len(), 40);
}
