use hazard_model::patterns::{FatSendable, Wrapper};
use hazard_model::resource::{ModelError, Owner, Resource, ResourceKind};
use hazard_model::scenario::{HazardClass, Scenario, SchedulingPolicy};
use hazard_model::sharing::{Mutability, SharingKind, SharingPrimitive, Synchronization};
use hazard_model::task::{Operation, TaskDescriptor};

fn sample_resource() -> Resource {
    Resource::allocate(7, ResourceKind::HeapBox, 42, Owner::Scope(1))
}

#[test]
fn allocate_starts_live() {
    let r = sample_resource();
    assert_eq!(r.id, 7);
    assert_eq!(r.kind, ResourceKind::HeapBox);
    assert_eq!(r.payload, 42);
    assert_eq!(r.owner, Owner::Scope(1));
    assert!(!r.freed);
}

#[test]
fn free_transitions_once_and_only_once() {
    let mut r = sample_resource();
    assert_eq!(r.free(), Ok(()));
    assert!(r.freed);
    assert_eq!(r.free(), Err(ModelError::DoubleFreeError));
    assert!(r.freed);
}

#[test]
fn read_and_write_fault_after_free() {
    let mut r = sample_resource();
    assert_eq!(r.read(), Ok(42));
    assert_eq!(r.write(5), Ok(()));
    assert_eq!(r.read(), Ok(5));
    r.free().unwrap();
    assert_eq!(r.read(), Err(ModelError::UseAfterFreeError));
    assert_eq!(r.write(9), Err(ModelError::UseAfterFreeError));
    assert_eq!(r.payload, 5);
}

#[test]
fn transfer_ownership_changes_only_the_owner() {
    let mut r = sample_resource();
    r.transfer_ownership(Owner::ProcessLifetime);
    assert_eq!(r.owner, Owner::ProcessLifetime);
    assert_eq!(r.payload, 42);
    assert!(!r.freed);
}

#[test]
fn expose_records_the_target_and_resolve_returns_it() {
    let r = sample_resource();
    let p = SharingPrimitive::expose(
        3,
        &r,
        SharingKind::AtomicIndirection,
        Mutability::ReadWrite,
        Synchronization::AtomicFlag,
    );
    assert_eq!(p.id, 3);
    assert_eq!(p.target, 7);
    assert_eq!(p.kind, SharingKind::AtomicIndirection);
    assert_eq!(p.resolve(), 7);
}

fn sample_parts(
    target: u64,
    operates_on: u64,
) -> (Resource, SharingPrimitive, Vec<TaskDescriptor>) {
    let r = sample_resource();
    let p = SharingPrimitive {
        id: 3,
        kind: SharingKind::RawPointerCapture,
        target,
        mutability: Mutability::ReadWrite,
        synchronization: Synchronization::NoSync,
    };
    let tasks = vec![
        TaskDescriptor { id: 1, operations: vec![Operation::Read], operates_on },
        TaskDescriptor { id: 2, operations: vec![Operation::Free], operates_on },
    ];
    (r, p, tasks)
}

#[test]
fn scenario_construction_accepts_well_formed_references() {
    let (r, p, tasks) = sample_parts(7, 3);
    let s = Scenario::new(r, p, tasks, HazardClass::UseAfterFree, SchedulingPolicy::Parallel)
        .expect("references line up");
    assert_eq!(s.declared_hazard, HazardClass::UseAfterFree);
    assert_eq!(s.tasks.len(), 2);
}

#[test]
fn scenario_construction_rejects_dangling_resource_reference() {
    let (r, p, tasks) = sample_parts(8, 3);
    let s = Scenario::new(r, p, tasks, HazardClass::UseAfterFree, SchedulingPolicy::Parallel);
    assert!(matches!(s, Err(ModelError::InvalidScenario)));
}

#[test]
fn scenario_construction_rejects_unknown_primitive_reference() {
    let (r, p, tasks) = sample_parts(7, 4);
    let s = Scenario::new(r, p, tasks, HazardClass::UseAfterFree, SchedulingPolicy::Parallel);
    assert!(matches!(s, Err(ModelError::InvalidScenario)));
}

#[test]
fn scenario_construction_rejects_duplicate_task_identities() {
    let (r, p, mut tasks) = sample_parts(7, 3);
    tasks[1].id = 1;
    let s = Scenario::new(r, p, tasks, HazardClass::UseAfterFree, SchedulingPolicy::Parallel);
    assert!(matches!(s, Err(ModelError::InvalidScenario)));
}

#[test]
fn scenario_construction_rejects_interleaving_of_unknown_tasks() {
    let (r, p, tasks) = sample_parts(7, 3);
    let s = Scenario::new(
        r,
        p,
        tasks,
        HazardClass::UseAfterFree,
        SchedulingPolicy::DeterministicInterleave(vec![0, 2]),
    );
    assert!(matches!(s, Err(ModelError::InvalidScenario)));
}

#[test]
fn scenario_construction_accepts_in_range_interleaving() {
    let (r, p, tasks) = sample_parts(7, 3);
    let s = Scenario::new(
        r,
        p,
        tasks,
        HazardClass::UseAfterFree,
        SchedulingPolicy::DeterministicInterleave(vec![1, 0, 1]),
    );
    assert!(s.is_ok());
}

#[test]
fn fat_sendable_starts_zeroed_and_keeps_writes() {
    let mut buffer = FatSendable::new(10);
    assert_eq!(buffer.len(), 10);
    for i in 0..10 {
        assert_eq!(buffer.read(i), 0);
    }
    for i in 0..10 {
        buffer.write(i, i as i32 * 100);
    }
    for i in 0..10 {
        assert_eq!(buffer.read(i), i as i32 * 100);
    }
}

#[test]
fn wrapper_hands_back_what_it_was_given() {
    let wrapper = Wrapper::new(vec![1, 2, 3, 4, 5]);
    assert_eq!(wrapper.get(), &vec![1, 2, 3, 4, 5]);
    let nested = Wrapper::new(String::from("the secret box"));
    assert_eq!(nested.get(), "the secret box");
}
