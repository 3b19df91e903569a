//! The catalog: builders for the recurring hazard patterns, each a
//! parameterized scenario with a hand-authored hazard label. A builder
//! collapses a family of near-duplicate constructions into one record.

use vstd::prelude::*;
use crate::resource::{Owner, Resource, ResourceKind};
use crate::scenario::{HazardClass, Scenario, SchedulingPolicy};
use crate::sharing::{Mutability, SharingKind, SharingPrimitive, Synchronization};
use crate::task::{Operation, TaskDescriptor, WriteSource};

verus! {

/// The operation sequence of one counter task: `n` non-atomic increments,
/// each a read followed by a write of the value last read plus one.
pub open spec fn counter_ops(n: nat) -> Seq<Operation> {
    Seq::new(
        2 * n,
        |i: int|
            if i % 2 == 0 {
                Operation::Read
            } else {
                Operation::Write(WriteSource::LastReadPlus(1))
            },
    )
}

/// Builds the operations of one counter task.
fn build_counter_ops(increments: usize) -> (r: Vec<Operation>)
    ensures
        r@ == counter_ops(increments as nat),
{
    let mut ops: Vec<Operation> = Vec::new();
    let mut k: usize = 0;
    while k < increments
        invariant
            0 <= k <= increments,
            ops@ == counter_ops(k as nat),
        decreases increments - k,
    {
        ops.push(Operation::Read);
        ops.push(Operation::Write(WriteSource::LastReadPlus(1)));
        proof {
            assert(ops@ =~= counter_ops((k + 1) as nat));
        }
        k = k + 1;
    }
    ops
}

/// Two tasks each increment one shared non-atomic counter `increments`
/// times, through a raw pointer capture with no synchronization, under the
/// parallel policy; declared hazard: a data race. The shared counter starts
/// at zero.
pub fn counter_scenario(increments: usize) -> (s: Scenario)
    ensures
        s.well_formed(),
        s.resource == (Resource {
            id: 1,
            kind: ResourceKind::StackValue,
            payload: 0,
            owner: Owner::Scope(0),
            freed: false,
        }),
        s.primitive == (SharingPrimitive {
            id: 1,
            kind: SharingKind::RawPointerCapture,
            target: 1,
            mutability: Mutability::ReadWrite,
            synchronization: Synchronization::NoSync,
        }),
        s.tasks@.len() == 2,
        s.tasks@[0].id == 1 && s.tasks@[0].operates_on == 1,
        s.tasks@[1].id == 2 && s.tasks@[1].operates_on == 1,
        s.tasks@[0].operations@ == counter_ops(increments as nat),
        s.tasks@[1].operations@ == counter_ops(increments as nat),
        s.declared_hazard == HazardClass::DataRace,
        s.policy matches SchedulingPolicy::Parallel,
{
    let resource = Resource {
        id: 1,
        kind: ResourceKind::StackValue,
        payload: 0,
        owner: Owner::Scope(0),
        freed: false,
    };
    let primitive = SharingPrimitive {
        id: 1,
        kind: SharingKind::RawPointerCapture,
        target: 1,
        mutability: Mutability::ReadWrite,
        synchronization: Synchronization::NoSync,
    };
    let mut tasks: Vec<TaskDescriptor> = Vec::new();
    tasks.push(TaskDescriptor { id: 1, operations: build_counter_ops(increments), operates_on: 1 });
    tasks.push(TaskDescriptor { id: 2, operations: build_counter_ops(increments), operates_on: 1 });
    let s = Scenario {
        resource,
        primitive,
        tasks,
        declared_hazard: HazardClass::DataRace,
        policy: SchedulingPolicy::Parallel,
    };
    proof {
        assert(s.policy.interleave() =~= Seq::<usize>::empty());
        assert(s.well_formed());
    }
    s
}

/// Builds a two-task scenario in which each task performs one fixed
/// operation sequence against one shared resource.
fn two_task_scenario(
    resource: Resource,
    primitive: SharingPrimitive,
    ops_a: Vec<Operation>,
    ops_b: Vec<Operation>,
    declared_hazard: HazardClass,
    policy: SchedulingPolicy,
) -> (s: Scenario)
    requires
        primitive.target == resource.id,
        (policy matches SchedulingPolicy::DeterministicInterleave(order) ==> forall|k: int|
            0 <= k < order@.len() ==> #[trigger] order@[k] < 2),
    ensures
        s.well_formed(),
        s.resource == resource,
        s.primitive == primitive,
        s.tasks@.len() == 2,
        s.tasks@[0].id == 1 && s.tasks@[0].operates_on == primitive.id,
        s.tasks@[1].id == 2 && s.tasks@[1].operates_on == primitive.id,
        s.tasks@[0].operations@ == ops_a@,
        s.tasks@[1].operations@ == ops_b@,
        s.declared_hazard == declared_hazard,
        s.policy == policy,
{
    let mut tasks: Vec<TaskDescriptor> = Vec::new();
    tasks.push(TaskDescriptor { id: 1, operations: ops_a, operates_on: primitive.id });
    tasks.push(TaskDescriptor { id: 2, operations: ops_b, operates_on: primitive.id });
    let s = Scenario { resource, primitive, tasks, declared_hazard, policy };
    proof {
        match &s.policy {
            SchedulingPolicy::Parallel => {
                assert(s.policy.interleave() =~= Seq::<usize>::empty());
            },
            SchedulingPolicy::DeterministicInterleave(order) => {
                assert(s.policy.interleave() =~= order@);
            },
        }
        assert(s.well_formed());
    }
    s
}

/// Two tasks race to free one heap resource guarded by one atomic claim
/// flag: each task's single `Free` first takes the claim, so exactly one
/// release reaches the resource and the other is suppressed. Declared
/// hazard: a double free, which a correct guard never lets manifest.
pub fn atomic_claim_free_scenario() -> (s: Scenario)
    ensures
        s.well_formed(),
        s.primitive.synchronization == Synchronization::AtomicFlag,
        s.resource.freed == false,
        s.tasks@.len() == 2,
        s.tasks@[0].operations@ == seq![Operation::Free],
        s.tasks@[1].operations@ == seq![Operation::Free],
        s.declared_hazard == HazardClass::DoubleFree,
        s.policy matches SchedulingPolicy::Parallel,
{
    let resource = Resource {
        id: 1,
        kind: ResourceKind::HeapBox,
        payload: 7,
        owner: Owner::Scope(0),
        freed: false,
    };
    let primitive = SharingPrimitive {
        id: 1,
        kind: SharingKind::RawPointerCapture,
        target: 1,
        mutability: Mutability::ReadWrite,
        synchronization: Synchronization::AtomicFlag,
    };
    let mut ops_a: Vec<Operation> = Vec::new();
    ops_a.push(Operation::Free);
    let mut ops_b: Vec<Operation> = Vec::new();
    ops_b.push(Operation::Free);
    proof {
        assert(ops_a@ =~= seq![Operation::Free]);
        assert(ops_b@ =~= seq![Operation::Free]);
    }
    two_task_scenario(
        resource,
        primitive,
        ops_a,
        ops_b,
        HazardClass::DoubleFree,
        SchedulingPolicy::Parallel,
    )
}

/// Two tasks free one raw buffer with no synchronization at all: the second
/// release faults. Declared hazard: a double free.
pub fn unguarded_double_free_scenario() -> (s: Scenario)
    ensures
        s.well_formed(),
        s.primitive.synchronization == Synchronization::NoSync,
        s.resource.freed == false,
        s.tasks@.len() == 2,
        s.tasks@[0].operations@ == seq![Operation::Free],
        s.tasks@[1].operations@ == seq![Operation::Free],
        s.declared_hazard == HazardClass::DoubleFree,
        s.policy matches SchedulingPolicy::Parallel,
{
    let resource = Resource {
        id: 1,
        kind: ResourceKind::RawBuffer,
        payload: 0,
        owner: Owner::Scope(0),
        freed: false,
    };
    let primitive = SharingPrimitive {
        id: 1,
        kind: SharingKind::RawPointerCapture,
        target: 1,
        mutability: Mutability::ReadWrite,
        synchronization: Synchronization::NoSync,
    };
    let mut ops_a: Vec<Operation> = Vec::new();
    ops_a.push(Operation::Free);
    let mut ops_b: Vec<Operation> = Vec::new();
    ops_b.push(Operation::Free);
    proof {
        assert(ops_a@ =~= seq![Operation::Free]);
        assert(ops_b@ =~= seq![Operation::Free]);
    }
    two_task_scenario(
        resource,
        primitive,
        ops_a,
        ops_b,
        HazardClass::DoubleFree,
        SchedulingPolicy::Parallel,
    )
}

/// The owner drops a boxed value while another task still reads it through
/// an escaped pointer; the declared interleaving puts the drop first, so the
/// read faults. Declared hazard: a use after free.
pub fn use_after_free_scenario() -> (s: Scenario)
    ensures
        s.well_formed(),
        s.resource.payload == 1989,
        s.resource.freed == false,
        s.primitive.kind == SharingKind::RawPointerCapture,
        s.tasks@.len() == 2,
        s.tasks@[0].operations@ == seq![Operation::DropOwner],
        s.tasks@[1].operations@ == seq![Operation::Read],
        s.declared_hazard == HazardClass::UseAfterFree,
        s.policy matches SchedulingPolicy::DeterministicInterleave(order) && order@ == seq![
            0usize,
            1usize,
        ],
{
    let resource = Resource {
        id: 1,
        kind: ResourceKind::HeapBox,
        payload: 1989,
        owner: Owner::Scope(0),
        freed: false,
    };
    let primitive = SharingPrimitive {
        id: 1,
        kind: SharingKind::RawPointerCapture,
        target: 1,
        mutability: Mutability::ReadOnly,
        synchronization: Synchronization::NoSync,
    };
    let mut ops_a: Vec<Operation> = Vec::new();
    ops_a.push(Operation::DropOwner);
    let mut ops_b: Vec<Operation> = Vec::new();
    ops_b.push(Operation::Read);
    let mut order: Vec<usize> = Vec::new();
    order.push(0);
    order.push(1);
    proof {
        assert(ops_a@ =~= seq![Operation::DropOwner]);
        assert(ops_b@ =~= seq![Operation::Read]);
        assert(order@ =~= seq![0usize, 1usize]);
    }
    two_task_scenario(
        resource,
        primitive,
        ops_a,
        ops_b,
        HazardClass::UseAfterFree,
        SchedulingPolicy::DeterministicInterleave(order),
    )
}

/// A collection is decomposed into raw parts that two holders each
/// reconstitute into an owning handle: the original owner forgets the
/// collection, then both holders release it, and the second release faults.
/// Declared hazard: a double free.
pub fn parts_split_scenario() -> (s: Scenario)
    ensures
        s.well_formed(),
        s.resource.kind == ResourceKind::Collection,
        s.resource.freed == false,
        s.primitive.kind == SharingKind::ManualPartsSplit,
        s.tasks@.len() == 2,
        s.tasks@[0].operations@ == seq![Operation::Forget, Operation::Free],
        s.tasks@[1].operations@ == seq![Operation::Free],
        s.declared_hazard == HazardClass::DoubleFree,
        s.policy matches SchedulingPolicy::DeterministicInterleave(order) && order@ == seq![
            0usize,
            0usize,
            1usize,
        ],
{
    let resource = Resource {
        id: 1,
        kind: ResourceKind::Collection,
        payload: 5,
        owner: Owner::Scope(0),
        freed: false,
    };
    let primitive = SharingPrimitive {
        id: 1,
        kind: SharingKind::ManualPartsSplit,
        target: 1,
        mutability: Mutability::ReadWrite,
        synchronization: Synchronization::NoSync,
    };
    let mut ops_a: Vec<Operation> = Vec::new();
    ops_a.push(Operation::Forget);
    ops_a.push(Operation::Free);
    let mut ops_b: Vec<Operation> = Vec::new();
    ops_b.push(Operation::Free);
    let mut order: Vec<usize> = Vec::new();
    order.push(0);
    order.push(0);
    order.push(1);
    proof {
        assert(ops_a@ =~= seq![Operation::Forget, Operation::Free]);
        assert(ops_b@ =~= seq![Operation::Free]);
        assert(order@ =~= seq![0usize, 0usize, 1usize]);
    }
    two_task_scenario(
        resource,
        primitive,
        ops_a,
        ops_b,
        HazardClass::DoubleFree,
        SchedulingPolicy::DeterministicInterleave(order),
    )
}

/// A handle escapes the scope that owns the allocation: the owner's scope
/// closes, and another task still exercises the escaped alias afterwards.
/// Declared hazard: a lifetime escape.
pub fn escaped_scope_scenario() -> (s: Scenario)
    ensures
        s.well_formed(),
        s.resource.freed == false,
        s.tasks@.len() == 2,
        s.tasks@[0].operations@ == seq![Operation::DropOwner],
        s.tasks@[1].operations@ == seq![Operation::Read],
        s.declared_hazard == HazardClass::LifetimeEscape,
        s.policy matches SchedulingPolicy::DeterministicInterleave(order) && order@ == seq![
            0usize,
            1usize,
        ],
{
    let resource = Resource {
        id: 1,
        kind: ResourceKind::HeapBox,
        payload: 75,
        owner: Owner::Scope(0),
        freed: false,
    };
    let primitive = SharingPrimitive {
        id: 1,
        kind: SharingKind::RawPointerCapture,
        target: 1,
        mutability: Mutability::ReadOnly,
        synchronization: Synchronization::NoSync,
    };
    let mut ops_a: Vec<Operation> = Vec::new();
    ops_a.push(Operation::DropOwner);
    let mut ops_b: Vec<Operation> = Vec::new();
    ops_b.push(Operation::Read);
    let mut order: Vec<usize> = Vec::new();
    order.push(0);
    order.push(1);
    proof {
        assert(ops_a@ =~= seq![Operation::DropOwner]);
        assert(ops_b@ =~= seq![Operation::Read]);
        assert(order@ =~= seq![0usize, 1usize]);
    }
    two_task_scenario(
        resource,
        primitive,
        ops_a,
        ops_b,
        HazardClass::LifetimeEscape,
        SchedulingPolicy::DeterministicInterleave(order),
    )
}

} // verus!
