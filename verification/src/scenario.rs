//! A scenario is one catalog entry: a resource, the sharing primitive that
//! exposes it, a set of tasks, a declared hazard class, and a scheduling
//! policy. A scenario is immutable once constructed; construction rejects a
//! malformed one with `InvalidScenario` before any run starts.

use vstd::prelude::*;
use crate::resource::{ModelError, Resource};
use crate::sharing::SharingPrimitive;
use crate::task::TaskDescriptor;

verus! {

/// The hazard classes a scenario can declare and a run can exhibit.
#[derive(Clone, Copy, PartialEq, Eq, Structural, Debug)]
pub enum HazardClass {
    DataRace,
    UseAfterFree,
    DoubleFree,
    DanglingReference,
    TornWrite,
    LifetimeEscape,
}

/// How the tasks are scheduled. `Parallel` gives no ordering between tasks:
/// the order of arrival is injected from outside the model at run time.
/// `DeterministicInterleave` carries the exact total order to replay, as a
/// sequence of task indices; at each step the named task performs its next
/// operation.
#[derive(Debug)]
pub enum SchedulingPolicy {
    Parallel,
    DeterministicInterleave(Vec<usize>),
}

impl SchedulingPolicy {
    /// The interleaving a policy carries: the declared total order under
    /// `DeterministicInterleave`, and the empty order under `Parallel`,
    /// whose order is injected from outside the model.
    pub open spec fn interleave(self) -> Seq<usize> {
        match self {
            SchedulingPolicy::Parallel => Seq::empty(),
            SchedulingPolicy::DeterministicInterleave(order) => order@,
        }
    }
}

/// One catalog entry.
#[derive(Debug)]
pub struct Scenario {
    pub resource: Resource,
    pub primitive: SharingPrimitive,
    pub tasks: Vec<TaskDescriptor>,
    pub declared_hazard: HazardClass,
    pub policy: SchedulingPolicy,
}

impl Scenario {
    /// A scenario is well formed when its references line up: the primitive
    /// targets the scenario's resource, every task operates on the
    /// scenario's primitive, task identities are distinct, and a declared
    /// interleaving only names existing tasks.
    pub open spec fn well_formed(self) -> bool {
        &&& self.primitive.target == self.resource.id
        &&& forall|i: int|
            0 <= i < self.tasks@.len() ==> (#[trigger] self.tasks@[i]).operates_on
                == self.primitive.id
        &&& forall|i: int, j: int|
            0 <= i < j < self.tasks@.len() ==> (#[trigger] self.tasks@[i]).id
                != (#[trigger] self.tasks@[j]).id
        &&& forall|k: int|
            0 <= k < self.policy.interleave().len() ==> #[trigger] self.policy.interleave()[k]
                < self.tasks@.len()
    }

    /// Builds a scenario, rejecting a malformed one. Returns the scenario
    /// assembled from the arguments exactly when it is well formed, and
    /// `InvalidScenario` otherwise.
    pub fn new(
        resource: Resource,
        primitive: SharingPrimitive,
        tasks: Vec<TaskDescriptor>,
        declared_hazard: HazardClass,
        policy: SchedulingPolicy,
    ) -> (r: Result<Scenario, ModelError>)
        ensures
            ({
                let c = Scenario { resource, primitive, tasks, declared_hazard, policy };
                if c.well_formed() {
                    r == Ok::<Scenario, ModelError>(c)
                } else {
                    r == Err::<Scenario, ModelError>(ModelError::InvalidScenario)
                }
            }),
    {
        let c = Scenario { resource, primitive, tasks, declared_hazard, policy };
        if c.is_well_formed() {
            Ok(c)
        } else {
            Err(ModelError::InvalidScenario)
        }
    }

    /// Decides well-formedness.
    pub fn is_well_formed(&self) -> (r: bool)
        ensures
            r == self.well_formed(),
    {
        if self.primitive.target != self.resource.id {
            return false;
        }
        let n: usize = self.tasks.len();
        let mut i: usize = 0;
        while i < n
            invariant
                n == self.tasks@.len(),
                0 <= i <= n,
                forall|a: int|
                    0 <= a < i ==> (#[trigger] self.tasks@[a]).operates_on == self.primitive.id,
            decreases n - i,
        {
            if self.tasks[i].operates_on != self.primitive.id {
                return false;
            }
            i = i + 1;
        }
        let mut a: usize = 0;
        while a < n
            invariant
                n == self.tasks@.len(),
                0 <= a <= n,
                forall|x: int, y: int|
                    0 <= x < y < n && x < a ==> (#[trigger] self.tasks@[x]).id != (
                    #[trigger] self.tasks@[y]).id,
            decreases n - a,
        {
            let mut b: usize = a + 1;
            while b < n
                invariant
                    n == self.tasks@.len(),
                    0 <= a < b <= n,
                    forall|x: int, y: int|
                        0 <= x < y < n && x < a ==> (#[trigger] self.tasks@[x]).id != (
                        #[trigger] self.tasks@[y]).id,
                    forall|y: int|
                        a < y < b ==> (#[trigger] self.tasks@[y]).id != self.tasks@[a as int].id,
                decreases n - b,
            {
                if self.tasks[b].id == self.tasks[a].id {
                    return false;
                }
                b = b + 1;
            }
            a = a + 1;
        }
        match &self.policy {
            SchedulingPolicy::Parallel => true,
            SchedulingPolicy::DeterministicInterleave(order) => {
                let m: usize = order.len();
                let mut k: usize = 0;
                while k < m
                    invariant
                        self.policy == SchedulingPolicy::DeterministicInterleave(*order),
                        n == self.tasks@.len(),
                        m == order@.len(),
                        0 <= k <= m,
                        forall|x: int| 0 <= x < k ==> #[trigger] order@[x] < n,
                    decreases m - k,
                {
                    if order[k] >= n {
                        proof {
                            assert(self.policy.interleave() == order@);
                            assert(!(self.policy.interleave()[k as int] < self.tasks@.len()));
                        }
                        return false;
                    }
                    k = k + 1;
                }
                proof {
                    assert(self.policy.interleave() == order@);
                }
                true
            },
        }
    }
}

} // verus!
