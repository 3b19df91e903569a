//! Execution traces and run state. A trace is the ordered-by-arrival record
//! of every executed operation, stamped with a logical clock; the run state
//! is the one mutable object the tasks touch, threaded step by step through
//! a run.

use vstd::prelude::*;
use crate::resource::{ModelError, Resource};
use crate::task::Operation;

verus! {

/// What one executed operation observed: a value, an effect, or a captured
/// access error. A hazard manifesting is an expected, recorded outcome,
/// never a process fault.
#[derive(Clone, Copy, PartialEq, Eq, Structural, Debug)]
pub enum OpOutcome {
    ValueRead(u64),
    Written(u64),
    Swapped(u64),
    Freed,
    FreeSuppressed,
    Forgotten,
    ScopeClosed,
    Faulted(ModelError),
}

/// One entry of an execution trace. The timestamp is a logical clock: the
/// number of operations executed before this one.
#[derive(Clone, Copy, PartialEq, Eq, Structural, Debug)]
pub struct TraceEvent {
    pub task: u64,
    pub operation: Operation,
    pub timestamp: u64,
    pub outcome: OpOutcome,
}

/// The mathematical model of a run's state: the resource, the claim of the
/// atomic-flag guard, whether the owning scope has closed, whether the
/// allocation leaked, each task's next operation index, and each task's
/// last-read value.
#[verifier::ext_equal]
pub struct StateModel {
    pub resource: Resource,
    pub claim_taken: bool,
    pub owner_scope_closed: bool,
    pub leaked: bool,
    pub pcs: Seq<usize>,
    pub last_reads: Seq<u64>,
}

/// The executable run state; `model` is its mathematical view.
#[derive(Debug)]
pub struct RunState {
    pub resource: Resource,
    pub claim_taken: bool,
    pub owner_scope_closed: bool,
    pub leaked: bool,
    pub pcs: Vec<usize>,
    pub last_reads: Vec<u64>,
}

impl RunState {
    pub open spec fn model(self) -> StateModel {
        StateModel {
            resource: self.resource,
            claim_taken: self.claim_taken,
            owner_scope_closed: self.owner_scope_closed,
            leaked: self.leaked,
            pcs: self.pcs@,
            last_reads: self.last_reads@,
        }
    }
}

} // verus!
