//! Task descriptors: an ordered sequence of operations that one concurrent
//! task performs against the shared resource through a sharing primitive.

use vstd::prelude::*;

verus! {

/// Where a written value comes from. `Literal` writes a fixed payload;
/// `LastReadPlus` writes the value the task last read plus an addend
/// (wrapping), which is the non-atomic read-modify-write shape whose lost
/// updates make a counter race observable. A task that has not read yet has
/// a last-read value of zero.
#[derive(Clone, Copy, PartialEq, Eq, Structural, Debug)]
pub enum WriteSource {
    Literal(u64),
    LastReadPlus(u64),
}

/// One operation of a task. `Free` releases the resource through the
/// primitive; `Forget` relinquishes ownership without releasing, so the
/// allocation leaks; `DropOwner` closes the owning scope, which releases the
/// resource unless it leaked; `Swap` replaces the payload and observes the
/// displaced value.
#[derive(Clone, Copy, PartialEq, Eq, Structural, Debug)]
pub enum Operation {
    Read,
    Write(WriteSource),
    Free,
    Forget,
    DropOwner,
    Swap(u64),
}

/// One concurrent task: its identity, its ordered operations, and the
/// sharing primitive it operates on.
#[derive(Debug)]
pub struct TaskDescriptor {
    pub id: u64,
    pub operations: Vec<Operation>,
    pub operates_on: u64,
}

} // verus!
