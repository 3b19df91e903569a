//! The resource model: a typed description of one allocation together with
//! its ownership and lifetime state. The primitive operations are
//! deliberately unchecked against concurrent misuse; a misuse is reported as
//! an error value, never as a panic, so that a run can record it.

use vstd::prelude::*;

verus! {

/// The ways an allocation in a catalogued scenario comes into being.
#[derive(Clone, Copy, PartialEq, Eq, Structural, Debug)]
pub enum ResourceKind {
    StackValue,
    HeapBox,
    RefCounted,
    RawBuffer,
    Collection,
}

/// Who currently owns a resource. `ProcessLifetime` marks an allocation
/// that is intentionally never reclaimed; `Released` marks one whose owner
/// has given it up.
#[derive(Clone, Copy, PartialEq, Eq, Structural, Debug)]
pub enum Owner {
    Scope(u64),
    ProcessLifetime,
    Released,
}

/// The error taxonomy of the model. The two access errors are captured into
/// an execution trace during a run; `InvalidScenario` rejects a malformed
/// scenario before any run starts; `RunTimeout` aborts a run whose step
/// budget is exceeded.
#[derive(Clone, Copy, PartialEq, Eq, Structural, Debug)]
pub enum ModelError {
    DoubleFreeError,
    UseAfterFreeError,
    RunTimeout,
    InvalidScenario,
}

/// One allocation. `freed` transitions false to true exactly once under
/// correct semantics; a second transition is the double-free hazard.
#[derive(Clone, Copy, PartialEq, Eq, Structural, Debug)]
pub struct Resource {
    pub id: u64,
    pub kind: ResourceKind,
    pub payload: u64,
    pub owner: Owner,
    pub freed: bool,
}

impl Resource {
    /// Creates a live resource with the given identity, kind, payload and owner.
    pub fn allocate(id: u64, kind: ResourceKind, payload: u64, owner: Owner) -> (r: Resource)
        ensures
            r == (Resource { id, kind, payload, owner, freed: false }),
    {
        Resource { id, kind, payload, owner, freed: false }
    }

    /// Hands the resource to a new owner; nothing else changes.
    pub fn transfer_ownership(&mut self, new_owner: Owner)
        ensures
            *final(self) == (Resource { owner: new_owner, ..*old(self) }),
    {
        self.owner = new_owner;
    }

    /// Releases the resource. Fails with `DoubleFreeError`, leaving the
    /// resource unchanged, exactly when it was already freed.
    pub fn free(&mut self) -> (r: Result<(), ModelError>)
        ensures
            old(self).freed ==> r == Err::<(), ModelError>(ModelError::DoubleFreeError)
                && *final(self) == *old(self),
            !old(self).freed ==> r == Ok::<(), ModelError>(())
                && *final(self) == (Resource { freed: true, ..*old(self) }),
    {
        if self.freed {
            Err(ModelError::DoubleFreeError)
        } else {
            self.freed = true;
            Ok(())
        }
    }

    /// Reads the payload. Fails with `UseAfterFreeError` exactly when the
    /// resource was already freed.
    pub fn read(&self) -> (r: Result<u64, ModelError>)
        ensures
            self.freed ==> r == Err::<u64, ModelError>(ModelError::UseAfterFreeError),
            !self.freed ==> r == Ok::<u64, ModelError>(self.payload),
    {
        if self.freed {
            Err(ModelError::UseAfterFreeError)
        } else {
            Ok(self.payload)
        }
    }

    /// Replaces the payload. Fails with `UseAfterFreeError`, leaving the
    /// resource unchanged, exactly when it was already freed.
    pub fn write(&mut self, payload: u64) -> (r: Result<(), ModelError>)
        ensures
            old(self).freed ==> r == Err::<(), ModelError>(ModelError::UseAfterFreeError)
                && *final(self) == *old(self),
            !old(self).freed ==> r == Ok::<(), ModelError>(())
                && *final(self) == (Resource { payload, ..*old(self) }),
    {
        if self.freed {
            Err(ModelError::UseAfterFreeError)
        } else {
            self.payload = payload;
            Ok(())
        }
    }
}

} // verus!
