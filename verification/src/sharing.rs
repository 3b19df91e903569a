//! The sharing primitive model: how a resource's handle is exposed to
//! several concurrent tasks outside normal ownership rules. The absence of
//! synchronization is a declared, inspectable property of the primitive.

use vstd::prelude::*;
use crate::resource::Resource;

verus! {

/// The mechanism by which a handle escapes the owner.
#[derive(Clone, Copy, PartialEq, Eq, Structural, Debug)]
pub enum SharingKind {
    RawPointerCapture,
    AtomicIndirection,
    LeakedStaticRef,
    ManualPartsSplit,
}

/// Whether holders of the primitive may mutate the resource.
#[derive(Clone, Copy, PartialEq, Eq, Structural, Debug)]
pub enum Mutability {
    ReadOnly,
    ReadWrite,
}

/// What serializes the holders, if anything. `NoSync` together with
/// read-write mutability and two or more holders is the data-race shape.
/// `AtomicFlag` guards every releasing action behind one atomic claim.
#[derive(Clone, Copy, PartialEq, Eq, Structural, Debug)]
pub enum Synchronization {
    NoSync,
    AtomicFlag,
    ClaimedExclusive,
}

/// One exposure of a resource: a capability record stating how the handle
/// escaped, what it may do, and what synchronizes it.
#[derive(Clone, Copy, PartialEq, Eq, Structural, Debug)]
pub struct SharingPrimitive {
    pub id: u64,
    pub kind: SharingKind,
    pub target: u64,
    pub mutability: Mutability,
    pub synchronization: Synchronization,
}

impl SharingPrimitive {
    /// Exposes a resource under the given kind, mutability and
    /// synchronization; the primitive records the resource's identity.
    pub fn expose(
        id: u64,
        resource: &Resource,
        kind: SharingKind,
        mutability: Mutability,
        synchronization: Synchronization,
    ) -> (p: SharingPrimitive)
        ensures
            p == (SharingPrimitive { id, kind, target: resource.id, mutability, synchronization }),
    {
        SharingPrimitive { id, kind, target: resource.id, mutability, synchronization }
    }

    /// Resolves the primitive to the identity of the resource it targets.
    /// Any task holding the primitive may resolve it, regardless of the
    /// originating task's lifetime.
    pub fn resolve(&self) -> (r: u64)
        ensures
            r == self.target,
    {
        self.target
    }
}

} // verus!
