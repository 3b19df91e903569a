//! Safe, modelled counterparts of two structures the catalog's entries keep
//! rebuilding: a fixed-size shared buffer that several tasks write by index,
//! and an owning wrapper around one value. Here the bounds and the ownership
//! are explicit, so every access is checked where the originals were not.

use vstd::prelude::*;

verus! {

/// A fixed-size buffer of words, written and read by index.
pub struct FatSendable {
    data: Vec<i32>,
    size: usize,
}

impl FatSendable {
    /// The buffer's contents.
    pub closed spec fn view(self) -> Seq<i32> {
        self.data@
    }

    /// The buffer's declared size always matches its contents.
    pub closed spec fn well_formed(self) -> bool {
        self.data@.len() == self.size
    }

    /// Creates a buffer of `size` zeroed cells.
    pub fn new(size: usize) -> (r: FatSendable)
        ensures
            r.well_formed(),
            r.view().len() == size,
            forall|i: int| 0 <= i < size ==> r.view()[i] == 0,
    {
        let mut data: Vec<i32> = Vec::new();
        let mut i: usize = 0;
        while i < size
            invariant
                0 <= i <= size,
                data@.len() == i,
                forall|j: int| 0 <= j < i ==> data@[j] == 0,
            decreases size - i,
        {
            data.push(0);
            i = i + 1;
        }
        FatSendable { data, size }
    }

    /// The buffer's size.
    pub fn len(&self) -> (n: usize)
        requires
            self.well_formed(),
        ensures
            n == self.view().len(),
    {
        self.size
    }

    /// Writes one cell, in bounds.
    pub fn write(&mut self, index: usize, value: i32)
        requires
            old(self).well_formed(),
            index < old(self).view().len(),
        ensures
            final(self).well_formed(),
            final(self).view() == old(self).view().update(index as int, value),
    {
        self.data.set(index, value);
    }

    /// Reads one cell, in bounds.
    pub fn read(&self, index: usize) -> (r: i32)
        requires
            self.well_formed(),
            index < self.view().len(),
        ensures
            r == self.view()[index as int],
    {
        self.data[index]
    }
}

/// An owning wrapper around one value: the safe shape of a box that is never
/// aliased, so a borrow of its contents always refers to a live value.
pub struct Wrapper<T> {
    value: T,
}

impl<T> Wrapper<T> {
    /// What the wrapper holds.
    pub closed spec fn stored(self) -> T {
        self.value
    }

    /// Wraps a value.
    pub fn new(value: T) -> (r: Wrapper<T>)
        ensures
            r.stored() == value,
    {
        Wrapper { value }
    }

    /// Borrows the held value.
    pub fn get(&self) -> (r: &T)
        ensures
            *r == self.stored(),
    {
        &self.value
    }
}

} // verus!
