//! A scoped, non-owning view over externally owned data.
//!
//! A callback is handed its target for the duration of one invocation; the
//! borrow must never outlive that scope and must never free what it views.
//! `BorrowedObject` makes that discipline a type: it holds the value
//! without claiming the right to dispose of it, and hands it back out as a
//! plain reference.

use vstd::prelude::*;

verus! {

/// A non-owning view of a value owned elsewhere, alive for the scope of
/// one callback invocation.
#[derive(Debug)]
pub struct BorrowedObject<O> {
    inner: O,
}

impl<O> BorrowedObject<O> {
    /// Takes a value into a non-owning view; the viewer must not dispose
    /// of it.
    pub fn forget(inner: O) -> (r: Self)
        ensures
            r.value() == inner,
    {
        BorrowedObject { inner }
    }

    /// The viewed value.
    pub closed spec fn value(&self) -> O {
        self.inner
    }

    /// A reference to the viewed value.
    pub fn get(&self) -> (r: &O)
        ensures
            *r == self.value(),
    {
        &self.inner
    }

    /// Releases the view, handing the value back to its owner's scope.
    pub fn into_inner(self) -> (r: O)
        ensures
            r == self.value(),
    {
        self.inner
    }
}

impl<O: Copy> BorrowedObject<O> {
    /// A second view of the same value.
    pub fn copy_ref(&self) -> (r: Self)
        ensures
            r.value() == self.value(),
    {
        BorrowedObject { inner: self.inner }
    }
}

} // verus!
