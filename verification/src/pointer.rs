//! An untyped pointer argument, carried through signals by its address.
//!
//! The bus can pass an opaque machine address alongside typed arguments; a
//! `Pointer` wraps such an address as a plain value, never dereferencing
//! it.

use vstd::prelude::*;

verus! {

/// An untyped pointer value: an address carried through a signal, never
/// dereferenced here.
#[derive(Copy, Clone, Debug, PartialEq, Eq, Structural)]
pub struct Pointer(pub usize);

impl Pointer {
    /// The address, for use as a mutable pointer by the caller.
    pub fn as_ptr_mut(&self) -> (r: usize)
        ensures
            r == self.0,
    {
        self.0
    }

    /// The address, for use as a read-only pointer by the caller.
    pub fn as_ptr(&self) -> (r: usize)
        ensures
            r == self.0,
    {
        self.0
    }

    /// The address out of the wrapper.
    pub fn into_inner(self) -> (r: usize)
        ensures
            r == self.0,
    {
        self.0
    }
}

} // verus!
