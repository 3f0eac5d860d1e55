//! Handle on the root page table of an address space.

use vstd::prelude::*;

verus! {

/// Physical base address of a root page table (CR3 on x86-64).
#[derive(Debug, Clone, Copy, PartialEq, Eq, Structural)]
pub struct AddressSpace(pub usize);

impl AddressSpace {
    /// The physical base address of the root page table.
    pub fn as_phys(&self) -> (r: usize)
        ensures
            r == self.0,
    {
        self.0
    }
}

} // verus!
