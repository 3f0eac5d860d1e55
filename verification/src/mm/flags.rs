//! Architecture-neutral page protection flags.

use vstd::prelude::*;
use crate::abi::{PROT_EXEC, PROT_WRITE};

verus! {

/// Portable description of a page's protection and mapping attributes.
#[derive(Debug, Clone, Copy, PartialEq, Eq, Structural)]
pub struct PageFlags {
    /// The page is mapped.
    pub present: bool,
    /// The page may be written.
    pub writable: bool,
    /// The page is reachable from user mode.
    pub user: bool,
    /// Instruction fetches from the page fault.
    pub no_exec: bool,
}

impl PageFlags {
    /// The flag set of an unmapped page.
    pub fn empty() -> (r: Self)
        ensures
            r == (PageFlags { present: false, writable: false, user: false, no_exec: false }),
    {
        PageFlags { present: false, writable: false, user: false, no_exec: false }
    }

    /// User code: read-only, executable, user-reachable.
    pub fn user_code() -> (r: Self)
        ensures
            r == (PageFlags { present: true, writable: false, user: true, no_exec: false }),
    {
        PageFlags { present: true, writable: false, user: true, no_exec: false }
    }

    /// User data, stack or heap: writable, not executable, user-reachable.
    pub fn user_data() -> (r: Self)
        ensures
            r == (PageFlags { present: true, writable: true, user: true, no_exec: true }),
    {
        PageFlags { present: true, writable: true, user: true, no_exec: true }
    }

    /// User read-only data: not writable, not executable, user-reachable.
    pub fn user_rodata() -> (r: Self)
        ensures
            r == (PageFlags { present: true, writable: false, user: true, no_exec: true }),
    {
        PageFlags { present: true, writable: false, user: true, no_exec: true }
    }

    /// Kernel data: writable, not executable, privileged only.
    pub fn kernel_data() -> (r: Self)
        ensures
            r == (PageFlags { present: true, writable: true, user: false, no_exec: true }),
    {
        PageFlags { present: true, writable: true, user: false, no_exec: true }
    }

    /// Kernel code: read-only, executable, privileged only.
    pub fn kernel_code() -> (r: Self)
        ensures
            r == (PageFlags { present: true, writable: false, user: false, no_exec: false }),
    {
        PageFlags { present: true, writable: false, user: false, no_exec: false }
    }

    /// The flags of a user page mapped with the POSIX protection bits `prot`.
    pub open spec fn spec_from_prot(prot: u32) -> PageFlags {
        PageFlags {
            present: true,
            writable: prot & PROT_WRITE != 0,
            user: true,
            no_exec: prot & PROT_EXEC == 0,
        }
    }

    /// User page flags derived from `PROT_*` bits.
    pub fn from_prot(prot: u32) -> (r: Self)
        ensures
            r == Self::spec_from_prot(prot),
    {
        PageFlags {
            present: true,
            writable: prot & PROT_WRITE != 0,
            user: true,
            no_exec: prot & PROT_EXEC == 0,
        }
    }
}

} // verus!
