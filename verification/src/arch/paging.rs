//! x86-64 four-level paging: entry bits, index decomposition, flag
//! encoding and the decisions of a user-access page walk.

use vstd::prelude::*;
use crate::mm::flags::PageFlags;
use crate::mm::user::UserAccessError;

verus! {

/// Entry maps something (bit 0).
pub const PAGE_PRESENT: u64 = 1;
/// Entry allows writes (bit 1).
pub const PAGE_WRITABLE: u64 = 2;
/// Entry is reachable from ring 3 (bit 2).
pub const PAGE_USER: u64 = 4;
/// Entry maps a huge page at PDPT or PD level (bit 7).
pub const PAGE_PS: u64 = 0x80;
/// Instruction fetches fault (bit 63).
pub const PAGE_NX: u64 = 0x8000_0000_0000_0000;
/// Physical address bits 12..51 of an entry.
pub const PT_ADDR_MASK: u64 = 0x000F_FFFF_FFFF_F000;
/// A nine-bit table index.
pub const PT_INDEX_MASK: usize = 0x1FF;

/// One 4 KiB table level of 512 entries.
pub struct PageTable {
    pub entries: [u64; 512],
}

impl PageTable {
    /// A table with every entry zero (not present).
    pub fn empty() -> (r: Self)
        ensures
            forall|i: int| 0 <= i < 512 ==> #[trigger] r.entries[i] == 0,
    {
        PageTable { entries: [0u64; 512] }
    }
}

/// The nine-bit table index of `virt_addr` at the level whose index starts
/// at bit `shift`.
pub open spec fn spec_index_at(virt_addr: usize, shift: u64) -> usize {
    (((virt_addr as u64) >> shift) & 0x1FFu64) as usize
}

/// The PML4, PDPT, PD and PT indices of a virtual address.
pub fn pt_indices(virt_addr: usize) -> (r: (usize, usize, usize, usize))
    ensures
        r == (spec_index_at(virt_addr, 39), spec_index_at(virt_addr, 30),
              spec_index_at(virt_addr, 21), spec_index_at(virt_addr, 12)),
        r.0 < 512, r.1 < 512, r.2 < 512, r.3 < 512,
{
    let v = virt_addr as u64;
    let a = ((v >> 39u64) & 0x1FFu64) as usize;
    let b = ((v >> 30u64) & 0x1FFu64) as usize;
    let c = ((v >> 21u64) & 0x1FFu64) as usize;
    let d = ((v >> 12u64) & 0x1FFu64) as usize;
    assert((v >> 39u64) & 0x1FFu64 < 512 && (v >> 30u64) & 0x1FFu64 < 512
        && (v >> 21u64) & 0x1FFu64 < 512 && (v >> 12u64) & 0x1FFu64 < 512) by (bit_vector);
    (a, b, c, d)
}

/// The 4 KiB-aligned physical address an entry points at.
pub fn pte_phys(entry: u64) -> (r: usize)
    ensures
        r == (entry & PT_ADDR_MASK) as usize,
{
    (entry & PT_ADDR_MASK) as usize
}

/// Hardware attribute bits of `flags`.
pub open spec fn spec_flags_to_arch(flags: PageFlags) -> u64 {
    (if flags.present { PAGE_PRESENT } else { 0 }) | (if flags.writable { PAGE_WRITABLE } else { 0 })
        | (if flags.user { PAGE_USER } else { 0 }) | (if flags.no_exec { PAGE_NX } else { 0 })
}

/// Portable flags read from hardware attribute bits.
pub open spec fn spec_flags_from_arch(bits: u64) -> PageFlags {
    PageFlags {
        present: bits & PAGE_PRESENT != 0,
        writable: bits & PAGE_WRITABLE != 0,
        user: bits & PAGE_USER != 0,
        no_exec: bits & PAGE_NX != 0,
    }
}

/// Encodes portable page flags as x86-64 entry attribute bits.
pub fn page_flags_to_arch(flags: PageFlags) -> (bits: u64)
    ensures
        bits == spec_flags_to_arch(flags),
{
    (if flags.present { PAGE_PRESENT } else { 0 }) | (if flags.writable { PAGE_WRITABLE } else { 0 })
        | (if flags.user { PAGE_USER } else { 0 }) | (if flags.no_exec { PAGE_NX } else { 0 })
}

/// Decodes x86-64 entry attribute bits into portable page flags.
pub fn page_flags_from_arch(bits: u64) -> (flags: PageFlags)
    ensures
        flags == spec_flags_from_arch(bits),
{
    PageFlags {
        present: (bits & PAGE_PRESENT) != 0,
        writable: (bits & PAGE_WRITABLE) != 0,
        user: (bits & PAGE_USER) != 0,
        no_exec: (bits & PAGE_NX) != 0,
    }
}

/// Encoding page flags and decoding the bits gives the flags back.
pub proof fn lemma_flags_round_trip(flags: PageFlags)
    ensures
        spec_flags_from_arch(spec_flags_to_arch(flags)) == flags,
{
    let (p, w, u, n) = (flags.present, flags.writable, flags.user, flags.no_exec);
    let b = spec_flags_to_arch(flags);
    assert(b == ((if p { 1u64 } else { 0u64 }) | (if w { 2u64 } else { 0u64 })
        | (if u { 4u64 } else { 0u64 }) | (if n { 0x8000_0000_0000_0000u64 } else { 0u64 })));
    assert((b & 1u64 != 0) == p && (b & 2u64 != 0) == w && (b & 4u64 != 0) == u
        && (b & 0x8000_0000_0000_0000u64 != 0) == n) by (bit_vector)
        requires
            b == ((if p { 1u64 } else { 0u64 }) | (if w { 2u64 } else { 0u64 })
                | (if u { 4u64 } else { 0u64 }) | (if n { 0x8000_0000_0000_0000u64 } else { 0u64 }));
}

/// Decoding attribute bits and encoding the flags again keeps exactly the
/// four bits that the flags describe.
pub proof fn lemma_arch_round_trip(bits: u64)
    ensures
        spec_flags_to_arch(spec_flags_from_arch(bits))
            == bits & (PAGE_PRESENT | PAGE_WRITABLE | PAGE_USER | PAGE_NX),
{
    let f = spec_flags_from_arch(bits);
    let e = spec_flags_to_arch(f);
    assert(e == ((if bits & 1u64 != 0 { 1u64 } else { 0u64 }) | (if bits & 2u64 != 0 { 2u64 } else { 0u64 })
        | (if bits & 4u64 != 0 { 4u64 } else { 0u64 })
        | (if bits & 0x8000_0000_0000_0000u64 != 0 { 0x8000_0000_0000_0000u64 } else { 0u64 })));
    assert(((if bits & 1u64 != 0 { 1u64 } else { 0u64 }) | (if bits & 2u64 != 0 { 2u64 } else { 0u64 })
        | (if bits & 4u64 != 0 { 4u64 } else { 0u64 })
        | (if bits & 0x8000_0000_0000_0000u64 != 0 { 0x8000_0000_0000_0000u64 } else { 0u64 }))
        == bits & 0x8000_0000_0000_0007u64) by (bit_vector);
    assert(PAGE_PRESENT | PAGE_WRITABLE | PAGE_USER | PAGE_NX == 0x8000_0000_0000_0007u64) by (bit_vector);
}

/// What a user-access page walk does after reading one entry.
#[derive(Debug, Clone, Copy, PartialEq, Eq, Structural)]
pub enum UserWalkStep {
    /// The access is refused.
    Fault(UserAccessError),
    /// The entry maps the page; the access is allowed.
    Leaf,
    /// Continue at the next level, in the table at this physical address.
    Next(usize),
}

/// The index shift of walk level `level` (4 = PML4 ... 1 = PT).
pub open spec fn spec_level_shift(level: u32) -> u64 {
    (12 + (level - 1) * 9) as u64
}

/// The decision of a user-access walk at `level` on `entry`.
pub open spec fn spec_user_walk_step(level: u32, entry: u64, need_write: bool) -> UserWalkStep {
    if entry & PAGE_PRESENT == 0 || entry & PAGE_USER == 0 {
        UserWalkStep::Fault(UserAccessError::NotMapped)
    } else if need_write && entry & PAGE_WRITABLE == 0 {
        UserWalkStep::Fault(UserAccessError::NotWritable)
    } else if level == 1 || (level <= 3 && entry & PAGE_PS != 0) {
        UserWalkStep::Leaf
    } else {
        UserWalkStep::Next((entry & PT_ADDR_MASK) as usize)
    }
}

/// The entry index a user-access walk reads at `level` for `vaddr`.
pub fn walk_index(vaddr: usize, level: u32) -> (r: usize)
    requires
        1 <= level <= 4,
    ensures
        r == spec_index_at(vaddr, spec_level_shift(level)),
        r < 512,
{
    let shift: u64 = (12 + (level - 1) * 9) as u64;
    let v = vaddr as u64;
    assert((v >> shift) & 0x1FFu64 < 512) by (bit_vector);
    ((v >> shift) & 0x1FFu64) as usize
}

/// One step of the user-access walk: every level must be present and user
/// reachable, and writable when a write is checked; a PT entry, or a huge
/// page entry at PDPT or PD level, ends the walk.
pub fn user_walk_step(level: u32, entry: u64, need_write: bool) -> (r: UserWalkStep)
    requires
        1 <= level <= 4,
    ensures
        r == spec_user_walk_step(level, entry, need_write),
{
    if entry & PAGE_PRESENT == 0 || entry & PAGE_USER == 0 {
        return UserWalkStep::Fault(UserAccessError::NotMapped);
    }
    if need_write && entry & PAGE_WRITABLE == 0 {
        return UserWalkStep::Fault(UserAccessError::NotWritable);
    }
    if level == 1 || (level <= 3 && entry & PAGE_PS != 0) {
        return UserWalkStep::Leaf;
    }
    UserWalkStep::Next((entry & PT_ADDR_MASK) as usize)
}

/// The entry installed for an intermediate table at physical `frame` when a
/// mapping with attribute bits `flags` needs it: present, writable, and user
/// reachable when the mapping is.
pub fn intermediate_entry(frame: usize, flags: u64) -> (r: u64)
    ensures
        r == (frame as u64) | PAGE_PRESENT | PAGE_WRITABLE | (flags & PAGE_USER),
{
    (frame as u64) | PAGE_PRESENT | PAGE_WRITABLE | (flags & PAGE_USER)
}

/// The leaf entry mapping physical `phys` with `flags`; always present.
pub fn leaf_entry(phys: usize, flags: PageFlags) -> (r: u64)
    ensures
        r == (phys as u64) | spec_flags_to_arch(flags) | PAGE_PRESENT,
{
    (phys as u64) | page_flags_to_arch(flags) | PAGE_PRESENT
}

/// The entry after changing the protection of a present leaf entry to
/// `flags`: same frame, new attributes.
pub fn reprotected_entry(entry: u64, flags: PageFlags) -> (r: u64)
    ensures
        r == (entry & PT_ADDR_MASK) | spec_flags_to_arch(flags) | PAGE_PRESENT,
{
    (entry & PT_ADDR_MASK) | page_flags_to_arch(flags) | PAGE_PRESENT
}

} // verus!
