//! Memory-mapping system calls: the checks on their arguments and what
//! they do to a process's regions. Page-table entries and frame contents
//! are written by the caller around these.

use vstd::prelude::*;
use crate::abi::{EINVAL, ENOMEM};
use crate::mm::pmm::PAGE_SIZE;
use crate::mm::user::USER_SPACE_END;
use crate::mm::vma::{Vma, apply_segments, covers_range, spec_insert_vma, spec_remove_range, spec_segments};
use crate::services::process::Process;

verus! {

/// `length` rounded up to whole pages.
pub open spec fn page_round(length: int) -> int {
    let pages = length / (PAGE_SIZE as int) + if length % (PAGE_SIZE as int) != 0 { 1int } else { 0int };
    pages * PAGE_SIZE
}

/// The span `[start, end)` of a mapping request, and where anonymous
/// mappings go next once it is made.
#[derive(Debug, Clone, Copy, PartialEq, Eq, Structural)]
pub struct MmapRegion {
    pub start: usize,
    pub end: usize,
    /// Number of pages in the span.
    pub pages: usize,
    pub next_vaddr: usize,
}

/// The span an `mmap` of `length` bytes at `addr` takes, given the
/// process's next anonymous address `next`, or its errno: `EINVAL` for an
/// empty length, `ENOMEM` for one past user space or a span that would
/// end past it (or past the address range). With `addr == 0` the span
/// starts at `next` and `next` moves past it; otherwise it starts at
/// `addr` rounded down to its page and `next` stays.
pub open spec fn spec_mmap_region(addr: usize, length: usize, next: usize) -> Result<MmapRegion, i32> {
    let len = page_round(length as int);
    if length == 0 {
        Err(EINVAL)
    } else if length > USER_SPACE_END {
        Err(ENOMEM)
    } else if len > usize::MAX {
        Err(ENOMEM)
    } else if addr == 0 {
        if next + len > USER_SPACE_END || next + len > usize::MAX {
            Err(ENOMEM)
        } else {
            Ok(MmapRegion { start: next, end: (next + len) as usize, pages: (len / PAGE_SIZE as int) as usize, next_vaddr: (next + len) as usize })
        }
    } else {
        let start = (addr - addr % 4096) as usize;
        if start + len > USER_SPACE_END || start + len > usize::MAX {
            Err(ENOMEM)
        } else {
            Ok(MmapRegion { start, end: (start + len) as usize, pages: (len / PAGE_SIZE as int) as usize, next_vaddr: next })
        }
    }
}

proof fn lemma_page_round(length: int)
    requires
        0 <= length,
    ensures
        page_round(length) >= length,
        page_round(length) < length + PAGE_SIZE,
        page_round(length) % (PAGE_SIZE as int) == 0,
{
    let pages = length / (PAGE_SIZE as int) + if length % (PAGE_SIZE as int) != 0 { 1int } else { 0int };
    assert(pages * PAGE_SIZE == (length / 4096 + if length % 4096 != 0 { 1int } else { 0int }) * 4096);
    assert(length == (length / 4096) * 4096 + length % 4096) by (nonlinear_arith);
    assert((pages * 4096) % 4096 == 0) by (nonlinear_arith);
    if length % 4096 != 0 {
        assert(pages * 4096 == (length / 4096) * 4096 + 4096) by (nonlinear_arith)
            requires pages == length / 4096 + 1;
    } else {
        assert(pages * 4096 == (length / 4096) * 4096) by (nonlinear_arith)
            requires pages == length / 4096;
    }
}

/// Two anonymous mappings in a row (no address asked for, the second from
/// where the first left the next address) take non-empty spans one after
/// the other: the second starts where the first ends, so they are disjoint
/// and increasing.
pub proof fn lemma_mmap_successive(l1: usize, l2: usize, next: usize)
    requires
        spec_mmap_region(0, l1, next) is Ok,
        spec_mmap_region(0, l2, spec_mmap_region(0, l1, next)->Ok_0.next_vaddr) is Ok,
    ensures
        ({
            let r1 = spec_mmap_region(0, l1, next)->Ok_0;
            let r2 = spec_mmap_region(0, l2, r1.next_vaddr)->Ok_0;
            &&& r1.start < r1.end
            &&& r1.end == r2.start
            &&& r2.start < r2.end
            &&& r2.next_vaddr == r2.end
        }),
{
    lemma_page_round(l1 as int);
    lemma_page_round(l2 as int);
}

/// The span of a mapping request (see `spec_mmap_region`).
pub fn mmap_region(addr: usize, length: usize, next: usize) -> (r: Result<MmapRegion, i32>)
    ensures
        r == spec_mmap_region(addr, length, next),
        r matches Ok(g) ==> g.start % 4096 == 0 || addr == 0,
        r matches Ok(g) ==> g.end - g.start == g.pages * PAGE_SIZE,
{
    if length == 0 {
        return Err(EINVAL);
    }
    if length as u64 > USER_SPACE_END {
        return Err(ENOMEM);
    }
    proof {
        lemma_page_round(length as int);
    }
    let pages: usize = length / PAGE_SIZE + if length % PAGE_SIZE != 0 { 1usize } else { 0usize };
    let byte_len: usize = match pages.checked_mul(PAGE_SIZE) {
        Some(l) => l,
        None => return Err(ENOMEM),
    };
    if addr == 0 {
        let end: usize = match next.checked_add(byte_len) {
            Some(e) => e,
            None => return Err(ENOMEM),
        };
        if end as u64 > USER_SPACE_END {
            return Err(ENOMEM);
        }
        proof {
            assert(byte_len / PAGE_SIZE == pages) by (nonlinear_arith)
                requires byte_len == pages * 4096;
        }
        Ok(MmapRegion { start: next, end, pages, next_vaddr: end })
    } else {
        let start = addr & !0xFFFusize;
        proof {
            assert(addr & !0xFFFusize == addr - addr % 4096) by (bit_vector);
        }
        let end: usize = match start.checked_add(byte_len) {
            Some(e) => e,
            None => return Err(ENOMEM),
        };
        if end as u64 > USER_SPACE_END {
            return Err(ENOMEM);
        }
        proof {
            assert(byte_len / PAGE_SIZE == pages) by (nonlinear_arith)
                requires byte_len == pages * 4096;
            assert((addr - addr % 4096) % 4096 == 0) by (nonlinear_arith)
                requires addr >= 0;
        }
        Ok(MmapRegion { start, end, pages, next_vaddr: next })
    }
}

/// The address space of `proc`, if any, is well formed.
pub open spec fn vm_wf(proc: Process) -> bool {
    proc.vm_space matches Some(vm) ==> vm.wf()
}

/// `mmap(addr, length, ...)` before any page is mapped: the span the call
/// takes for `proc` (see `spec_mmap_region`), or its errno. Nothing changes;
/// the caller maps and zeroes `pages` fresh frames over the span when the
/// process has an address space, then commits with `sys_mmap_commit`.
pub fn sys_mmap(proc: &Process, addr: usize, length: usize) -> (r: Result<MmapRegion, i32>)
    ensures
        r == spec_mmap_region(addr, length, proc.mmap_next_vaddr),
{
    mmap_region(addr, length, proc.mmap_next_vaddr)
}

/// Completes `mmap` once its pages are mapped: the process's next
/// anonymous address becomes the region's, the region is recorded with
/// `prot` and `flags` in the address space (if the process has one), and
/// the start address is returned.
pub fn sys_mmap_commit(proc: &mut Process, region: MmapRegion, prot: i32, flags: i32) -> (r: isize)
    requires
        vm_wf(*old(proc)),
    ensures
        vm_wf(*final(proc)),
        r == region.start as isize,
        final(proc).mmap_next_vaddr == region.next_vaddr,
        match old(proc).vm_space {
            Some(vm) => final(proc).vm_space matches Some(nvm) && nvm.root() == vm.root()
                && nvm@ == spec_insert_vma(vm@, region.start, region.end, prot as u32, flags as u32),
            None => final(proc).vm_space is None,
        },
        final(proc).pid == old(proc).pid && final(proc).fds == old(proc).fds,
{
    proc.mmap_next_vaddr = region.next_vaddr;
    match proc.vm_space.take() {
        Some(mut vm) => {
            vm.insert_vma(region.start, region.end, prot as u32, flags as u32);
            proc.vm_space = Some(vm);
        },
        None => {},
    }
    region.start as isize
}

/// The end of the span `[addr, addr + length)` rounded up to pages, when
/// `addr` is page aligned, `length` is not zero, and the span stays in
/// user space; else the errno `bad` (which `munmap` and `mprotect` choose
/// differently for a length past user space).
pub open spec fn spec_range_end(addr: usize, length: usize, bad: i32) -> Result<usize, i32> {
    let len = page_round(length as int);
    if addr % 4096 != 0 || length == 0 {
        Err(EINVAL)
    } else if length > USER_SPACE_END || len > usize::MAX {
        Err(bad)
    } else if addr + len > USER_SPACE_END || addr + len > usize::MAX {
        Err(bad)
    } else {
        Ok((addr + len) as usize)
    }
}

fn range_end(addr: usize, length: usize, bad: i32) -> (r: Result<usize, i32>)
    ensures
        r == spec_range_end(addr, length, bad),
{
    if addr % PAGE_SIZE != 0 || length == 0 {
        return Err(EINVAL);
    }
    if length as u64 > USER_SPACE_END {
        return Err(bad);
    }
    proof {
        lemma_page_round(length as int);
    }
    let pages: usize = length / PAGE_SIZE + if length % PAGE_SIZE != 0 { 1usize } else { 0usize };
    let byte_len: usize = match pages.checked_mul(PAGE_SIZE) {
        Some(l) => l,
        None => return Err(bad),
    };
    let end: usize = match addr.checked_add(byte_len) {
        Some(e) => e,
        None => return Err(bad),
    };
    if end as u64 > USER_SPACE_END {
        return Err(bad);
    }
    Ok(end)
}

/// `munmap(addr, length)`: removes `[addr, addr + length)`, rounded up to
/// pages, from the process's regions; `EINVAL` for an unaligned address,
/// an empty length or a span leaving user space.
pub fn sys_munmap(proc: &mut Process, addr: usize, length: usize) -> (r: isize)
    requires
        vm_wf(*old(proc)),
    ensures
        vm_wf(*final(proc)),
        final(proc).pid == old(proc).pid && final(proc).fds == old(proc).fds,
        final(proc).mmap_next_vaddr == old(proc).mmap_next_vaddr,
        match spec_range_end(addr, length, EINVAL) {
            Err(e) => r == -(e as isize) && *final(proc) == *old(proc),
            Ok(end) => r == 0 && match old(proc).vm_space {
                Some(vm) => final(proc).vm_space matches Some(nvm) && nvm.root() == vm.root()
                    && nvm@ == spec_remove_range(vm@, addr, end),
                None => final(proc).vm_space is None,
            },
        },
{
    let end = match range_end(addr, length, EINVAL) {
        Ok(e) => e,
        Err(e) => return -(e as isize),
    };
    proof {
        assert(addr < end);
    }
    match proc.vm_space.take() {
        Some(mut vm) => {
            vm.remove_vma_range(addr, end);
            proc.vm_space = Some(vm);
        },
        None => {},
    }
    0
}

/// `mprotect(addr, length, prot)`: gives `[addr, addr + length)`, rounded
/// up to pages, protection `prot`; `EINVAL` for an unaligned address or
/// an empty length, `ENOMEM` for a span leaving user space or not wholly
/// mapped by the process's regions.
pub fn sys_mprotect(proc: &mut Process, addr: usize, length: usize, prot: i32) -> (r: isize)
    requires
        vm_wf(*old(proc)),
    ensures
        vm_wf(*final(proc)),
        final(proc).pid == old(proc).pid && final(proc).fds == old(proc).fds,
        final(proc).mmap_next_vaddr == old(proc).mmap_next_vaddr,
        match spec_range_end(addr, length, ENOMEM) {
            Err(e) => r == -(e as isize) && *final(proc) == *old(proc),
            Ok(end) => match old(proc).vm_space {
                Some(vm) => if !covers_range(vm@, addr as int, end as int) {
                    r == -(ENOMEM as isize) && *final(proc) == *old(proc)
                } else {
                    r == 0 && (final(proc).vm_space matches Some(nvm) && nvm.root() == vm.root()
                        && nvm@ == apply_segments(vm@, spec_segments(vm@, addr, end), prot as u32))
                },
                None => r == 0 && *final(proc) == *old(proc),
            },
        },
{
    let end = match range_end(addr, length, ENOMEM) {
        Ok(e) => e,
        Err(e) => return -(e as isize),
    };
    proof {
        assert(addr < end);
    }
    match &proc.vm_space {
        Some(vm) => {
            if !vm.contains_range(addr, end) {
                return -(ENOMEM as isize);
            }
        },
        None => return 0,
    }
    match proc.vm_space.take() {
        Some(mut vm) => {
            let res = vm.mprotect_range(addr, end, prot as u32);
            proc.vm_space = Some(vm);
            if res.is_err() {
                return -(ENOMEM as isize);
            }
        },
        None => {},
    }
    0
}

/// How far the program break may grow beyond its start.
pub const BRK_MAX: usize = 0x1000_0000;

/// The break `brk(addr)` asks for when it may be set: from the break's
/// start up to `BRK_MAX` above it; otherwise none, and the break stays.
pub open spec fn spec_brk_target(p: Process, addr: usize) -> Option<usize> {
    if p.brk_start <= addr && addr - p.brk_start <= BRK_MAX { Some(addr) } else { None }
}

/// `brk(addr)` before anything changes: the new break if `addr` is
/// allowed (`spec_brk_target`), for the caller to map or unmap the pages
/// between the old and the new break and then commit it.
pub fn sys_brk(proc: &Process, addr: usize) -> (r: Option<usize>)
    ensures
        r == spec_brk_target(*proc, addr),
{
    if proc.brk_start <= addr && addr - proc.brk_start <= BRK_MAX {
        Some(addr)
    } else {
        None
    }
}

/// Completes `brk`: the break becomes `new_brk` when given (its pages are
/// in place), and the result is the break, which is what `brk` returns;
/// nothing else changes.
pub fn sys_brk_commit(proc: &mut Process, new_brk: Option<usize>) -> (r: usize)
    ensures
        final(proc).brk == (match new_brk { Some(b) => b, None => old(proc).brk }),
        r == final(proc).brk,
        *final(proc) == (Process { brk: final(proc).brk, ..*old(proc) }),
{
    match new_brk {
        Some(b) => {
            proc.brk = b;
            b
        },
        None => proc.brk,
    }
}

} // verus!
