//! Per-process virtual address space: the root page table handle and the
//! sorted list of user virtual memory areas.

use vstd::prelude::*;
use crate::abi::{PROT_EXEC, PROT_READ, PROT_WRITE};
use crate::mm::address_space::AddressSpace;
use crate::mm::flags::PageFlags;
use crate::mm::vma::{
    Vma, vmas_wf, InsertPass, insert_pass, insert_pass_result, merge_adjacent, spec_insert_vma,
    in_vma, covers, covers_range, cut_out, spec_remove_range, spec_segments, apply_segments,
};
use crate::mm::vma_coverage::{
    covered_with, lemma_insert_vma_coverage, lemma_protect_done, no_touching_twins,
    lemma_protect_step, lemma_remove_range_coverage, protect_inv, reprotected,
};

verus! {

/// The direct-map virtual address of physical address `phys`, for a direct
/// map at `hhdm_offset`.
pub fn phys_to_virt(phys: usize, hhdm_offset: usize) -> (r: usize)
    requires
        phys + hhdm_offset <= usize::MAX,
    ensures
        r == phys + hhdm_offset,
{
    phys + hhdm_offset
}

/// The physical address behind direct-map virtual address `virt` (zero
/// below the direct map).
pub fn virt_to_phys(virt: usize, hhdm_offset: usize) -> (r: usize)
    ensures
        r == if virt >= hhdm_offset { (virt - hhdm_offset) as usize } else { 0usize },
{
    virt.saturating_sub(hhdm_offset)
}

/// The page-aligned span `[start rounded down, end rounded up)` whose pages
/// a range operation on `[start, end)` touches.
pub fn page_span(start: usize, end: usize) -> (r: (usize, usize))
    requires
        end + 0xFFF <= usize::MAX,
    ensures
        r.0 == start & !0xFFFusize,
        r.1 == ((end + 0xFFF) as usize) & !0xFFFusize,
        r.0 <= start,
        r.0 % 4096 == 0,
        r.1 % 4096 == 0,
        end <= r.1,
        r.1 < end + 4096,
{
    let a = start & !0xFFFusize;
    let b = (end + 0xFFF) & !0xFFFusize;
    assert(a <= start && a % 4096 == 0) by (bit_vector)
        requires a == start & !0xFFFusize;
    let e2: usize = (end + 0xFFF) as usize;
    assert(b % 4096 == 0 && e2 - 0xFFF <= b && b <= e2) by (bit_vector)
        requires b == e2 & !0xFFFusize, e2 >= 0xFFF;
    (a, b)
}

/// The `PROT_*` bits a region mapped with `flags` is recorded with:
/// always readable, writable when the pages are, executable unless the
/// pages are no-execute.
pub open spec fn spec_prot_of_flags(flags: PageFlags) -> u32 {
    PROT_READ | (if flags.writable { PROT_WRITE } else { 0 }) | (if !flags.no_exec { PROT_EXEC } else { 0 })
}

/// The `PROT_*` bits of a region mapped with `flags`.
pub fn prot_of_flags(flags: PageFlags) -> (r: u32)
    ensures
        r == spec_prot_of_flags(flags),
{
    let mut prot = PROT_READ;
    if flags.writable {
        prot = prot | PROT_WRITE;
    }
    if !flags.no_exec {
        prot = prot | PROT_EXEC;
    }
    proof {
        assert(1u32 | 0u32 == 1u32 && 1u32 | 2u32 == 3u32 && 1u32 | 4u32 == 5u32 && 3u32 | 4u32 == 7u32
            && (1u32 | 2u32) | 4u32 == (1u32 | 2u32) | 4u32) by (bit_vector);
        assert(1u32 | 2u32 | 0u32 == 3u32 && 1u32 | 0u32 | 4u32 == 5u32 && 1u32 | 0u32 | 0u32 == 1u32) by (bit_vector);
    }
    prot
}

/// Recording a user mapping's flags as `PROT_*` bits and deriving page
/// flags from them again gives the flags back.
pub proof fn lemma_prot_flags_round_trip(flags: PageFlags)
    requires
        flags.present,
        flags.user,
    ensures
        PageFlags::spec_from_prot(spec_prot_of_flags(flags)) == flags,
{
    let p = spec_prot_of_flags(flags);
    let (w, n) = (flags.writable, flags.no_exec);
    assert(p == 1u32 | (if w { 2u32 } else { 0u32 }) | (if !n { 4u32 } else { 0u32 }));
    assert((p & 2u32 != 0) == w && (p & 4u32 == 0) == n) by (bit_vector)
        requires p == 1u32 | (if w { 2u32 } else { 0u32 }) | (if !n { 4u32 } else { 0u32 });
}

/// How a copy-on-write clone maps one present page of a region with
/// `prot`: with the region's flags made read-only, and whether the frame
/// becomes shared (writable regions only; read-only pages are shared
/// as they are, with no count).
pub fn cow_page_mapping(prot: u32) -> (r: (PageFlags, bool))
    ensures
        r.1 == (prot & PROT_WRITE != 0),
        r.0 == if r.1 {
            PageFlags { writable: false, ..PageFlags::spec_from_prot(prot) }
        } else {
            PageFlags::spec_from_prot(prot)
        },
{
    let base = PageFlags::from_prot(prot);
    if prot & PROT_WRITE != 0 {
        (PageFlags { writable: false, ..base }, true)
    } else {
        (base, false)
    }
}

/// A process virtual address space.
pub struct VmSpace {
    /// Root page table of the address space.
    address_space: AddressSpace,
    /// Sorted, pairwise disjoint user regions.
    vmas: Vec<Vma>,
}

impl VmSpace {
    /// The regions of the address space.
    pub closed spec fn view(&self) -> Seq<Vma> {
        self.vmas@
    }

    /// The root page table of the address space.
    pub closed spec fn root(&self) -> AddressSpace {
        self.address_space
    }

    /// The regions are non-empty, sorted and pairwise disjoint.
    pub open spec fn wf(&self) -> bool {
        vmas_wf(self@)
    }

    /// An address space rooted at `root_phys` with no user regions.
    pub fn new(root_phys: usize) -> (r: Self)
        ensures
            r.root() == AddressSpace(root_phys),
            r@ == Seq::<Vma>::empty(),
            r.wf(),
    {
        VmSpace { address_space: AddressSpace(root_phys), vmas: Vec::new() }
    }

    /// A copy of this space's regions under a new root page table (the
    /// caller copies or shares the pages themselves).
    pub fn clone_regions(&self, root_phys: usize) -> (r: Self)
        ensures
            r.root() == AddressSpace(root_phys),
            r@ == self@,
    {
        VmSpace { address_space: AddressSpace(root_phys), vmas: self.vmas.clone() }
    }

    /// Physical address of the root page table.
    pub fn pml4_phys(&self) -> (r: usize)
        ensures
            r == self.root().0,
    {
        self.address_space.as_phys()
    }

    /// The regions as a vector.
    pub fn vmas(&self) -> (r: Vec<Vma>)
        ensures
            r@ == self@,
    {
        self.vmas.clone()
    }

    /// Inserts `[start, end)` with `prot`/`flags`, splitting overlapped regions
    /// of other attributes, absorbing overlapped regions of the same attributes,
    /// and fusing touching regions of equal attributes. Afterwards the range
    /// is covered with the new attributes, every other address as before,
    /// and no two touching regions carry equal attributes.
    pub fn insert_vma(&mut self, start: usize, end: usize, prot: u32, flags: u32)
        requires
            old(self).wf(),
        ensures
            final(self)@ == spec_insert_vma(old(self)@, start, end, prot, flags),
            final(self).wf(),
            final(self).root() == old(self).root(),
            forall|a: int, p: u32, f: u32| #[trigger] covered_with(final(self)@, a, p, f)
                <==> (if start <= a < end { p == prot && f == flags } else { covered_with(old(self)@, a, p, f) }),
            start < end ==> no_touching_twins(final(self)@),
    {
        let ghost s0 = self@;
        proof {
            lemma_insert_vma_coverage(s0, start, end, prot, flags);
        }
        if start >= end {
            return;
        }
        let ghost s = self.vmas@;
        let mut out: Vec<Vma> = Vec::new();
        let mut inserted = false;
        let mut cur_start = start;
        let mut cur_end = end;
        let n = self.vmas.len();
        let mut i: usize = 0;
        while i < n
            invariant
                n == s.len(),
                s == self.vmas@,
                vmas_wf(s),
                start < end,
                0 <= i <= n,
                insert_pass(s.take(i as int), start, end, prot, flags) == (InsertPass {
                    out: out@,
                    inserted,
                    cur_start,
                    cur_end,
                }),
                vmas_wf(out@),
                cur_start <= start,
                end <= cur_end,
                cur_start < cur_end,
                !inserted ==> out@.len() > 0 ==> out@.last().end <= cur_start,
                !inserted ==> out@.len() > 0 ==> i < n ==> out@.last().end <= s[i as int].start,
                inserted ==> i < n ==> cur_start < s[i as int].start,
                inserted ==> i < n ==> out@.len() > 0 ==> (out@.last().end <= cur_end || out@.last().end <= s[i as int].start),
                inserted ==> i == n ==> true,
            decreases n - i,
        {
            let v = self.vmas[i];
            proof {
                assert(s.take(i as int + 1).drop_last() =~= s.take(i as int));
                assert(s.take(i as int + 1).last() == v);
            }
            let ghost old_out = out@;
            if v.end <= cur_start {
                out.push(v);
            } else if v.start >= cur_end {
                if !inserted {
                    out.push(Vma { start: cur_start, end: cur_end, prot, flags });
                    inserted = true;
                }
                out.push(v);
            } else if v.prot == prot && v.flags == flags && !inserted {
                if v.start < cur_start {
                    cur_start = v.start;
                }
                if v.end > cur_end {
                    cur_end = v.end;
                }
            } else {
                if v.start < cur_start {
                    out.push(Vma { start: v.start, end: cur_start, prot: v.prot, flags: v.flags });
                }
                if !inserted {
                    out.push(Vma { start: cur_start, end: cur_end, prot, flags });
                    inserted = true;
                }
                if v.end > cur_end {
                    out.push(Vma { start: cur_end, end: v.end, prot: v.prot, flags: v.flags });
                }
            }
            proof {
                if i + 1 < n {
                    assert(s[i as int].end <= s[i as int + 1].start);
                }
                assert(vmas_wf(out@)) by {
                    assert forall|a: int, b: int| 0 <= a < b < out@.len() implies (#[trigger] out@[a]).end
                        <= (#[trigger] out@[b]).start by {
                        if b >= old_out.len() {
                            if a < old_out.len() {
                                assert(old_out[a].end <= old_out.last().end) by {
                                    if a < old_out.len() - 1 {
                                        assert(old_out[a].end <= old_out[old_out.len() - 1].start);
                                    }
                                }
                            }
                        } else {
                            assert(old_out[a] == out@[a] && old_out[b] == out@[b]);
                        }
                    }
                }
            }
            i += 1;
        }
        proof {
            assert(s.take(n as int) =~= s);
        }
        if !inserted {
            out.push(Vma { start: cur_start, end: cur_end, prot, flags });
        }
        let ghost pre = out@;
        assert(pre == insert_pass_result(s, start, end, prot, flags));
        let mut merged: Vec<Vma> = Vec::new();
        let m = out.len();
        let mut k: usize = 0;
        while k < m
            invariant
                m == pre.len(),
                pre == out@,
                vmas_wf(pre),
                0 <= k <= m,
                merged@ == merge_adjacent(pre.take(k as int)),
                vmas_wf(merged@),
                k > 0 ==> merged@.len() > 0 && merged@.last().end == pre[k as int - 1].end,
                k == 0 ==> merged@.len() == 0,
            decreases m - k,
        {
            let v = out[k];
            proof {
                assert(pre.take(k as int + 1).drop_last() =~= pre.take(k as int));
                assert(pre.take(k as int + 1).last() == v);
                if k > 0 {
                    assert(pre[k as int - 1].end <= pre[k as int].start);
                }
            }
            let ghost old_merged = merged@;
            let ml = merged.len();
            if ml > 0 && merged[ml - 1].end == v.start && merged[ml - 1].prot == v.prot
                && merged[ml - 1].flags == v.flags {
                let last = merged[ml - 1];
                merged.set(ml - 1, Vma { start: last.start, end: v.end, prot: last.prot, flags: last.flags });
            } else {
                merged.push(v);
            }
            proof {
                assert(vmas_wf(merged@)) by {
                    assert forall|a: int, b: int| 0 <= a < b < merged@.len() implies (#[trigger] merged@[a]).end
                        <= (#[trigger] merged@[b]).start by {
                        if b == merged@.len() - 1 && a < old_merged.len() {
                            if a < old_merged.len() - 1 {
                                assert(old_merged[a].end <= old_merged[old_merged.len() - 1].start);
                            }
                        }
                    }
                }
            }
            k += 1;
        }
        proof {
            assert(pre.take(m as int) =~= pre);
        }
        self.vmas = merged;
        proof {
            assert(self@ == spec_insert_vma(s0, start, end, prot, flags));
            lemma_insert_vma_coverage(s0, start, end, prot, flags);
        }
    }

    /// The region containing `addr`, if any.
    pub fn find_vma(&self, addr: usize) -> (r: Option<&Vma>)
        requires
            self.wf(),
        ensures
            match r {
                Some(v) => self@.contains(*v) && in_vma(*v, addr as int),
                None => !covers(self@, addr as int),
            },
    {
        let n = self.vmas.len();
        let mut i: usize = 0;
        while i < n
            invariant
                n == self@.len(),
                0 <= i <= n,
                forall|j: int| 0 <= j < i ==> !in_vma(#[trigger] self@[j], addr as int),
            decreases n - i,
        {
            if self.vmas[i].start <= addr && addr < self.vmas[i].end {
                assert(self@[i as int] == self.vmas[i as int]);
                return Some(&self.vmas[i]);
            }
            i += 1;
        }
        None
    }

    /// Whether `[start, end)` is non-empty and entirely covered by regions.
    pub fn contains_range(&self, start: usize, end: usize) -> (r: bool)
        requires
            self.wf(),
        ensures
            r == (start < end && covers_range(self@, start as int, end as int)),
    {
        if start >= end {
            return false;
        }
        let ghost s = self@;
        let n = self.vmas.len();
        let mut curr = start;
        let mut i: usize = 0;
        while i < n
            invariant
                n == s.len(),
                s == self@,
                vmas_wf(s),
                start <= curr < end,
                0 <= i <= n,
                covers_range(s, start as int, curr as int),
                forall|j: int| 0 <= j < i ==> !in_vma(#[trigger] s[j], curr as int),
                i > 0 ==> curr >= s[i as int - 1].end || s[i as int - 1].start > curr,
            decreases n - i,
        {
            let v = self.vmas[i];
            if v.start <= curr && v.end > curr {
                let ghost old_curr = curr;
                proof {
                    assert forall|a: int| start <= a < v.end implies covers(s, a) by {
                        if a >= old_curr {
                            assert(in_vma(s[i as int], a));
                        }
                    }
                }
                curr = v.end;
                if curr >= end {
                    return true;
                }
                proof {
                    assert forall|j: int| 0 <= j < i + 1 implies !in_vma(#[trigger] s[j], curr as int) by {
                        if j < i {
                            assert(s[j].end <= s[i as int].start);
                        }
                    }
                }
            } else {
                proof {
                    assert forall|j: int| 0 <= j < i + 1 implies !in_vma(#[trigger] s[j], curr as int) by {}
                }
            }
            i += 1;
        }
        proof {
            assert(!covers(s, curr as int));
        }
        false
    }

    /// Punches `[start, end)` out of every region, keeping the parts outside
    /// it: afterwards no address of the range is covered, and every other
    /// address is covered as before.
    pub fn remove_vma_range(&mut self, start: usize, end: usize)
        requires
            old(self).wf(),
        ensures
            start >= end ==> final(self)@ == old(self)@,
            start < end ==> final(self)@ == spec_remove_range(old(self)@, start, end),
            final(self).wf(),
            final(self).root() == old(self).root(),
            forall|a: int, p: u32, f: u32| #[trigger] covered_with(final(self)@, a, p, f)
                <==> (covered_with(old(self)@, a, p, f) && !(start <= a < end)),
    {
        let ghost s0 = self@;
        if start >= end {
            return;
        }
        let ghost s = self.vmas@;
        let n = self.vmas.len();
        let mut out: Vec<Vma> = Vec::new();
        let mut i: usize = 0;
        while i < n
            invariant
                n == s.len(),
                s == self.vmas@,
                vmas_wf(s),
                0 <= i <= n,
                start < end,
                out@ == spec_remove_range(s.take(i as int), start, end),
                vmas_wf(out@),
                out@.len() > 0 ==> i > 0 && out@.last().end <= s[i as int - 1].end,
            decreases n - i,
        {
            let v = self.vmas[i];
            proof {
                assert(s.take(i as int + 1).drop_last() =~= s.take(i as int));
                assert(s.take(i as int + 1).last() == v);
                if i > 0 {
                    assert(s[i as int - 1].end <= s[i as int].start);
                }
            }
            let ghost old_out = out@;
            if v.end <= start || v.start >= end {
                out.push(v);
                proof {
                    assert(out@ =~= old_out + cut_out(v, start, end));
                }
            } else {
                if v.start < start {
                    out.push(Vma { start: v.start, end: start, prot: v.prot, flags: v.flags });
                }
                if v.end > end {
                    out.push(Vma { start: end, end: v.end, prot: v.prot, flags: v.flags });
                }
                proof {
                    assert(out@ =~= old_out + cut_out(v, start, end));
                }
            }
            proof {
                assert(vmas_wf(out@)) by {
                    assert forall|a: int, b: int| 0 <= a < b < out@.len() implies (#[trigger] out@[a]).end
                        <= (#[trigger] out@[b]).start by {
                        if b >= old_out.len() && a < old_out.len() {
                            if a < old_out.len() - 1 {
                                assert(old_out[a].end <= old_out[old_out.len() - 1].start);
                            }
                            assert(out@[b].start >= v.start);
                        } else if a < old_out.len() {
                            assert(old_out[a] == out@[a] && old_out[b] == out@[b]);
                        }
                    }
                }
            }
            i += 1;
        }
        proof {
            assert(s.take(n as int) =~= s);
        }
        self.vmas = out;
        proof {
            lemma_remove_range_coverage(s0, start, end);
        }
    }

    /// Changes the protection of `[start, end)` to `new_prot`, keeping each
    /// region's mapping flags; fails when the range is empty or not fully
    /// mapped. On success each address of the range is covered with the new
    /// protection and the flags it had, and every other address as before.
    pub fn mprotect_range(&mut self, start: usize, end: usize, new_prot: u32) -> (r: Result<(), &'static str>)
        requires
            old(self).wf(),
        ensures
            r is Err <==> !(start < end && covers_range(old(self)@, start as int, end as int)),
            r is Err ==> final(self)@ == old(self)@,
            r is Ok ==> final(self)@ == apply_segments(
                old(self)@,
                spec_segments(old(self)@, start, end),
                new_prot,
            ),
            r is Ok ==> forall|a: int, p: u32, f: u32| #[trigger] covered_with(final(self)@, a, p, f)
                <==> reprotected(old(self)@, start, end, new_prot, a, p, f),
            final(self).wf(),
            final(self).root() == old(self).root(),
    {
        if start >= end || !self.contains_range(start, end) {
            return Err("Unmapped gap in range");
        }
        let ghost s = self.vmas@;
        let mut segments: Vec<(usize, usize, u32)> = Vec::new();
        let n = self.vmas.len();
        let mut i: usize = 0;
        while i < n
            invariant
                n == s.len(),
                s == self.vmas@,
                0 <= i <= n,
                segments@ == spec_segments(s.take(i as int), start, end),
            decreases n - i,
        {
            let v = self.vmas[i];
            proof {
                assert(s.take(i as int + 1).drop_last() =~= s.take(i as int));
                assert(s.take(i as int + 1).last() == v);
            }
            let seg_start = if v.start > start { v.start } else { start };
            let seg_end = if v.end < end { v.end } else { end };
            if seg_start < seg_end {
                segments.push((seg_start, seg_end, v.flags));
            }
            i += 1;
        }
        proof {
            assert(s.take(n as int) =~= s);
        }
        let ghost segs = segments@;
        let m = segments.len();
        let mut k: usize = 0;
        while k < m
            invariant
                m == segs.len(),
                segs == segments@,
                segs == spec_segments(s, start, end),
                vmas_wf(s),
                0 <= k <= m,
                self.wf(),
                self.root() == old(self).root(),
                self@ == apply_segments(s, segs.take(k as int), new_prot),
                protect_inv(self@, s, segs, k as int, new_prot),
            decreases m - k,
        {
            let g = segments[k];
            proof {
                assert(segs.take(k as int + 1).drop_last() =~= segs.take(k as int));
                assert(segs.take(k as int + 1).last() == g);
            }
            let ghost before = self@;
            self.insert_vma(g.0, g.1, new_prot, g.2);
            proof {
                lemma_protect_step(before, self@, s, start, end, k as int, new_prot);
            }
            k += 1;
        }
        proof {
            assert(segs.take(m as int) =~= segs);
            lemma_protect_done(self@, s, start, end, new_prot);
        }
        Ok(())
    }
}

} // verus!
