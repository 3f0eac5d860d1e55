//! Virtual memory areas: the sorted list of user regions of an address space.

use vstd::prelude::*;

verus! {

/// A contiguous range of user virtual memory with uniform protection.
#[derive(Debug, Clone, Copy, PartialEq, Eq, Structural)]
pub struct Vma {
    /// First address of the region.
    pub start: usize,
    /// Exclusive upper bound of the region.
    pub end: usize,
    /// POSIX protection bits (`PROT_*`).
    pub prot: u32,
    /// POSIX mapping flags (`MAP_*`).
    pub flags: u32,
}

/// Each region is non-empty and the regions are sorted and pairwise disjoint.
pub open spec fn vmas_wf(s: Seq<Vma>) -> bool {
    &&& forall|i: int| 0 <= i < s.len() ==> (#[trigger] s[i]).start < s[i].end
    &&& forall|i: int, j: int| 0 <= i < j < s.len() ==> (#[trigger] s[i]).end <= (#[trigger] s[j]).start
}

/// Whether `v` has the protection and flags `prot` / `flags`.
pub open spec fn same_attrs(v: Vma, prot: u32, flags: u32) -> bool {
    v.prot == prot && v.flags == flags
}

/// State of the insertion pass: regions emitted so far, whether the new
/// region has been emitted, and the current (possibly widened) new range.
pub struct InsertPass {
    pub out: Seq<Vma>,
    pub inserted: bool,
    pub cur_start: usize,
    pub cur_end: usize,
}

/// One step of the insertion pass over an existing region `v`.
pub open spec fn insert_step(st: InsertPass, v: Vma, prot: u32, flags: u32) -> InsertPass {
    let new_region = Vma { start: st.cur_start, end: st.cur_end, prot, flags };
    if v.end <= st.cur_start {
        InsertPass { out: st.out.push(v), ..st }
    } else if v.start >= st.cur_end {
        if !st.inserted {
            InsertPass { out: st.out.push(new_region).push(v), inserted: true, ..st }
        } else {
            InsertPass { out: st.out.push(v), ..st }
        }
    } else if same_attrs(v, prot, flags) && !st.inserted {
        InsertPass {
            cur_start: if v.start < st.cur_start { v.start } else { st.cur_start },
            cur_end: if v.end > st.cur_end { v.end } else { st.cur_end },
            ..st
        }
    } else {
        let o1 = if v.start < st.cur_start {
            st.out.push(Vma { start: v.start, end: st.cur_start, prot: v.prot, flags: v.flags })
        } else {
            st.out
        };
        let o2 = if !st.inserted { o1.push(new_region) } else { o1 };
        let o3 = if v.end > st.cur_end {
            o2.push(Vma { start: st.cur_end, end: v.end, prot: v.prot, flags: v.flags })
        } else {
            o2
        };
        InsertPass { out: o3, inserted: true, ..st }
    }
}

/// The insertion pass over all of `s`.
pub open spec fn insert_pass(s: Seq<Vma>, start: usize, end: usize, prot: u32, flags: u32) -> InsertPass
    decreases s.len(),
{
    if s.len() == 0 {
        InsertPass { out: Seq::empty(), inserted: false, cur_start: start, cur_end: end }
    } else {
        insert_step(insert_pass(s.drop_last(), start, end, prot, flags), s.last(), prot, flags)
    }
}

/// The regions emitted by the insertion pass, the new region appended if it
/// was not emitted on the way.
pub open spec fn insert_pass_result(s: Seq<Vma>, start: usize, end: usize, prot: u32, flags: u32) -> Seq<Vma> {
    let st = insert_pass(s, start, end, prot, flags);
    if st.inserted {
        st.out
    } else {
        st.out.push(Vma { start: st.cur_start, end: st.cur_end, prot, flags })
    }
}

/// Fuses each region into its predecessor when the two touch and carry the
/// same protection and flags.
pub open spec fn merge_adjacent(s: Seq<Vma>) -> Seq<Vma>
    decreases s.len(),
{
    if s.len() == 0 {
        Seq::empty()
    } else {
        let m = merge_adjacent(s.drop_last());
        let v = s.last();
        if m.len() > 0 && m.last().end == v.start && same_attrs(m.last(), v.prot, v.flags) {
            m.update(m.len() - 1, Vma { end: v.end, ..m.last() })
        } else {
            m.push(v)
        }
    }
}

/// The region list after `insert_vma(start, end, prot, flags)`.
pub open spec fn spec_insert_vma(s: Seq<Vma>, start: usize, end: usize, prot: u32, flags: u32) -> Seq<Vma> {
    if start >= end {
        s
    } else {
        merge_adjacent(insert_pass_result(s, start, end, prot, flags))
    }
}

/// Address `a` lies in region `v`.
pub open spec fn in_vma(v: Vma, a: int) -> bool {
    v.start <= a < v.end
}

/// Some region of `s` contains `a`.
pub open spec fn covers(s: Seq<Vma>, a: int) -> bool {
    exists|i: int| 0 <= i < s.len() && in_vma(#[trigger] s[i], a)
}

/// Every address of `[start, end)` lies in some region of `s`.
pub open spec fn covers_range(s: Seq<Vma>, start: int, end: int) -> bool {
    forall|a: int| start <= a < end ==> covers(s, a)
}

/// The pieces of `v` that lie outside `[start, end)`.
pub open spec fn cut_out(v: Vma, start: usize, end: usize) -> Seq<Vma> {
    if v.end <= start || v.start >= end {
        seq![v]
    } else {
        let left = if v.start < start {
            seq![Vma { start: v.start, end: start, prot: v.prot, flags: v.flags }]
        } else {
            Seq::empty()
        };
        let right = if v.end > end {
            seq![Vma { start: end, end: v.end, prot: v.prot, flags: v.flags }]
        } else {
            Seq::empty()
        };
        left + right
    }
}

/// The region list with `[start, end)` punched out of every region.
pub open spec fn spec_remove_range(s: Seq<Vma>, start: usize, end: usize) -> Seq<Vma>
    decreases s.len(),
{
    if s.len() == 0 {
        Seq::empty()
    } else {
        spec_remove_range(s.drop_last(), start, end) + cut_out(s.last(), start, end)
    }
}

/// The overlap of each region with `[start, end)`, as (start, end, flags).
pub open spec fn spec_segments(s: Seq<Vma>, start: usize, end: usize) -> Seq<(usize, usize, u32)>
    decreases s.len(),
{
    if s.len() == 0 {
        Seq::empty()
    } else {
        let prev = spec_segments(s.drop_last(), start, end);
        let v = s.last();
        let seg_start = if v.start > start { v.start } else { start };
        let seg_end = if v.end < end { v.end } else { end };
        if seg_start < seg_end {
            prev.push((seg_start, seg_end, v.flags))
        } else {
            prev
        }
    }
}

/// Applies `insert_vma(seg_start, seg_end, prot, seg_flags)` for every segment in order.
pub open spec fn apply_segments(s: Seq<Vma>, segs: Seq<(usize, usize, u32)>, prot: u32) -> Seq<Vma>
    decreases segs.len(),
{
    if segs.len() == 0 {
        s
    } else {
        let prev = apply_segments(s, segs.drop_last(), prot);
        let g = segs.last();
        spec_insert_vma(prev, g.0, g.1, prot, g.2)
    }
}

} // verus!
