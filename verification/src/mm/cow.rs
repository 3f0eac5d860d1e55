//! Copy-on-write share counts of physical frames and the shared zero page.
//!
//! A frame not in the table has an implicit count of one (its single
//! owner). Sharing a frame raises its count; dropping a sharer lowers it and
//! frees the frame when the last owner lets go. The zero page carries a
//! sentinel count and is never freed.

use vstd::prelude::*;
use std::collections::BTreeMap;
use crate::mm::pmm::{PhysicalMemoryManager, PAGE_SIZE, alloc_frame, free_frame};

verus! {

broadcast use {vstd::std_specs::btree::group_btree_axioms, vstd::laws_cmp::group_laws_cmp};

/// Count of the zero page: it is never freed.
pub const SENTINEL: u32 = 0xFFFF_FFFF;

/// The frame holding physical address `phys`.
pub open spec fn frame_of(phys: usize) -> usize {
    phys & !0xFFFusize
}

/// The share count of the frame of `phys` in table `m` (one if untracked).
pub open spec fn count_in(m: Map<usize, u32>, phys: usize) -> u32 {
    if m.contains_key(frame_of(phys)) { m[frame_of(phys)] } else { 1 }
}

/// The counts after a sharer is added to the frame of `phys`: an
/// untracked frame goes from its implicit one to two; counts saturate at
/// the sentinel.
pub open spec fn counts_after_inc(m: Map<usize, u32>, phys: usize) -> Map<usize, u32> {
    m.insert(
        frame_of(phys),
        if count_in(m, phys) == SENTINEL { SENTINEL } else { (count_in(m, phys) + 1) as u32 },
    )
}

/// The counts after a sharer of the frame of `phys` is dropped, and
/// whether that frees the frame: the sentinel stays; a count above one
/// drops by one; a count of one or less, or an untracked frame, leaves the
/// table and the frame is freed.
pub open spec fn counts_after_dec(m: Map<usize, u32>, phys: usize) -> (Map<usize, u32>, bool) {
    let f = frame_of(phys);
    if m.contains_key(f) && m[f] == SENTINEL {
        (m, false)
    } else if m.contains_key(f) && m[f] > 1 {
        (m.insert(f, (m[f] - 1) as u32), false)
    } else {
        (m.remove(f), true)
    }
}

/// Adding a sharer and then dropping one frees nothing and leaves every
/// frame's share count as it was, unless the count had come so near the
/// sentinel that it saturated.
pub proof fn lemma_inc_then_dec(m: Map<usize, u32>, phys: usize)
    requires
        1 <= count_in(m, phys) < SENTINEL - 1,
    ensures
        ({
            let (m2, freed) = counts_after_dec(counts_after_inc(m, phys), phys);
            &&& !freed
            &&& forall|q: usize| #[trigger] count_in(m2, q) == count_in(m, q)
        }),
{
    let m1 = counts_after_inc(m, phys);
    let (m2, freed) = counts_after_dec(m1, phys);
    assert(m2 == m1.insert(frame_of(phys), count_in(m, phys)));
    assert forall|q: usize| #[trigger] count_in(m2, q) == count_in(m, q) by {
        if frame_of(q) != frame_of(phys) {
            assert(m2.contains_key(frame_of(q)) == m.contains_key(frame_of(q)));
        }
    }
}

/// Share counts and the zero page.
pub struct FrameRefs {
    refs: BTreeMap<usize, u32>,
    zero_page: Option<usize>,
}

impl FrameRefs {
    /// Counts of tracked frames.
    pub closed spec fn refs(&self) -> Map<usize, u32> {
        self.refs@
    }

    /// The zero page, once allocated.
    pub closed spec fn zero(&self) -> Option<usize> {
        self.zero_page
    }

    /// The zero page, once there, carries the sentinel count.
    pub closed spec fn wf(&self) -> bool {
        self.zero_page matches Some(z) ==> self.refs@.contains_key(z) && self.refs@[z] == SENTINEL
    }

    /// No frame shared, no zero page yet.
    pub fn new() -> (r: Self)
        ensures
            r.wf(),
            r.refs() == Map::<usize, u32>::empty(),
            r.zero() is None,
    {
        FrameRefs { refs: BTreeMap::new(), zero_page: None }
    }

    /// The physical address of the zero page, allocating a frame for it
    /// (with the sentinel count) on first use; every later call gives the
    /// same address. A newly allocated frame is the caller's to clear.
    pub fn zero_page_phys(&mut self, pmm: &mut Option<PhysicalMemoryManager>) -> (r: usize)
        requires
            old(self).wf(),
            *old(pmm) matches Some(m) ==> m.wf(),
            old(self).zero() is None ==> (*old(pmm) matches Some(m) && m.next_single() is Some),
        ensures
            final(self).wf(),
            *final(pmm) matches Some(m) ==> m.wf(),
            final(self).zero() == Some(r),
            old(self).zero() matches Some(z) ==> r == z && *final(self) == *old(self) && *final(pmm) == *old(pmm),
            old(self).zero() is None ==> {
                &&& (*old(pmm) matches Some(m) && r == (m.next_single()->Some_0 * PAGE_SIZE) as usize)
                &&& final(self).zero() == Some(r)
                &&& final(self).refs() == old(self).refs().insert(r, SENTINEL)
                &&& *final(pmm) matches Some(m2) && m2.frames() == old(pmm)->Some_0.frames().update(old(pmm)->Some_0.next_single()->Some_0, true)
            },
    {
        if let Some(phys) = self.zero_page {
            return phys;
        }
        let phys = match alloc_frame(pmm) {
            Some(p) => p,
            None => {
                proof {
                    assert(false);
                }
                0
            },
        };
        self.refs.insert(phys, SENTINEL);
        self.zero_page = Some(phys);
        phys
    }

    /// Adds a sharer to the frame of `phys`: an untracked frame goes from
    /// its implicit one to two; counts saturate at the sentinel.
    pub fn cow_inc_ref(&mut self, phys: usize)
        requires
            old(self).wf(),
        ensures
            final(self).wf(),
            final(self).zero() == old(self).zero(),
            final(self).refs() == counts_after_inc(old(self).refs(), phys),
    {
        let frame = phys & !(PAGE_SIZE - 1);
        let count: u32 = match self.refs.get(&frame) {
            Some(c) => *c,
            None => 1,
        };
        self.refs.insert(frame, count.saturating_add(1));
    }

    /// Drops a sharer of the frame of `phys` and says whether the frame was
    /// freed: the zero page (sentinel) never is; a count of one or less, or
    /// an untracked frame, means the last owner is done and the frame goes
    /// back to `pmm`; otherwise the count drops by one.
    pub fn cow_dec_ref(&mut self, phys: usize, pmm: &mut Option<PhysicalMemoryManager>) -> (freed: bool)
        requires
            old(self).wf(),
            *old(pmm) matches Some(m) ==> m.wf(),
        ensures
            final(self).wf(),
            *final(pmm) matches Some(m) ==> m.wf(),
            final(self).zero() == old(self).zero(),
            (final(self).refs(), freed) == counts_after_dec(old(self).refs(), phys),
            ({
                let f = frame_of(phys);
                if !freed {
                    *final(pmm) == *old(pmm)
                } else {
                    &&& (*old(pmm) matches Some(p) ==> (*final(pmm) matches Some(q) && (
                        if (f / PAGE_SIZE) < p.total() && p.frames()[(f / PAGE_SIZE) as int] {
                            q.frames() == p.frames().update((f / PAGE_SIZE) as int, false)
                        } else {
                            q == p
                        })))
                    &&& (*old(pmm) is None ==> *final(pmm) == *old(pmm))
                }
            }),
    {
        let frame = phys & !(PAGE_SIZE - 1);
        let current: Option<u32> = match self.refs.get(&frame) {
            Some(c) => Some(*c),
            None => None,
        };
        match current {
            Some(c) => {
                if c == SENTINEL {
                    return false;
                }
                if c <= 1 {
                    self.refs.remove(&frame);
                    proof {
                        assert(self.zero_page matches Some(z) ==> z != frame);
                    }
                    free_frame(pmm, frame);
                    return true;
                }
                self.refs.insert(frame, c - 1);
                false
            },
            None => {
                proof {
                    assert(self.refs@.remove(frame) =~= self.refs@);
                }
                free_frame(pmm, frame);
                true
            },
        }
    }

    /// The share count of the frame of `phys` (one if untracked).
    pub fn cow_ref_count(&self, phys: usize) -> (r: u32)
        ensures
            r == count_in(self.refs(), phys),
    {
        let frame = phys & !(PAGE_SIZE - 1);
        match self.refs.get(&frame) {
            Some(c) => *c,
            None => 1,
        }
    }
}

} // verus!
