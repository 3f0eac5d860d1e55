//! Physical memory manager: a bitmap frame allocator, one bit per 4 KiB
//! frame (1 = used), built from the bootloader's memory map.

use vstd::prelude::*;
use crate::boot::limine::{LimineMemmapEntry, LIMINE_MEMMAP_USABLE};

verus! {

/// Size of a physical frame.
pub const PAGE_SIZE: usize = 4096;

/// Bit `k` of byte `b`.
pub open spec fn byte_bit(b: u8, k: int) -> bool {
    (b >> (k as u8)) & 1u8 == 1u8
}

/// Number of `true` entries of `s`.
pub open spec fn count_used(s: Seq<bool>) -> nat
    decreases s.len(),
{
    if s.len() == 0 {
        0
    } else {
        count_used(s.drop_last()) + if s.last() { 1nat } else { 0nat }
    }
}

proof fn lemma_count_le_len(s: Seq<bool>)
    ensures
        count_used(s) <= s.len(),
    decreases s.len(),
{
    if s.len() > 0 {
        lemma_count_le_len(s.drop_last());
    }
}

proof fn lemma_count_update(s: Seq<bool>, i: int, v: bool)
    requires
        0 <= i < s.len(),
    ensures
        count_used(s.update(i, v)) + (if s[i] { 1int } else { 0int })
            == count_used(s) + (if v { 1int } else { 0int }),
    decreases s.len(),
{
    let t = s.update(i, v);
    if i == s.len() - 1 {
        assert(t.drop_last() =~= s.drop_last());
    } else {
        lemma_count_update(s.drop_last(), i, v);
        assert(t.drop_last() =~= s.drop_last().update(i, v));
    }
}

proof fn lemma_count_all_true(n: nat)
    ensures
        count_used(Seq::new(n, |i: int| true)) == n,
    decreases n,
{
    if n > 0 {
        lemma_count_all_true((n - 1) as nat);
        assert(Seq::new(n, |i: int| true).drop_last() =~= Seq::new((n - 1) as nat, |i: int| true));
    }
}

proof fn lemma_set_bit(b: u8, k: u8, j: u8)
    requires
        k < 8,
        j < 8,
    ensures
        ((b | (1u8 << k)) >> j) & 1u8 == (if j == k { 1u8 } else { (b >> j) & 1u8 }),
        ((b & !(1u8 << k)) >> j) & 1u8 == (if j == k { 0u8 } else { (b >> j) & 1u8 }),
{
    assert(((b | (1u8 << k)) >> j) & 1u8 == (if j == k { 1u8 } else { (b >> j) & 1u8 })) by (bit_vector)
        requires k < 8, j < 8;
    assert(((b & !(1u8 << k)) >> j) & 1u8 == (if j == k { 0u8 } else { (b >> j) & 1u8 })) by (bit_vector)
        requires k < 8, j < 8;
}

/// The frames `[lo, hi)` that are free in `frames`; the first one, if any.
pub open spec fn first_free(frames: Seq<bool>, lo: int, hi: int) -> Option<int>
    decreases hi - lo,
{
    if lo >= hi {
        None
    } else if 0 <= lo < frames.len() && !frames[lo] {
        Some(lo)
    } else {
        first_free(frames, lo + 1, hi)
    }
}

/// A frame `first_free` finds lies in the range and is free.
proof fn lemma_first_free_is_free(frames: Seq<bool>, lo: int, hi: int)
    ensures
        first_free(frames, lo, hi) matches Some(f) ==> lo <= f < hi && 0 <= f < frames.len() && !frames[f],
    decreases hi - lo,
{
    if lo < hi && !(0 <= lo < frames.len() && !frames[lo]) {
        lemma_first_free_is_free(frames, lo + 1, hi);
    }
}

/// Frames `[s, s + n)` exist and are all free.
pub open spec fn free_run(frames: Seq<bool>, s: int, n: int) -> bool {
    1 <= s && s + n <= frames.len() && forall|i: int| s <= i < s + n ==> !#[trigger] frames[i]
}

/// The lowest start of `n` consecutive free frames, not counting frame 0.
pub open spec fn first_free_run(frames: Seq<bool>, n: int) -> Option<int> {
    if exists|s: int| free_run(frames, s, n) {
        Some(choose|s: int| free_run(frames, s, n) && forall|t: int| t < s ==> !free_run(frames, t, n))
    } else {
        None
    }
}


/// The first frame of memory map entry `e`.
pub open spec fn entry_start(e: LimineMemmapEntry) -> int {
    (e.base as usize) as int / PAGE_SIZE as int
}

/// The number of whole frames of memory map entry `e`.
pub open spec fn entry_frames(e: LimineMemmapEntry) -> int {
    (e.length as usize) as int / PAGE_SIZE as int
}

/// Frame `f` lies in a usable entry among the first `n` of `entries`.
pub open spec fn in_usable(entries: Seq<LimineMemmapEntry>, n: int, f: int) -> bool {
    exists|i: int| 0 <= i < n && entries[i].typ == LIMINE_MEMMAP_USABLE
        && entry_start(entries[i]) <= f < entry_start(entries[i]) + entry_frames(entries[i])
}

/// The highest end address of a usable entry among the first `n`.
pub open spec fn usable_top(entries: Seq<LimineMemmapEntry>, n: int) -> u64
    decreases n,
{
    if n <= 0 {
        0
    } else {
        let prev = usable_top(entries, n - 1);
        let e = entries[n - 1];
        if e.typ == LIMINE_MEMMAP_USABLE && (e.base + e.length) as u64 > prev { (e.base + e.length) as u64 } else { prev }
    }
}

/// Total usable frames of the first `n` entries.
pub open spec fn usable_frames(entries: Seq<LimineMemmapEntry>, n: int) -> int
    decreases n,
{
    if n <= 0 {
        0
    } else {
        usable_frames(entries, n - 1) + if entries[n - 1].typ == LIMINE_MEMMAP_USABLE { entry_frames(entries[n - 1]) } else { 0 }
    }
}

/// The index of the first usable entry from `i` on with at least `size`
/// bytes, where the bitmap goes.
pub open spec fn bitmap_entry(entries: Seq<LimineMemmapEntry>, i: int, size: int) -> Option<int>
    decreases entries.len() - i,
{
    if i < 0 || i >= entries.len() {
        None
    } else if entries[i].typ == LIMINE_MEMMAP_USABLE && (entries[i].length as usize) >= size {
        Some(i)
    } else {
        bitmap_entry(entries, i + 1, size)
    }
}

/// A memory map the allocator can be built from: usable entries end
/// without overflow and a page below the top of the address space, and
/// their frames do not overlap (as the boot protocol guarantees).
pub open spec fn memmap_ok(entries: Seq<LimineMemmapEntry>) -> bool {
    &&& forall|i: int| 0 <= i < entries.len() && entries[i].typ == LIMINE_MEMMAP_USABLE
        ==> #[trigger] entries[i].base + entries[i].length + PAGE_SIZE <= usize::MAX
    &&& forall|i: int, j: int| 0 <= i < entries.len() && 0 <= j < entries.len() && i != j
        && entries[i].typ == LIMINE_MEMMAP_USABLE && entries[j].typ == LIMINE_MEMMAP_USABLE
        ==> #[trigger] entry_start(entries[i]) + entry_frames(entries[i]) <= entry_start(entries[j])
            || #[trigger] entry_start(entries[j]) + entry_frames(entries[j]) <= entry_start(entries[i])
}

/// The frame count of a memory map whose highest usable address is `top`.
pub open spec fn frames_below(top: u64) -> int {
    ((top as usize) as int + PAGE_SIZE - 1) / PAGE_SIZE as int
}

/// Where the bitmap of a map goes, as a physical address.
pub open spec fn bitmap_place(entries: Seq<LimineMemmapEntry>) -> u64 {
    let size = (frames_below(usable_top(entries, entries.len() as int)) + 7) / 8;
    match bitmap_entry(entries, 0, size) {
        Some(i) => entries[i].base,
        None => 0,
    }
}

/// Frames holding the bitmap of a map: its first frame and its count.
pub open spec fn bitmap_frames(entries: Seq<LimineMemmapEntry>) -> (int, int) {
    let size = (frames_below(usable_top(entries, entries.len() as int)) + 7) / 8;
    ((bitmap_place(entries) as usize) as int / PAGE_SIZE as int, (size + PAGE_SIZE - 1) / PAGE_SIZE as int)
}

/// The bitmap frame allocator.
pub struct PhysicalMemoryManager {
    bitmap: Vec<u8>,
    total_frames: usize,
    free_frames: usize,
    last_frame: usize,
}

impl PhysicalMemoryManager {
    /// Which frames are in use, frame by frame.
    pub closed spec fn frames(&self) -> Seq<bool> {
        Seq::new(self.total_frames as nat, |i: int| byte_bit(self.bitmap@[i / 8], i % 8))
    }

    /// Number of frames managed.
    pub closed spec fn total(&self) -> nat {
        self.total_frames as nat
    }

    /// The free-frame counter.
    pub closed spec fn free_count(&self) -> nat {
        self.free_frames as nat
    }

    /// Where the next single-frame search starts.
    pub closed spec fn next_search(&self) -> nat {
        self.last_frame as nat
    }

    /// Frame `f` counts as used: out of range, or its bit is set.
    pub open spec fn is_used(&self, f: int) -> bool {
        f < 0 || f >= self.total() || self.frames()[f]
    }

    /// The bitmap covers every frame, every frame address fits in a
    /// `usize`, and the counter plus the used frames never exceed the
    /// frames by more than one (frame 0 is reserved without being counted).
    pub closed spec fn wf(&self) -> bool {
        &&& self.bitmap@.len() * 8 >= self.total_frames
        &&& self.total_frames * PAGE_SIZE <= usize::MAX
        &&& self.free_frames + count_used(self.frames()) <= self.total_frames + 1
    }

    /// The single frame `alloc_frame` takes: the first free one from the
    /// search start, else the first free one from frame 1 up to the start.
    pub open spec fn next_single(&self) -> Option<int> {
        match first_free(self.frames(), self.next_search() as int, self.total() as int) {
            Some(f) => Some(f),
            None => first_free(self.frames(), 1, if self.next_search() < self.total() { self.next_search() as int } else { self.total() as int }),
        }
    }


    /// `after` is this allocator once `alloc_frame` returned `r`: the frame
    /// `next_single` names is marked used and its address returned, the
    /// counter drops by one (not below zero) and the search resumes after
    /// it; with no free frame nothing changes.
    pub open spec fn alloc_outcome(&self, after: &Self, r: Option<usize>) -> bool {
        &&& after.total() == self.total()
        &&& match self.next_single() {
            Some(f) => {
                &&& r == Some((f * PAGE_SIZE) as usize)
                &&& after.frames() == self.frames().update(f, true)
                &&& after.free_count() == if self.free_count() > 0 { self.free_count() - 1 } else { 0 }
                &&& after.next_search() == f + 1
            },
            None => r is None && *after == *self,
        }
    }

    /// `after` is this allocator once `alloc_contiguous_frames(count)`
    /// returned `r`: nothing for a count of zero; one frame as
    /// `alloc_frame` takes it; otherwise the lowest run of `count` free
    /// frames is marked used and its first address returned, the counter
    /// drops by `count` (not below zero) and the search position stays;
    /// with no such run nothing changes.
    pub open spec fn contiguous_outcome(&self, after: &Self, count: usize, r: Option<usize>) -> bool {
        &&& after.total() == self.total()
        &&& count == 0 ==> r is None && *after == *self
        &&& count == 1 ==> self.alloc_outcome(after, r)
        &&& count > 1 ==> match first_free_run(self.frames(), count as int) {
            Some(s) => {
                &&& r == Some((s * PAGE_SIZE) as usize)
                &&& after.frames() == Seq::new(self.total(), |i: int|
                        if s <= i < s + count { true } else { self.frames()[i] })
                &&& after.free_count() == if self.free_count() >= count { self.free_count() - count } else { 0 }
                &&& after.next_search() == self.next_search()
            },
            None => r is None && *after == *self,
        }
    }

    /// `after` is this allocator once `free_frame(phys_addr)` returned: a
    /// managed frame in use is marked free, the counter rises by one and the
    /// search moves back to it when it lies before the search start;
    /// anything else changes nothing.
    pub open spec fn free_outcome(&self, after: &Self, phys_addr: usize) -> bool {
        &&& after.total() == self.total()
        &&& ({
            let f = phys_addr / PAGE_SIZE;
            if f < self.total() && self.frames()[f as int] {
                &&& after.frames() == self.frames().update(f as int, false)
                &&& after.free_count() == self.free_count() + 1
                &&& after.next_search() == if f < self.next_search() { f as nat } else { self.next_search() }
            } else {
                *after == *self
            }
        })
    }

    /// Two allocations in a row, with no free in between, hand out
    /// distinct frames.
    pub proof fn lemma_two_allocs_distinct(p0: Self, p1: Self, p2: Self, a: usize, b: usize)
        requires
            p0.wf(),
            p0.alloc_outcome(&p1, Some(a)),
            p1.alloc_outcome(&p2, Some(b)),
        ensures
            a != b,
    {
        let f = p0.next_single().unwrap();
        lemma_first_free_is_free(p0.frames(), p0.next_search() as int, p0.total() as int);
        lemma_first_free_is_free(p0.frames(), 1, if p0.next_search() < p0.total() { p0.next_search() as int } else { p0.total() as int });
        let g = p1.next_single().unwrap();
        lemma_first_free_is_free(p1.frames(), p1.next_search() as int, p1.total() as int);
        lemma_first_free_is_free(p1.frames(), 1, if p1.next_search() < p1.total() { p1.next_search() as int } else { p1.total() as int });
        assert(0 <= f < p0.total());
        assert(p1.frames()[f]);
        assert(!p1.frames()[g]);
        assert(f != g);
        assert(f * PAGE_SIZE <= p0.total() * PAGE_SIZE) by (nonlinear_arith)
            requires f < p0.total();
        assert(g * PAGE_SIZE <= p1.total() * PAGE_SIZE) by (nonlinear_arith)
            requires g < p1.total();
        assert(f * PAGE_SIZE != g * PAGE_SIZE) by (nonlinear_arith)
            requires f != g;
    }

    /// A frame `alloc_frame` hands out and `free_frame` takes back leaves
    /// every frame as it was, and the counter too unless it had run down
    /// to zero; the next `alloc_frame` hands out that frame again.
    pub proof fn lemma_alloc_then_free(p0: Self, p1: Self, p2: Self, a: usize)
        requires
            p0.wf(),
            p0.alloc_outcome(&p1, Some(a)),
            p1.free_outcome(&p2, a),
        ensures
            p2.total() == p0.total(),
            p2.frames() == p0.frames(),
            p0.free_count() > 0 ==> p2.free_count() == p0.free_count(),
            p2.next_single() == Some((a / PAGE_SIZE) as int),
    {
        let f = p0.next_single().unwrap();
        lemma_first_free_is_free(p0.frames(), p0.next_search() as int, p0.total() as int);
        lemma_first_free_is_free(p0.frames(), 1, if p0.next_search() < p0.total() { p0.next_search() as int } else { p0.total() as int });
        assert(0 <= f < p0.total());
        assert(!p0.frames()[f]);
        assert(f * PAGE_SIZE <= p0.total() * PAGE_SIZE) by (nonlinear_arith)
            requires f < p0.total();
        assert(a == f * PAGE_SIZE);
        assert(a / PAGE_SIZE == f) by (nonlinear_arith)
            requires a == f * PAGE_SIZE, PAGE_SIZE == 4096;
        assert(p1.frames()[f]);
        assert(p2.frames() =~= p0.frames());
        assert(p2.next_search() == f);
        assert(first_free(p2.frames(), f, p2.total() as int) == Some(f));
    }

    /// Builds the allocator from the boot memory map: the frames up to the
    /// highest usable address are managed, every frame starts used, the
    /// frames of usable entries are freed and counted, then frame 0 and the
    /// frames holding the bitmap (placed at the first usable entry large
    /// enough for it) are marked used again, each of the latter taking one
    /// off the counter (not below zero). The search starts at frame 1.
    pub fn from_memmap(entries: &Vec<LimineMemmapEntry>) -> (r: Self)
        requires
            memmap_ok(entries@),
        ensures
            r.wf(),
            r.total() == frames_below(usable_top(entries@, entries@.len() as int)),
            r.next_search() == 1,
            forall|f: int| 0 <= f < r.total() ==> #[trigger] r.frames()[f] == (
                !in_usable(entries@, entries@.len() as int, f) || f == 0
                    || (bitmap_frames(entries@).0 <= f < bitmap_frames(entries@).0 + bitmap_frames(entries@).1)),
            r.free_count() == if usable_frames(entries@, entries@.len() as int) >= bitmap_frames(entries@).1 {
                usable_frames(entries@, entries@.len() as int) - bitmap_frames(entries@).1
            } else {
                0
            },
    {
        let n = entries.len();
        let mut highest: u64 = 0;
        let mut i: usize = 0;
        while i < n
            invariant
                n == entries@.len(),
                i <= n,
                memmap_ok(entries@),
                highest == usable_top(entries@, i as int),
                highest as int + PAGE_SIZE <= usize::MAX,
            decreases n - i,
        {
            let e = entries[i];
            if e.typ == LIMINE_MEMMAP_USABLE {
                let top = e.base + e.length;
                if top > highest {
                    highest = top;
                }
            }
            i += 1;
        }
        let total_frames: usize = ((highest as usize) + (PAGE_SIZE - 1)) / PAGE_SIZE;
        let bitmap_size: usize = (total_frames + 7) / 8;
        let mut bitmap_addr: u64 = 0;
        let mut i: usize = 0;
        while i < n
            invariant_except_break
                n == entries@.len(),
                i <= n,
                bitmap_entry(entries@, 0, bitmap_size as int) == bitmap_entry(entries@, i as int, bitmap_size as int),
                bitmap_addr == 0,
            ensures
                bitmap_addr == match bitmap_entry(entries@, 0, bitmap_size as int) {
                    Some(j) => entries@[j].base,
                    None => 0u64,
                },
            decreases n - i,
        {
            let e = entries[i];
            if e.typ == LIMINE_MEMMAP_USABLE && (e.length as usize) >= bitmap_size {
                bitmap_addr = e.base;
                break;
            }
            i += 1;
        }
        let mut bitmap: Vec<u8> = Vec::new();
        let mut k: usize = 0;
        while k < bitmap_size
            invariant
                k <= bitmap_size,
                bitmap@.len() == k,
                forall|j: int| 0 <= j < k ==> #[trigger] bitmap@[j] == 0xFFu8,
            decreases bitmap_size - k,
        {
            bitmap.push(0xFFu8);
            k += 1;
        }
        let mut m = PhysicalMemoryManager { bitmap, total_frames, free_frames: 0, last_frame: 1 };
        proof {
            assert forall|f: int| 0 <= f < m.total() implies #[trigger] m.frames()[f] by {
                let kk = (f % 8) as u8;
                assert((0xFFu8 >> kk) & 1u8 == 1u8) by (bit_vector) requires kk < 8;
            }
            assert(m.frames() =~= Seq::new(total_frames as nat, |f: int| true));
            lemma_count_all_true(total_frames as nat);
            assert(bitmap_size * 8 >= total_frames);
            assert(total_frames * PAGE_SIZE <= usize::MAX);
        }
        let mut i: usize = 0;
        while i < n
            invariant
                n == entries@.len(),
                i <= n,
                memmap_ok(entries@),
                highest == usable_top(entries@, n as int),
                highest as int + PAGE_SIZE <= usize::MAX,
                total_frames as int == frames_below(highest),
                m.bitmap@.len() * 8 >= m.total_frames,
                m.total_frames == total_frames,
                total_frames * PAGE_SIZE <= usize::MAX,
                m.last_frame == 1,
                forall|g: int| 0 <= g < total_frames ==> #[trigger] m.frames()[g] == !in_usable(entries@, i as int, g),
                m.free_frames == usable_frames(entries@, i as int),
                m.free_frames + count_used(m.frames()) == total_frames,
            decreases n - i,
        {
            let e = entries[i];
            if e.typ == LIMINE_MEMMAP_USABLE {
                let start_frame = (e.base as usize) / PAGE_SIZE;
                let frame_count = (e.length as usize) / PAGE_SIZE;
                proof {
                    lemma_usable_below_top(entries@, i as int, n as int);
                    assert(start_frame + frame_count <= total_frames) by (nonlinear_arith)
                        requires
                            start_frame == (e.base as usize) / 4096,
                            frame_count == (e.length as usize) / 4096,
                            e.base + e.length <= highest,
                            highest as int + 4096 <= usize::MAX,
                            total_frames == ((highest as usize) + 4095) / 4096;
                }
                let mut f = start_frame;
                while f < start_frame + frame_count
                    invariant
                        n == entries@.len(),
                        i < n,
                        memmap_ok(entries@),
                        e == entries@[i as int],
                        e.typ == LIMINE_MEMMAP_USABLE,
                        start_frame == entry_start(e),
                        frame_count == entry_frames(e),
                        start_frame <= f <= start_frame + frame_count,
                        start_frame + frame_count <= total_frames,
                        m.bitmap@.len() * 8 >= m.total_frames,
                        m.total_frames == total_frames,
                        total_frames * PAGE_SIZE <= usize::MAX,
                        m.last_frame == 1,
                        forall|g: int| 0 <= g < total_frames ==> #[trigger] m.frames()[g]
                            == !(in_usable(entries@, i as int, g) || (start_frame <= g < f)),
                        m.free_frames == usable_frames(entries@, i as int) + (f - start_frame),
                        m.free_frames + count_used(m.frames()) == total_frames,
                    decreases start_frame + frame_count - f,
                {
                    proof {
                        if in_usable(entries@, i as int, f as int) {
                            let j = choose|j: int| 0 <= j < i && entries@[j].typ == LIMINE_MEMMAP_USABLE
                                && entry_start(entries@[j]) <= f < entry_start(entries@[j]) + entry_frames(entries@[j]);
                            assert(entry_start(entries@[j]) + entry_frames(entries@[j]) <= entry_start(entries@[i as int])
                                || entry_start(entries@[i as int]) + entry_frames(entries@[i as int]) <= entry_start(entries@[j]));
                        }
                        assert(m.frames()[f as int]);
                        lemma_count_update(m.frames(), f as int, false);
                    }
                    m.set_bit(f, false);
                    m.free_frames = m.free_frames + 1;
                    f += 1;
                }
                proof {
                    assert forall|g: int| 0 <= g < total_frames implies #[trigger] m.frames()[g]
                        == !in_usable(entries@, i as int + 1, g) by {
                        if in_usable(entries@, i as int + 1, g) && !in_usable(entries@, i as int, g) {
                            let j = choose|j: int| 0 <= j < i + 1 && entries@[j].typ == LIMINE_MEMMAP_USABLE
                                && entry_start(entries@[j]) <= g < entry_start(entries@[j]) + entry_frames(entries@[j]);
                            assert(j == i);
                        }
                        if in_usable(entries@, i as int, g) {
                            let j = choose|j: int| 0 <= j < i && entries@[j].typ == LIMINE_MEMMAP_USABLE
                                && entry_start(entries@[j]) <= g < entry_start(entries@[j]) + entry_frames(entries@[j]);
                            assert(0 <= j < i + 1);
                        }
                        if start_frame <= g < start_frame + frame_count {
                            assert(0 <= i < i + 1 && entries@[i as int].typ == LIMINE_MEMMAP_USABLE
                                && entry_start(entries@[i as int]) <= g < entry_start(entries@[i as int]) + entry_frames(entries@[i as int]));
                        }
                    }
                }
            } else {
                proof {
                    assert forall|g: int| 0 <= g < total_frames implies #[trigger] m.frames()[g]
                        == !in_usable(entries@, i as int + 1, g) by {
                        if in_usable(entries@, i as int + 1, g) {
                            let j = choose|j: int| 0 <= j < i + 1 && entries@[j].typ == LIMINE_MEMMAP_USABLE
                                && entry_start(entries@[j]) <= g < entry_start(entries@[j]) + entry_frames(entries@[j]);
                            assert(0 <= j < i);
                        }
                        if in_usable(entries@, i as int, g) {
                            let j = choose|j: int| 0 <= j < i && entries@[j].typ == LIMINE_MEMMAP_USABLE
                                && entry_start(entries@[j]) <= g < entry_start(entries@[j]) + entry_frames(entries@[j]);
                            assert(0 <= j < i + 1);
                        }
                    }
                }
            }
            i += 1;
        }
        // Frame 0 is never handed out.
        proof {
            if 0 < total_frames {
                lemma_count_update(m.frames(), 0, true);
            }
            lemma_count_le_len(m.frames());
        }
        m.set_bit(0, true);
        let ghost after_usable = m.frames();
        proof {
            lemma_bitmap_entry(entries@, 0, bitmap_size as int);
        }
        let bitmap_start: usize = (bitmap_addr as usize) / PAGE_SIZE;
        let bitmap_count: usize = (bitmap_size + (PAGE_SIZE - 1)) / PAGE_SIZE;
        assert(bitmap_start + bitmap_count <= usize::MAX) by (nonlinear_arith)
            requires
                bitmap_addr as int + 4096 <= usize::MAX,
                bitmap_start == (bitmap_addr as usize) / 4096,
                total_frames * 4096 <= usize::MAX,
                bitmap_size == (total_frames + 7) / 8,
                bitmap_count == (bitmap_size + 4095) / 4096;
        let ghost free0 = m.free_frames;
        let mut f = bitmap_start;
        while f < bitmap_start + bitmap_count
            invariant
                bitmap_start <= f <= bitmap_start + bitmap_count,
                bitmap_start + bitmap_count <= usize::MAX,
                m.bitmap@.len() * 8 >= m.total_frames,
                m.total_frames == total_frames,
                total_frames * PAGE_SIZE <= usize::MAX,
                m.last_frame == 1,
                after_usable.len() == total_frames,
                forall|g: int| 0 <= g < total_frames ==> #[trigger] m.frames()[g]
                    == (after_usable[g] || (bitmap_start <= g < f)),
                m.free_frames == if free0 >= f - bitmap_start { free0 - (f - bitmap_start) } else { 0 },
                m.free_frames + count_used(m.frames()) <= total_frames + 1,
            decreases bitmap_start + bitmap_count - f,
        {
            proof {
                if f < total_frames {
                    lemma_count_update(m.frames(), f as int, true);
                    lemma_count_le_len(m.frames().update(f as int, true));
                }
                lemma_count_le_len(m.frames());
            }
            m.set_bit(f, true);
            m.free_frames = m.free_frames.saturating_sub(1);
            f += 1;
        }
        proof {
            assert(m.frames().len() == total_frames);
        }
        m
    }

    fn set_bit(&mut self, frame_idx: usize, used: bool)
        requires
            old(self).bitmap@.len() * 8 >= old(self).total_frames,
        ensures
            final(self).frames() == if frame_idx < old(self).total_frames {
                old(self).frames().update(frame_idx as int, used)
            } else {
                old(self).frames()
            },
            final(self).bitmap@.len() == old(self).bitmap@.len(),
            final(self).total_frames == old(self).total_frames,
            final(self).free_frames == old(self).free_frames,
            final(self).last_frame == old(self).last_frame,
    {
        if frame_idx >= self.total_frames {
            return;
        }
        let byte_idx = frame_idx / 8;
        let bit_idx = (frame_idx % 8) as u8;
        let old_byte = self.bitmap[byte_idx];
        let new_byte = if used { old_byte | (1u8 << bit_idx) } else { old_byte & !(1u8 << bit_idx) };
        self.bitmap.set(byte_idx, new_byte);
        proof {
            let of = old(self).frames();
            let nf = self.frames();
            assert forall|i: int| 0 <= i < nf.len() implies nf[i] == of.update(frame_idx as int, used)[i] by {
                if i / 8 == byte_idx as int {
                    lemma_set_bit(old_byte, bit_idx, (i % 8) as u8);
                }
            }
            assert(nf =~= of.update(frame_idx as int, used));
        }
    }

    fn test_bit(&self, frame_idx: usize) -> (r: bool)
        requires
            self.bitmap@.len() * 8 >= self.total_frames,
        ensures
            r == self.is_used(frame_idx as int),
    {
        if frame_idx >= self.total_frames {
            return true;
        }
        let byte_idx = frame_idx / 8;
        let bit_idx = (frame_idx % 8) as u8;
        ((self.bitmap[byte_idx] >> bit_idx) & 1u8) == 1u8
    }

    /// Allocates one frame: the first free frame from the search start to
    /// the end, else the first free one from frame 1 to the search start.
    /// The frame is marked used, the counter drops by one (not below zero)
    /// and the search resumes after it. The result is the frame's address.
    pub fn alloc_frame(&mut self) -> (r: Option<usize>)
        requires
            old(self).wf(),
        ensures
            final(self).wf(),
            old(self).alloc_outcome(&*final(self), r),
    {
        let start = self.last_frame;
        let mut f = start;
        while f < self.total_frames
            invariant
                self.wf(),
                *self == *old(self),
                start == self.last_frame,
                start <= f,
                first_free(self.frames(), start as int, self.total() as int)
                    == first_free(self.frames(), f as int, self.total() as int),
            decreases self.total_frames - f,
        {
            if !self.test_bit(f) {
                self.take_frame(f);
                return Some(f * PAGE_SIZE);
            }
            f += 1;
        }
        let mut f: usize = 1;
        let hi: usize = if start < self.total_frames { start } else { self.total_frames };
        while f < hi
            invariant
                self.wf(),
                *self == *old(self),
                start == self.last_frame,
                hi == if start < self.total_frames { start } else { self.total_frames },
                1 <= f,
                first_free(self.frames(), start as int, self.total() as int) is None,
                first_free(self.frames(), 1, hi as int) == first_free(self.frames(), f as int, hi as int),
            decreases hi - f,
        {
            if !self.test_bit(f) {
                self.take_frame(f);
                return Some(f * PAGE_SIZE);
            }
            f += 1;
        }
        None
    }

    /// Marks free frame `f` used for a single-frame allocation.
    fn take_frame(&mut self, f: usize)
        requires
            old(self).wf(),
            f < old(self).total_frames,
            !old(self).frames()[f as int],
        ensures
            final(self).wf(),
            final(self).frames() == old(self).frames().update(f as int, true),
            final(self).total() == old(self).total(),
            final(self).free_count() == if old(self).free_count() > 0 { old(self).free_count() - 1 } else { 0 },
            final(self).next_search() == f + 1,
            f * PAGE_SIZE <= usize::MAX,
    {
        proof {
            lemma_count_update(self.frames(), f as int, true);
            lemma_count_le_len(self.frames().update(f as int, true));
            assert(f * PAGE_SIZE <= self.total_frames * PAGE_SIZE) by (nonlinear_arith)
                requires f < self.total_frames;
        }
        self.set_bit(f, true);
        self.free_frames = self.free_frames.saturating_sub(1);
        self.last_frame = f + 1;
    }

    /// Allocates `count` physically contiguous frames. Zero frames is
    /// refused; one frame is a single-frame allocation; otherwise the
    /// lowest run of `count` free frames from frame 1 on is taken, the
    /// counter drops by `count` (not below zero), and its start address is
    /// returned.
    pub fn alloc_contiguous_frames(&mut self, count: usize) -> (r: Option<usize>)
        requires
            old(self).wf(),
        ensures
            final(self).wf(),
            old(self).contiguous_outcome(&*final(self), count, r),
    {
        if count == 0 {
            return None;
        }
        if count == 1 {
            return self.alloc_frame();
        }
        let mut run_start: usize = 1;
        let mut run_len: usize = 0;
        let mut f: usize = 1;
        while f < self.total_frames
            invariant
                self.wf(),
                *self == *old(self),
                count > 1,
                1 <= f,
                f <= self.total_frames || f == 1,
                run_len < count,
                run_len < f,
                run_len > 0 ==> run_start == f - run_len,
                forall|i: int| f - run_len <= i < f ==> !#[trigger] self.frames()[i],
                f - run_len == 1 || self.frames()[f - run_len - 1],
                forall|t: int| t + count <= f ==> !free_run(self.frames(), t, count as int),
            decreases self.total_frames - f,
        {
            if !self.test_bit(f) {
                if run_len == 0 {
                    run_start = f;
                }
                run_len += 1;
                if run_len == count {
                    proof {
                        let s = run_start as int;
                        assert(free_run(self.frames(), s, count as int));
                        assert forall|t: int| t < s implies !free_run(self.frames(), t, count as int) by {
                            assert(t + count <= f);
                        }
                        lemma_first_free_run(self.frames(), count as int, s);
                    }
                    self.mark_run(run_start, count);
                    return Some(run_start * PAGE_SIZE);
                }
                proof {
                    assert forall|t: int| t + count <= f + 1 implies !free_run(self.frames(), t, count as int) by {
                        if t + count == f + 1 && free_run(self.frames(), t, count as int) {
                            let w = f + 1 - run_len;
                            if w > 1 {
                                assert(t <= w - 1 < t + count);
                                assert(self.frames()[w - 1]);
                            }
                        }
                    }
                }
            } else {
                proof {
                    assert forall|t: int| t + count <= f + 1 implies !free_run(self.frames(), t, count as int) by {
                        if t + count == f + 1 && free_run(self.frames(), t, count as int) {
                            assert(t <= f < t + count);
                        }
                    }
                }
                run_len = 0;
            }
            f += 1;
        }
        proof {
            assert forall|t: int| !free_run(self.frames(), t, count as int) by {
                if free_run(self.frames(), t, count as int) {
                    assert(t + count <= f);
                }
            }
            assert(!(exists|s: int| free_run(self.frames(), s, count as int)));
        }
        None
    }

    /// Marks the free run `[s, s + count)` used and lowers the counter.
    fn mark_run(&mut self, s: usize, count: usize)
        requires
            old(self).wf(),
            count > 1,
            free_run(old(self).frames(), s as int, count as int),
        ensures
            final(self).wf(),
            final(self).total() == old(self).total(),
            final(self).frames() == Seq::new(old(self).total(), |i: int|
                if s <= i < s + count { true } else { old(self).frames()[i] }),
            final(self).free_count() == if old(self).free_count() >= count { old(self).free_count() - count } else { 0 },
            final(self).next_search() == old(self).next_search(),
            s * PAGE_SIZE <= usize::MAX,
    {
        let mut idx = s;
        let ghost c0 = count_used(old(self).frames());
        while idx < s + count
            invariant
                s <= idx <= s + count,
                s + count <= self.total_frames,
                1 <= s,
                self.bitmap@.len() * 8 >= self.total_frames,
                self.total_frames == old(self).total_frames,
                self.free_frames == old(self).free_frames,
                self.last_frame == old(self).last_frame,
                self.total_frames * PAGE_SIZE <= usize::MAX,
                self.frames() == Seq::new(old(self).total(), |i: int|
                    if s <= i < idx { true } else { old(self).frames()[i] }),
                count_used(self.frames()) == c0 + (idx - s),
                free_run(old(self).frames(), s as int, count as int),
            decreases s + count - idx,
        {
            proof {
                lemma_count_update(self.frames(), idx as int, true);
            }
            self.set_bit(idx, true);
            proof {
                assert(self.frames() =~= Seq::new(old(self).total(), |i: int|
                    if s <= i < idx + 1 { true } else { old(self).frames()[i] }));
            }
            idx += 1;
        }
        proof {
            lemma_count_le_len(self.frames());
            assert(s * PAGE_SIZE <= self.total_frames * PAGE_SIZE) by (nonlinear_arith)
                requires s < self.total_frames;
        }
        self.free_frames = self.free_frames.saturating_sub(count);
    }

    /// Releases the frame holding `phys_addr` if it is managed and in use:
    /// its bit is cleared, the counter rises by one, and the single-frame
    /// search moves back to it when it lies before the search start.
    /// Anything else is ignored.
    pub fn free_frame(&mut self, phys_addr: usize)
        requires
            old(self).wf(),
        ensures
            final(self).wf(),
            old(self).free_outcome(&*final(self), phys_addr),
    {
        let frame_idx = phys_addr / PAGE_SIZE;
        if frame_idx < self.total_frames && self.test_bit(frame_idx) {
            proof {
                lemma_count_update(self.frames(), frame_idx as int, false);
            }
            self.set_bit(frame_idx, false);
            self.free_frames = self.free_frames + 1;
            if frame_idx < self.last_frame {
                self.last_frame = frame_idx;
            }
        }
    }

    /// `(total frames, free-frame counter)`.
    pub fn stats(&self) -> (r: (usize, usize))
        ensures
            r == (self.total() as usize, self.free_count() as usize),
    {
        (self.total_frames, self.free_frames)
    }
}

proof fn lemma_bitmap_entry(entries: Seq<LimineMemmapEntry>, i: int, size: int)
    requires
        0 <= i,
    ensures
        bitmap_entry(entries, i, size) matches Some(j) ==> i <= j < entries.len()
            && entries[j].typ == LIMINE_MEMMAP_USABLE,
    decreases entries.len() - i,
{
    if i < entries.len() {
        lemma_bitmap_entry(entries, i + 1, size);
    }
}

proof fn lemma_usable_below_top(entries: Seq<LimineMemmapEntry>, i: int, n: int)
    requires
        0 <= i < n <= entries.len(),
        entries[i].typ == LIMINE_MEMMAP_USABLE,
        memmap_ok(entries),
    ensures
        entries[i].base + entries[i].length <= usable_top(entries, n),
    decreases n,
{
    if i < n - 1 {
        lemma_usable_below_top(entries, i, n - 1);
    }
}

proof fn lemma_first_free_run(frames: Seq<bool>, n: int, s: int)
    requires
        free_run(frames, s, n),
        forall|t: int| t < s ==> !free_run(frames, t, n),
    ensures
        first_free_run(frames, n) == Some(s),
{
    let c = choose|u: int| free_run(frames, u, n) && forall|t: int| t < u ==> !free_run(frames, t, n);
    assert(free_run(frames, s, n) && forall|t: int| t < s ==> !free_run(frames, t, n));
    if c < s {
        assert(!free_run(frames, c, n));
    } else if c > s {
        assert(!free_run(frames, s, n));
    }
}

/// Allocates one frame from the installed allocator, if any.
pub fn alloc_frame(pmm: &mut Option<PhysicalMemoryManager>) -> (r: Option<usize>)
    requires
        *old(pmm) matches Some(m) ==> m.wf(),
    ensures
        *final(pmm) matches Some(m) ==> m.wf(),
        *old(pmm) is None ==> r is None && *final(pmm) == *old(pmm),
        *old(pmm) matches Some(m) ==> *final(pmm) is Some && m.alloc_outcome(&final(pmm)->Some_0, r),
{
    match pmm {
        Some(m) => m.alloc_frame(),
        None => None,
    }
}

/// Allocates `count` contiguous frames from the installed allocator, if any.
pub fn alloc_contiguous_frames(pmm: &mut Option<PhysicalMemoryManager>, count: usize) -> (r: Option<usize>)
    requires
        *old(pmm) matches Some(m) ==> m.wf(),
    ensures
        *final(pmm) matches Some(m) ==> m.wf(),
        *old(pmm) is None ==> r is None && *final(pmm) == *old(pmm),
        *old(pmm) matches Some(m) ==> *final(pmm) is Some && m.contiguous_outcome(&final(pmm)->Some_0, count, r),
{
    match pmm {
        Some(m) => m.alloc_contiguous_frames(count),
        None => None,
    }
}

/// Returns a frame to the installed allocator, if any.
pub fn free_frame(pmm: &mut Option<PhysicalMemoryManager>, phys_addr: usize)
    requires
        *old(pmm) matches Some(m) ==> m.wf(),
    ensures
        *final(pmm) matches Some(m) ==> m.wf(),
        *old(pmm) is None ==> *final(pmm) == *old(pmm),
        *old(pmm) matches Some(m) ==> *final(pmm) is Some && m.free_outcome(&final(pmm)->Some_0, phys_addr),
{
    match pmm {
        Some(m) => m.free_frame(phys_addr),
        None => {},
    }
}

/// `(total frames, free frames)` of the installed allocator, `(0, 0)`
/// without one.
pub fn get_pmm_stats(pmm: &Option<PhysicalMemoryManager>) -> (r: (usize, usize))
    ensures
        r == match pmm {
            Some(m) => (m.total() as usize, m.free_count() as usize),
            None => (0usize, 0usize),
        },
{
    match pmm {
        Some(m) => m.stats(),
        None => (0, 0),
    }
}

} // verus!
