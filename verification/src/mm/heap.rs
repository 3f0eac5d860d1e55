//! The kernel heap: a first-fit free-list allocator.
//!
//! Each free block starts with a list node header (16 bytes, 8-aligned)
//! recording its size; the list is kept newest first. Here the list is held
//! as a sequence of `(address, size)` nodes in list order.

use vstd::prelude::*;

verus! {

/// Total size of the kernel heap (16 MiB).
pub const HEAP_SIZE: usize = 0x100_0000;
/// Size of the free-list node header.
pub const LIST_NODE_SIZE: usize = 16;
/// Alignment of the free-list node header.
pub const LIST_NODE_ALIGN: usize = 8;

/// A free block: its header address and its size.
#[derive(Debug, Clone, Copy, PartialEq, Eq, Structural)]
pub struct ListNode {
    pub addr: usize,
    pub size: usize,
}

impl ListNode {
    /// The header of a free block of `size` bytes at `addr`.
    pub fn new(addr: usize, size: usize) -> (r: Self)
        ensures
            r == (ListNode { addr, size }),
    {
        ListNode { addr, size }
    }
}

/// `x` rounded up to the mask `a - 1` (a multiple of `a` when `a` is a
/// power of two).
pub open spec fn align_up(x: usize, a: usize) -> usize {
    ((x + a - 1) as usize) & !((a - 1) as usize)
}

/// The list after adding the block `[addr, addr + size)`: its start is
/// aligned for a header and, if what remains holds more than a header, it
/// goes to the front of the list.
pub open spec fn spec_add_region(free: Seq<ListNode>, addr: usize, size: usize) -> Seq<ListNode> {
    let aligned = align_up(addr, LIST_NODE_ALIGN);
    let padding = aligned - addr;
    if size <= padding + LIST_NODE_SIZE {
        free
    } else {
        seq![ListNode { addr: aligned, size: (size - padding) as usize }].add(free)
    }
}

/// First fit from node `i` on for `size` bytes aligned by `align`: the index
/// of the first node whose aligned start plus `size` ends within it, and
/// that start. The search gives up (`None`) at the first node where the
/// aligned end or the node end overflows.
pub open spec fn spec_find(free: Seq<ListNode>, i: int, size: usize, align: usize) -> Option<(int, usize)>
    decreases free.len() - i,
{
    if i < 0 || i >= free.len() {
        None
    } else {
        let n = free[i];
        let start = align_up(n.addr, align);
        if start + size > usize::MAX || n.addr + n.size > usize::MAX {
            None
        } else if start + size <= n.addr + n.size {
            Some((i, start))
        } else {
            spec_find(free, i + 1, size, align)
        }
    }
}

/// Every node's aligned start can be computed for alignment `align`.
pub open spec fn aligns_ok(free: Seq<ListNode>, align: usize) -> bool {
    forall|i: int| 0 <= i < free.len() ==> #[trigger] free[i].addr + align - 1 <= usize::MAX
}

/// The first-fit free-list allocator.
pub struct LinkedListAllocator {
    free: Vec<ListNode>,
}

impl LinkedListAllocator {
    /// The free list, head first.
    pub closed spec fn view(&self) -> Seq<ListNode> {
        self.free@
    }

    /// An allocator with an empty free list.
    pub fn new() -> (r: Self)
        ensures
            r@ == Seq::<ListNode>::empty(),
    {
        LinkedListAllocator { free: Vec::new() }
    }

    /// Hands the block `[heap_start, heap_start + heap_size)` to the heap.
    pub fn init(&mut self, heap_start: usize, heap_size: usize)
        requires
            heap_start + LIST_NODE_ALIGN <= usize::MAX,
        ensures
            final(self)@ == spec_add_region(old(self)@, heap_start, heap_size),
    {
        self.add_free_region(heap_start, heap_size);
    }

    /// Adds a free block: its start is aligned for a header, and unless no
    /// more than a header remains, it becomes the head of the list.
    pub fn add_free_region(&mut self, addr: usize, size: usize)
        requires
            addr + LIST_NODE_ALIGN <= usize::MAX,
        ensures
            final(self)@ == spec_add_region(old(self)@, addr, size),
    {
        let a7 = addr + (LIST_NODE_ALIGN - 1);
        let aligned = a7 & !(LIST_NODE_ALIGN - 1);
        assert(addr <= aligned <= addr + 7) by (bit_vector)
            requires aligned == a7 & !7usize, a7 == addr + 7;
        let padding = aligned - addr;
        if size <= padding + LIST_NODE_SIZE {
            return;
        }
        let usable = size - padding;
        self.free.insert(0, ListNode { addr: aligned, size: usable });
        proof {
            assert(self.free@ =~= seq![ListNode { addr: aligned, size: usable }].add(old(self).free@));
        }
    }

    /// First fit: removes and returns the first node that can hold `size`
    /// bytes at an `align`-aligned start, with that start; `None` when no
    /// node fits before an address computation would overflow.
    pub fn find_region(&mut self, size: usize, align: usize) -> (r: Option<(ListNode, usize)>)
        requires
            align >= 1,
            aligns_ok(old(self)@, align),
        ensures
            match spec_find(old(self)@, 0, size, align) {
                Some((i, start)) => r == Some((old(self)@[i], start)) && final(self)@ == old(self)@.remove(i),
                None => r is None && final(self)@ == old(self)@,
            },
    {
        let mut i: usize = 0;
        while i < self.free.len()
            invariant
                align >= 1,
                aligns_ok(self@, align),
                *self == *old(self),
                i <= self@.len(),
                spec_find(self@, 0, size, align) == spec_find(self@, i as int, size, align),
            decreases self@.len() - i,
        {
            let node = self.free[i];
            let start = (node.addr + (align - 1)) & !(align - 1);
            let end = match start.checked_add(size) {
                Some(e) => e,
                None => return None,
            };
            let node_end = match node.addr.checked_add(node.size) {
                Some(e) => e,
                None => return None,
            };
            if end <= node_end {
                let taken = self.free.remove(i);
                return Some((taken, start));
            }
            i += 1;
        }
        None
    }
}

/// The request actually served for a `size`/`align` layout: alignment at
/// least a header's, size rounded up to it and at least a header.
pub open spec fn request_align(align: usize) -> usize {
    if align > LIST_NODE_ALIGN { align } else { LIST_NODE_ALIGN }
}

/// The block size served for a `size`/`align` layout.
pub open spec fn request_size(size: usize, align: usize) -> usize {
    let s = align_up(size, request_align(align));
    if s > LIST_NODE_SIZE { s } else { LIST_NODE_SIZE }
}

/// The kernel heap with its count of allocated bytes.
pub struct LockedHeap {
    heap: LinkedListAllocator,
    used_bytes: usize,
}

impl LockedHeap {
    /// The free list.
    pub closed spec fn free_list(&self) -> Seq<ListNode> {
        self.heap@
    }

    /// Bytes currently allocated.
    pub closed spec fn used(&self) -> usize {
        self.used_bytes
    }

    /// An empty heap.
    pub fn new() -> (r: Self)
        ensures
            r.free_list() == Seq::<ListNode>::empty(),
            r.used() == 0,
    {
        LockedHeap { heap: LinkedListAllocator::new(), used_bytes: 0 }
    }

    /// Hands the block `[heap_start, heap_start + heap_size)` to the heap.
    pub fn init(&mut self, heap_start: usize, heap_size: usize)
        requires
            heap_start + LIST_NODE_ALIGN <= usize::MAX,
        ensures
            final(self).free_list() == spec_add_region(old(self).free_list(), heap_start, heap_size),
            final(self).used() == old(self).used(),
    {
        self.heap.init(heap_start, heap_size);
    }

    /// Allocates a block for a `size`/`align` layout (`align` a power of
    /// two, as layouts have it): the first fitting free node is taken, what
    /// is left after the block goes back to the list if it can hold a
    /// header, and the served size is added to the count. Returns the
    /// block's address, or 0 when nothing fits.
    pub fn alloc_block(&mut self, size: usize, align: usize) -> (r: usize)
        requires
            align >= 1,
            size + request_align(align) <= usize::MAX,
            aligns_ok(old(self).free_list(), request_align(align)),
            forall|i: int| 0 <= i < old(self).free_list().len()
                ==> #[trigger] old(self).free_list()[i].addr + old(self).free_list()[i].size + LIST_NODE_ALIGN <= usize::MAX,
        ensures
            match spec_find(old(self).free_list(), 0, request_size(size, align), request_align(align)) {
                Some((i, start)) => {
                    let n = old(self).free_list()[i];
                    let end = (start + request_size(size, align)) as usize;
                    let excess = (n.addr + n.size - end) as usize;
                    &&& r == start
                    &&& n.addr <= start
                    &&& start + request_size(size, align) <= n.addr + n.size
                    &&& final(self).free_list() == if excess >= LIST_NODE_SIZE {
                            spec_add_region(old(self).free_list().remove(i), end, excess)
                        } else {
                            old(self).free_list().remove(i)
                        }
                    &&& final(self).used() == old(self).used().wrapping_add(request_size(size, align))
                },
                None => r == 0 && final(self).free_list() == old(self).free_list() && final(self).used() == old(self).used(),
            },
    {
        let a = if align > LIST_NODE_ALIGN { align } else { LIST_NODE_ALIGN };
        let rounded = (size + (a - 1)) & !(a - 1);
        let min_size = if rounded > LIST_NODE_SIZE { rounded } else { LIST_NODE_SIZE };
        let ghost old_free = self.heap@;
        match self.heap.find_region(min_size, a) {
            Some((region, start)) => {
                proof {
                    let i = spec_find(old_free, 0, min_size, a)->Some_0.0;
                    lemma_find_fits(old_free, 0, min_size, a);
                    assert(old_free[i].addr + a - 1 <= usize::MAX);
                    let ra = region.addr;
                    let am: usize = (a - 1) as usize;
                    let top: usize = (ra + am) as usize;
                    assert(ra <= start) by (bit_vector)
                        requires
                            start == top & !am,
                            top == ra + am;
                }
                let end = start + min_size;
                let region_end = region.addr + region.size;
                let excess = region_end.saturating_sub(end);
                if excess >= LIST_NODE_SIZE {
                    self.heap.add_free_region(end, excess);
                }
                self.used_bytes = self.used_bytes.wrapping_add(min_size);
                start
            },
            None => 0,
        }
    }

    /// Returns the block at `ptr` allocated for a `size`/`align` layout:
    /// the served size goes back to the free list and off the count.
    pub fn dealloc_block(&mut self, ptr: usize, size: usize, align: usize)
        requires
            align >= 1,
            size + request_align(align) <= usize::MAX,
            ptr + LIST_NODE_ALIGN <= usize::MAX,
        ensures
            final(self).free_list() == spec_add_region(old(self).free_list(), ptr, request_size(size, align)),
            final(self).used() == old(self).used().wrapping_sub(request_size(size, align)),
    {
        let a = if align > LIST_NODE_ALIGN { align } else { LIST_NODE_ALIGN };
        let rounded = (size + (a - 1)) & !(a - 1);
        let min_size = if rounded > LIST_NODE_SIZE { rounded } else { LIST_NODE_SIZE };
        self.heap.add_free_region(ptr, min_size);
        self.used_bytes = self.used_bytes.wrapping_sub(min_size);
    }

    /// `(heap capacity, bytes allocated)`.
    pub fn stats(&self) -> (r: (usize, usize))
        ensures
            r == (HEAP_SIZE, self.used()),
    {
        (HEAP_SIZE, self.used_bytes)
    }
}

proof fn lemma_find_fits(free: Seq<ListNode>, i: int, size: usize, align: usize)
    ensures
        spec_find(free, i, size, align) matches Some((j, start)) ==> i <= j < free.len()
            && start == align_up(free[j].addr, align)
            && start + size <= free[j].addr + free[j].size,
    decreases free.len() - i,
{
    if 0 <= i < free.len() {
        lemma_find_fits(free, i + 1, size, align);
    }
}

/// `(heap capacity, bytes allocated)` of the kernel heap.
pub fn get_heap_stats(heap: &LockedHeap) -> (r: (usize, usize))
    ensures
        r == (HEAP_SIZE, heap.used()),
{
    heap.stats()
}

} // verus!
