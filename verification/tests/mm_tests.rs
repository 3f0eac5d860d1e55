use std::cell::RefCell;
use kernel::boot::limine::{LimineMemmapEntry, LIMINE_MEMMAP_RESERVED, LIMINE_MEMMAP_USABLE};
use kernel::mm::cow::FrameRefs;
use kernel::mm::flags::PageFlags;
use kernel::mm::heap::{get_heap_stats, LinkedListAllocator, ListNode, LockedHeap, HEAP_SIZE};
use kernel::mm::pmm::{
    alloc_contiguous_frames, alloc_frame, free_frame, get_pmm_stats, PhysicalMemoryManager, PAGE_SIZE,
};
use kernel::mm::user::{validate_user_range, UserAccessError, UserPtr, UserSlice, USER_SPACE_END};
use kernel::mm::vmm::{cow_page_mapping, page_span, phys_to_virt, prot_of_flags, virt_to_phys, VmSpace};

fn entry(base: u64, length: u64, typ: u64) -> LimineMemmapEntry {
    LimineMemmapEntry { base, length, typ }
}

/// Usable RAM at [0x1000, 0x9000) and [0x10000, 0x20000): 8 + 16 frames,
/// 32 frames in all; the 4-byte bitmap lands at 0x1000.
fn small_map() -> Vec<LimineMemmapEntry> {
    vec![
        entry(0x1000, 0x8000, LIMINE_MEMMAP_USABLE),
        entry(0x9000, 0x7000, LIMINE_MEMMAP_RESERVED),
        entry(0x10000, 0x10000, LIMINE_MEMMAP_USABLE),
    ]
}

#[test]
fn pmm_from_memmap_counts_frames() {
    let pmm = PhysicalMemoryManager::from_memmap(&small_map());
    // 24 usable frames, one of them holds the bitmap.
    assert_eq!(pmm.stats(), (32, 23));
}

#[test]
fn pmm_alloc_skips_bitmap_and_reserved_frames() {
    let mut pmm = PhysicalMemoryManager::from_memmap(&small_map());
    // Frame 1 holds the bitmap; frames 2..9 are free.
    assert_eq!(pmm.alloc_frame(), Some(0x2000));
    assert_eq!(pmm.alloc_frame(), Some(0x3000));
    assert_eq!(pmm.stats(), (32, 21));
}

#[test]
fn pmm_alloc_exhausts_then_none() {
    let mut pmm = PhysicalMemoryManager::from_memmap(&small_map());
    let mut got = Vec::new();
    while let Some(a) = pmm.alloc_frame() {
        got.push(a);
    }
    assert_eq!(got.len(), 23);
    assert!(got.iter().all(|a| a % PAGE_SIZE == 0));
    assert!(!got.contains(&0x1000));
    assert!(!got.contains(&0x9000));
    assert_eq!(pmm.stats().1, 0);
    assert_eq!(pmm.alloc_frame(), None);
}

#[test]
fn pmm_free_then_reuse_lowest() {
    let mut pmm = PhysicalMemoryManager::from_memmap(&small_map());
    let a = pmm.alloc_frame().unwrap();
    let b = pmm.alloc_frame().unwrap();
    assert_eq!((a, b), (0x2000, 0x3000));
    pmm.free_frame(a);
    assert_eq!(pmm.stats().1, 22);
    // The search moved back to the freed frame.
    assert_eq!(pmm.alloc_frame(), Some(a));
}

#[test]
fn pmm_free_of_free_or_unmanaged_frame_is_ignored() {
    let mut pmm = PhysicalMemoryManager::from_memmap(&small_map());
    let before = pmm.stats();
    pmm.free_frame(0x5000); // already free
    pmm.free_frame(0x100_0000); // beyond the managed frames
    assert_eq!(pmm.stats(), before);
}

#[test]
fn pmm_contiguous_takes_lowest_run() {
    let mut pmm = PhysicalMemoryManager::from_memmap(&small_map());
    assert_eq!(pmm.alloc_contiguous_frames(0), None);
    // Frames 2..9 form the first free run of 4.
    assert_eq!(pmm.alloc_contiguous_frames(4), Some(0x2000));
    // A run of 8 only fits in the second region.
    assert_eq!(pmm.alloc_contiguous_frames(8), Some(0x10000));
    assert_eq!(pmm.alloc_contiguous_frames(17), None);
    assert_eq!(pmm.stats().1, 23 - 12);
}

#[test]
fn pmm_contiguous_one_is_single_alloc() {
    let mut pmm = PhysicalMemoryManager::from_memmap(&small_map());
    assert_eq!(pmm.alloc_contiguous_frames(1), Some(0x2000));
}

#[test]
fn pmm_global_helpers_without_allocator() {
    let mut none: Option<PhysicalMemoryManager> = None;
    assert_eq!(alloc_frame(&mut none), None);
    assert_eq!(alloc_contiguous_frames(&mut none, 3), None);
    free_frame(&mut none, 0x2000);
    assert_eq!(get_pmm_stats(&none), (0, 0));
}

#[test]
fn pmm_global_helpers_with_allocator() {
    let mut some = Some(PhysicalMemoryManager::from_memmap(&small_map()));
    assert_eq!(alloc_frame(&mut some), Some(0x2000));
    assert_eq!(get_pmm_stats(&some), (32, 22));
    free_frame(&mut some, 0x2000);
    assert_eq!(get_pmm_stats(&some), (32, 23));
}

#[test]
fn cow_counts_and_frees() {
    let mut pmm = Some(PhysicalMemoryManager::from_memmap(&small_map()));
    let mut refs = FrameRefs::new();
    let f = alloc_frame(&mut pmm).unwrap();
    assert_eq!(refs.cow_ref_count(f), 1);
    refs.cow_inc_ref(f + 0x123);
    assert_eq!(refs.cow_ref_count(f), 2);
    assert!(!refs.cow_dec_ref(f, &mut pmm));
    assert_eq!(refs.cow_ref_count(f), 1);
    let free_before = get_pmm_stats(&pmm).1;
    assert!(refs.cow_dec_ref(f, &mut pmm));
    assert_eq!(get_pmm_stats(&pmm).1, free_before + 1);
}

#[test]
fn cow_zero_page_is_never_freed() {
    let mut pmm = Some(PhysicalMemoryManager::from_memmap(&small_map()));
    let mut refs = FrameRefs::new();
    let z = refs.zero_page_phys(&mut pmm);
    assert_eq!(z, 0x2000);
    assert_eq!(refs.zero_page_phys(&mut pmm), z);
    assert_eq!(refs.cow_ref_count(z), u32::MAX);
    assert!(!refs.cow_dec_ref(z, &mut pmm));
    refs.cow_inc_ref(z);
    assert_eq!(refs.cow_ref_count(z), u32::MAX);
}

#[test]
fn cow_untracked_frame_freed_directly() {
    let mut pmm = Some(PhysicalMemoryManager::from_memmap(&small_map()));
    let mut refs = FrameRefs::new();
    let f = alloc_frame(&mut pmm).unwrap();
    assert!(refs.cow_dec_ref(f, &mut pmm));
    assert_eq!(alloc_frame(&mut pmm), Some(f));
}

#[test]
fn heap_first_fit_and_split() {
    let mut heap = LockedHeap::new();
    heap.init(0x10_0000, 0x1000);
    let a = heap.alloc_block(24, 8);
    assert_eq!(a, 0x10_0000);
    assert_eq!(heap.stats(), (HEAP_SIZE, 24));
    let b = heap.alloc_block(1, 1);
    // The rest of the block went back to the list, right after `a`.
    assert_eq!(b, 0x10_0018);
    assert_eq!(get_heap_stats(&heap), (HEAP_SIZE, 24 + 16));
}

#[test]
fn heap_alignment_is_honoured() {
    let mut heap = LockedHeap::new();
    heap.init(0x10_0008, 0x1000);
    let a = heap.alloc_block(32, 64);
    assert_eq!(a % 64, 0);
    assert_eq!(a, 0x10_0040);
}

#[test]
fn heap_exhaustion_returns_zero() {
    let mut heap = LockedHeap::new();
    heap.init(0x10_0000, 64);
    assert_eq!(heap.alloc_block(128, 8), 0);
    assert_eq!(heap.stats().1, 0);
}

#[test]
fn heap_dealloc_returns_block() {
    let mut heap = LockedHeap::new();
    heap.init(0x10_0000, 64);
    let a = heap.alloc_block(64, 8);
    assert_eq!(a, 0x10_0000);
    assert_eq!(heap.alloc_block(16, 8), 0);
    heap.dealloc_block(a, 64, 8);
    assert_eq!(heap.stats().1, 0);
    assert_eq!(heap.alloc_block(16, 8), 0x10_0000);
}

#[test]
fn heap_small_region_is_dropped() {
    let mut a = LinkedListAllocator::new();
    a.add_free_region(0x1001, 20); // 7 bytes of padding leave 13 < header
    assert!(a.find_region(1, 1).is_none());
    a.add_free_region(0x2000, 64);
    let (node, start) = a.find_region(16, 8).unwrap();
    assert_eq!(node, ListNode::new(0x2000, 64));
    assert_eq!(start, 0x2000);
}

#[test]
fn user_range_checks() {
    let ok = |_: usize, _: bool| -> Result<(), UserAccessError> { Ok(()) };
    assert_eq!(validate_user_range(0, 0, false, ok), Ok(()));
    assert_eq!(validate_user_range(usize::MAX, 2, false, ok), Err(UserAccessError::Overflow));
    assert_eq!(
        validate_user_range(USER_SPACE_END as usize - 4, 8, false, ok),
        Err(UserAccessError::OutOfUserRange)
    );
    assert_eq!(validate_user_range(0x1000, 0x2000, true, ok), Ok(()));
}

#[test]
fn user_range_visits_each_page_and_stops_at_first_refusal() {
    let seen = RefCell::new(Vec::new());
    let check = |p: usize, w: bool| -> Result<(), UserAccessError> {
        seen.borrow_mut().push(p);
        if w && p == 0x3000 { Err(UserAccessError::NotWritable) } else { Ok(()) }
    };
    assert_eq!(validate_user_range(0x1ff0, 0x3000, false, &check), Ok(()));
    assert_eq!(*seen.borrow(), vec![0x1000, 0x2000, 0x3000, 0x4000]);
    seen.borrow_mut().clear();
    assert_eq!(validate_user_range(0x1ff0, 0x3000, true, &check), Err(UserAccessError::NotWritable));
    assert_eq!(*seen.borrow(), vec![0x1000, 0x2000, 0x3000]);
}

#[test]
fn user_ptr_and_slice() {
    assert!(matches!(UserPtr::<u64>::from_raw(0), Err(UserAccessError::NullPointer)));
    assert!(matches!(UserPtr::<u64>::from_raw(usize::MAX - 3), Err(UserAccessError::Overflow)));
    assert!(matches!(
        UserPtr::<u64>::from_raw(USER_SPACE_END as usize - 4),
        Err(UserAccessError::OutOfUserRange)
    ));
    let p = UserPtr::<u64>::from_raw(0x4000).unwrap();
    assert_eq!(p.addr(), 0x4000);
    let none = |_: usize, _: bool| -> Result<(), UserAccessError> { Err(UserAccessError::NotMapped) };
    assert_eq!(p.validate(false, none), Err(UserAccessError::NotMapped));

    let s = UserSlice::from_raw(0, 0).unwrap();
    assert!(s.is_empty());
    assert_eq!(s.validate(true, none), Ok(()));
    assert!(matches!(UserSlice::from_raw(0, 1), Err(UserAccessError::NullPointer)));
    let s = UserSlice::from_raw(0x4000, 10).unwrap();
    assert_eq!(s.len(), 10);
    assert!(!s.is_empty());
    assert_eq!(s.check_kernel_len(9), Err(UserAccessError::Overflow));
    assert_eq!(s.check_kernel_len(10), Ok(10));
}

#[test]
fn vmm_address_conversions() {
    assert_eq!(phys_to_virt(0x1000, 0xffff_8000_0000_0000), 0xffff_8000_0000_1000);
    assert_eq!(virt_to_phys(0xffff_8000_0000_1000, 0xffff_8000_0000_0000), 0x1000);
    assert_eq!(virt_to_phys(0x10, 0x100), 0);
    assert_eq!(page_span(0x1234, 0x2001), (0x1000, 0x3000));
    assert_eq!(page_span(0x1000, 0x2000), (0x1000, 0x2000));
}

#[test]
fn vmm_prot_round_trip() {
    let f = PageFlags::user_data();
    assert_eq!(prot_of_flags(f), 3);
    assert_eq!(PageFlags::from_prot(prot_of_flags(f)), f);
    let c = PageFlags::user_code();
    assert_eq!(prot_of_flags(c), 5);
    assert_eq!(PageFlags::from_prot(prot_of_flags(c)), c);
}

#[test]
fn vmm_cow_page_mapping() {
    let (f, shared) = cow_page_mapping(3);
    assert!(shared);
    assert!(!f.writable && f.present && f.user && f.no_exec);
    let (f, shared) = cow_page_mapping(5);
    assert!(!shared);
    assert_eq!(f, PageFlags::from_prot(5));
}

#[test]
fn vma_insert_merges_and_splits() {
    let mut vm = VmSpace::new(0x5000);
    assert_eq!(vm.pml4_phys(), 0x5000);
    vm.insert_vma(0x1000, 0x2000, 3, 0x20);
    vm.insert_vma(0x2000, 0x3000, 3, 0x20);
    let v = vm.vmas();
    assert_eq!(v.len(), 1);
    assert_eq!((v[0].start, v[0].end), (0x1000, 0x3000));
    vm.insert_vma(0x1800, 0x2800, 1, 0x20);
    let v = vm.vmas();
    assert_eq!(v.len(), 3);
    assert_eq!((v[0].start, v[0].end, v[0].prot), (0x1000, 0x1800, 3));
    assert_eq!((v[1].start, v[1].end, v[1].prot), (0x1800, 0x2800, 1));
    assert_eq!((v[2].start, v[2].end, v[2].prot), (0x2800, 0x3000, 3));
    assert!(vm.contains_range(0x1000, 0x3000));
    assert!(!vm.contains_range(0x1000, 0x3001));
    assert_eq!(vm.find_vma(0x2000).map(|v| v.prot), Some(1));
    assert!(vm.find_vma(0x3000).is_none());
}

#[test]
fn vma_remove_and_mprotect() {
    let mut vm = VmSpace::new(0x5000);
    vm.insert_vma(0x1000, 0x4000, 3, 0x22);
    vm.remove_vma_range(0x2000, 0x3000);
    let v = vm.vmas();
    assert_eq!(v.len(), 2);
    assert_eq!((v[0].start, v[0].end), (0x1000, 0x2000));
    assert_eq!((v[1].start, v[1].end), (0x3000, 0x4000));
    assert!(vm.mprotect_range(0x1000, 0x4000, 1).is_err());
    assert!(vm.mprotect_range(0x1000, 0x2000, 1).is_ok());
    let v = vm.vmas();
    assert_eq!((v[0].prot, v[0].flags), (1, 0x22));
    assert!(vm.mprotect_range(0x2000, 0x2000, 1).is_err());
}

/// The protection and flags covering `a`, if any.
fn attrs_at(vm: &VmSpace, a: usize) -> Option<(u32, u32)> {
    vm.find_vma(a).map(|v| (v.prot, v.flags))
}

#[test]
fn vma_insert_overwrites_only_its_range() {
    let mut vm = VmSpace::new(0x5000);
    vm.insert_vma(0x1000, 0x3000, 1, 0x22);
    vm.insert_vma(0x4000, 0x6000, 5, 0x02);
    let before: Vec<_> = (0..0x80).map(|p| attrs_at(&vm, p * 0x100)).collect();
    vm.insert_vma(0x2000, 0x5000, 3, 0x22);
    for p in 0..0x80usize {
        let a = p * 0x100;
        let want = if (0x2000..0x5000).contains(&a) { Some((3, 0x22)) } else { before[p] };
        assert_eq!(attrs_at(&vm, a), want, "address {:#x}", a);
    }
}

#[test]
fn vma_insert_keeps_a_later_region_of_its_attributes() {
    // A region of other attributes meets the range first, then one of the
    // same attributes reaching past it: that region is kept and fused.
    let mut vm = VmSpace::new(0x5000);
    vm.insert_vma(0, 0x2000, 1, 0);
    vm.insert_vma(0x2000, 0x3000, 3, 0);
    vm.insert_vma(0x1000, 0x2800, 3, 0);
    let v = vm.vmas();
    assert_eq!(v.len(), 2);
    assert_eq!((v[0].start, v[0].end, v[0].prot), (0, 0x1000, 1));
    assert_eq!((v[1].start, v[1].end, v[1].prot), (0x1000, 0x3000, 3));
    assert_eq!(attrs_at(&vm, 0x2900), Some((3, 0)));
}

#[test]
fn vma_mprotect_keeps_flags_and_other_addresses() {
    let mut vm = VmSpace::new(0x5000);
    vm.insert_vma(0x1000, 0x3000, 1, 0x22);
    vm.insert_vma(0x3000, 0x5000, 3, 0x02);
    vm.insert_vma(0x6000, 0x7000, 7, 0x22);
    assert!(vm.mprotect_range(0x2000, 0x4000, 5).is_ok());
    for p in 0..0x80usize {
        let a = p * 0x100;
        let want = if (0x1000..0x2000).contains(&a) {
            Some((1, 0x22))
        } else if (0x2000..0x3000).contains(&a) {
            Some((5, 0x22))
        } else if (0x3000..0x4000).contains(&a) {
            Some((5, 0x02))
        } else if (0x4000..0x5000).contains(&a) {
            Some((3, 0x02))
        } else if (0x6000..0x7000).contains(&a) {
            Some((7, 0x22))
        } else {
            None
        };
        assert_eq!(attrs_at(&vm, a), want, "address {:#x}", a);
    }
    vm.remove_vma_range(0x2800, 0x3800);
    assert!(vm.find_vma(0x2800).is_none() && vm.find_vma(0x37ff).is_none());
    assert_eq!(attrs_at(&vm, 0x27ff), Some((5, 0x22)));
    assert_eq!(attrs_at(&vm, 0x3800), Some((5, 0x02)));
}

#[test]
fn pmm_alloc_then_free_restores_state() {
    let mut pmm = PhysicalMemoryManager::from_memmap(&small_map());
    let before = pmm.stats();
    let a = pmm.alloc_frame().unwrap();
    pmm.free_frame(a);
    assert_eq!(pmm.stats(), before);
    // The same frame is free again: it is handed out once more.
    assert_eq!(pmm.alloc_frame(), Some(a));
}

#[test]
fn pmm_alloc_then_free_is_a_round_trip() {
    let mut some = Some(PhysicalMemoryManager::from_memmap(&small_map()));
    alloc_frame(&mut some).unwrap();
    let before = get_pmm_stats(&some);
    let p = alloc_frame(&mut some).unwrap();
    assert_eq!(p, 0x3000);
    free_frame(&mut some, p);
    assert_eq!(get_pmm_stats(&some), before);
    assert_eq!(alloc_frame(&mut some), Some(p));
}
