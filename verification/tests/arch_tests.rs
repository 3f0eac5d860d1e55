use kernel::arch::gdt::{build_gdt, gdt_descriptor, TSS};
use kernel::arch::idt::{idt_descriptor, Idt, IdtEntry};
use kernel::arch::paging::{
    leaf_entry, page_flags_from_arch, page_flags_to_arch, pt_indices, pte_phys, reprotected_entry, user_walk_step,
    walk_index, PageTable, UserWalkStep, PAGE_NX, PAGE_PRESENT, PAGE_PS, PAGE_USER, PAGE_WRITABLE,
};
use kernel::arch::pit::{pit_calc_divisor, pit_effective_freq, pit_init_bytes};
use kernel::arch::syscall::{star_value, PerCpuData};
use kernel::drivers::serial::{SerialPort, COM1, RX_BUF_SIZE};
use kernel::mm::flags::PageFlags;
use kernel::mm::user::UserAccessError;

#[test]
fn page_table_index_decomposition() {
    let va: usize = (1 << 39) * 3 + (1 << 30) * 5 + (1 << 21) * 7 + (1 << 12) * 9 + 0x123;
    assert_eq!(pt_indices(va), (3, 5, 7, 9));
    assert_eq!(walk_index(va, 4), 3);
    assert_eq!(walk_index(va, 1), 9);
    assert!(PageTable::empty().entries.iter().all(|&e| e == 0));
}

#[test]
fn pte_address_and_flags() {
    assert_eq!(pte_phys(0x8000_0000_1234_5067), 0x1234_5000);
    let f = PageFlags::user_data();
    let bits = page_flags_to_arch(f);
    assert_eq!(bits, PAGE_PRESENT | PAGE_WRITABLE | PAGE_USER | PAGE_NX);
    assert_eq!(page_flags_from_arch(bits), f);
    assert_eq!(page_flags_to_arch(page_flags_from_arch(0xFFFF)), 0x7);
    assert_eq!(leaf_entry(0x5000, PageFlags::user_code()), 0x5000 | PAGE_PRESENT | PAGE_USER);
    assert_eq!(reprotected_entry(0x5007, PageFlags::user_rodata()), 0x5000 | PAGE_PRESENT | PAGE_USER | PAGE_NX);
}

#[test]
fn user_walk_decisions() {
    assert_eq!(user_walk_step(4, 0x1000 | PAGE_PRESENT, false), UserWalkStep::Fault(UserAccessError::NotMapped));
    assert_eq!(
        user_walk_step(4, 0x1000 | PAGE_PRESENT | PAGE_USER, true),
        UserWalkStep::Fault(UserAccessError::NotWritable)
    );
    assert_eq!(user_walk_step(4, 0x1000 | PAGE_PRESENT | PAGE_USER, false), UserWalkStep::Next(0x1000));
    assert_eq!(user_walk_step(2, 0x1000 | PAGE_PRESENT | PAGE_USER | PAGE_PS, false), UserWalkStep::Leaf);
    assert_eq!(user_walk_step(4, 0x1000 | PAGE_PRESENT | PAGE_USER | PAGE_PS, false), UserWalkStep::Next(0x1000));
    assert_eq!(user_walk_step(1, 0x1000 | PAGE_PRESENT | PAGE_USER | PAGE_WRITABLE, true), UserWalkStep::Leaf);
}

#[test]
fn pit_divisor() {
    assert_eq!(pit_calc_divisor(100), Some(11931));
    assert_eq!(pit_calc_divisor(18), None);
    assert_eq!(pit_calc_divisor(1_193_183), None);
    assert_eq!(pit_effective_freq(11931), 100);
    assert_eq!(pit_init_bytes(100), Some((0x36, (11931 & 0xFF) as u8, (11931 >> 8) as u8)));
}

#[test]
fn idt_gates() {
    let mut idt = Idt::new();
    assert_eq!(idt.entries[13], IdtEntry::missing());
    idt.set_gate(0x20, 0xffff_ffff_8010_2030, 0, 0);
    let e = idt.entries[0x20];
    assert_eq!(e.offset_low, 0x2030);
    assert_eq!(e.offset_mid, 0x8010);
    assert_eq!(e.offset_high, 0xffff_ffff);
    assert_eq!(e.type_attr, 0x8E);
    assert_eq!(idt.entries[0x21], IdtEntry::missing());
    assert_eq!(idt_descriptor(0x1000).limit, 4095);
}

#[test]
fn gdt_layout() {
    let tss = TSS::new();
    assert_eq!(tss.iomap_base, 104);
    let gdt = build_gdt(0xffff_8000_0000_1000);
    assert_eq!(gdt.entries[0], 0);
    assert_eq!(gdt_descriptor(0x2000).limit, 55);
    assert_eq!(star_value() >> 48, 0x10);
    let mut p = PerCpuData::new();
    p.set_kernel_stack(0x9000);
    assert_eq!((p.kernel_rsp, p.user_rsp), (0x9000, 0));
}

#[test]
fn serial_ring_buffer() {
    let mut s = SerialPort::new(COM1);
    assert_eq!(s.port(), 0x3F8);
    assert_eq!(s.read_byte(), None);
    for b in b"abc" {
        s.push_received(*b);
    }
    assert_eq!(s.read_byte(), Some(b'a'));
    let mut buf = vec![0u8; 8];
    assert_eq!(s.read_bytes(&mut buf), 2);
    assert_eq!(&buf[..2], b"bc");
    for i in 0..RX_BUF_SIZE + 5 {
        s.push_received((i % 251) as u8);
    }
    let mut big = vec![0u8; RX_BUF_SIZE * 2];
    assert_eq!(s.read_bytes(&mut big), RX_BUF_SIZE - 1);
    assert_eq!(big[0], 0);
    assert_eq!(big[10], 10);
}
