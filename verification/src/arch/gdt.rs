//! Global descriptor table and task state segment contents.

use vstd::prelude::*;

verus! {

/// Kernel 64-bit code segment selector.
pub const KERNEL_CODE_SEL: u16 = 0x08;
/// Kernel data segment selector.
pub const KERNEL_DATA_SEL: u16 = 0x10;
/// User data segment selector (RPL 3).
pub const USER_DATA_SEL: u16 = 0x1b;
/// User 64-bit code segment selector (RPL 3).
pub const USER_CODE_SEL: u16 = 0x23;
/// Task state segment selector.
pub const TSS_SEL: u16 = 0x28;
/// Size in bytes of the 64-bit task state segment.
pub const TSS_SIZE: u16 = 104;

/// Kernel code descriptor: 64-bit, ring 0, execute/read.
pub const GDT_KERNEL_CODE: u64 = 0x00AF9A000000FFFF;
/// Kernel data descriptor: ring 0, read/write.
pub const GDT_KERNEL_DATA: u64 = 0x00CF92000000FFFF;
/// User data descriptor: ring 3, read/write.
pub const GDT_USER_DATA: u64 = 0x00CFF2000000FFFF;
/// User code descriptor: 64-bit, ring 3.
pub const GDT_USER_CODE: u64 = 0x00AFF8000000FFFF;

/// The 64-bit task state segment.
#[derive(Debug, Clone, Copy, PartialEq, Eq, Structural)]
pub struct TSS {
    pub reserved0: u32,
    /// Ring 0 stack pointer loaded on a privilege switch.
    pub rsp0: u64,
    pub rsp1: u64,
    pub rsp2: u64,
    pub reserved1: u64,
    pub ist1: u64,
    pub ist2: u64,
    pub ist3: u64,
    pub ist4: u64,
    pub ist5: u64,
    pub ist6: u64,
    pub ist7: u64,
    pub reserved2: u64,
    pub reserved3: u16,
    /// Offset of the I/O permission bitmap from the TSS base.
    pub iomap_base: u16,
}

impl TSS {
    /// A zeroed task state segment whose I/O bitmap lies past its end.
    pub fn new() -> (r: Self)
        ensures
            r == (TSS {
                reserved0: 0, rsp0: 0, rsp1: 0, rsp2: 0, reserved1: 0, ist1: 0, ist2: 0, ist3: 0,
                ist4: 0, ist5: 0, ist6: 0, ist7: 0, reserved2: 0, reserved3: 0, iomap_base: TSS_SIZE,
            }),
    {
        TSS {
            reserved0: 0, rsp0: 0, rsp1: 0, rsp2: 0, reserved1: 0, ist1: 0, ist2: 0, ist3: 0,
            ist4: 0, ist5: 0, ist6: 0, ist7: 0, reserved2: 0, reserved3: 0, iomap_base: TSS_SIZE,
        }
    }
}

/// Operand of `lgdt`.
#[derive(Debug, Clone, Copy, PartialEq, Eq, Structural)]
pub struct GdtDescriptor {
    /// Size of the table in bytes minus one.
    pub limit: u16,
    /// Linear address of the table.
    pub base: u64,
}

/// The global descriptor table: null, kernel code and data, user data and
/// code, and the two-slot TSS descriptor.
#[derive(Debug, Clone, Copy)]
pub struct Gdt {
    pub entries: [u64; 7],
}

/// Low half of the TSS descriptor for a TSS at `base` with byte limit `limit`.
pub open spec fn spec_tss_low(base: u64, limit: u64) -> u64 {
    (limit & 0xFFFF) | ((base & 0xFFFFFF) << 16u64) | (0x89u64 << 40u64) | (((limit >> 16u64) & 0xF) << 48u64)
        | (((base >> 24u64) & 0xFF) << 56u64)
}

/// The two descriptor words of the 64-bit available-TSS descriptor.
pub fn tss_descriptor(base: u64, limit: u64) -> (r: (u64, u64))
    ensures
        r == (spec_tss_low(base, limit), base >> 32u64),
{
    let mut low: u64 = limit & 0xFFFF;
    low = low | ((base & 0xFFFFFF) << 16u64);
    low = low | (0x89u64 << 40u64);
    low = low | (((limit >> 16u64) & 0xF) << 48u64);
    low = low | (((base >> 24u64) & 0xFF) << 56u64);
    (low, base >> 32u64)
}

/// The descriptor table for a TSS at `tss_base`.
pub fn build_gdt(tss_base: u64) -> (r: Gdt)
    ensures
        r.entries@ == seq![0u64, GDT_KERNEL_CODE, GDT_KERNEL_DATA, GDT_USER_DATA, GDT_USER_CODE,
            spec_tss_low(tss_base, (TSS_SIZE - 1) as u64), tss_base >> 32u64],
{
    let (low, high) = tss_descriptor(tss_base, (TSS_SIZE - 1) as u64);
    let g = Gdt { entries: [0u64, GDT_KERNEL_CODE, GDT_KERNEL_DATA, GDT_USER_DATA, GDT_USER_CODE, low, high] };
    proof {
        assert(g.entries@ =~= seq![0u64, GDT_KERNEL_CODE, GDT_KERNEL_DATA, GDT_USER_DATA, GDT_USER_CODE,
            spec_tss_low(tss_base, (TSS_SIZE - 1) as u64), tss_base >> 32u64]);
    }
    g
}

/// The `lgdt` operand for a table at `base`.
pub fn gdt_descriptor(base: u64) -> (r: GdtDescriptor)
    ensures
        r == (GdtDescriptor { limit: 55, base }),
{
    GdtDescriptor { limit: 55, base }
}

} // verus!
