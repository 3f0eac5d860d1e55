//! Interrupt descriptor table gates.

use vstd::prelude::*;
use crate::arch::gdt::KERNEL_CODE_SEL;

verus! {

/// A 16-byte interrupt gate.
#[derive(Debug, Clone, Copy, PartialEq, Eq, Structural)]
pub struct IdtEntry {
    /// Handler address bits 0..15.
    pub offset_low: u16,
    /// Code segment selector.
    pub selector: u16,
    /// Interrupt stack table index.
    pub ist: u8,
    /// Present bit, privilege level and gate type.
    pub type_attr: u8,
    /// Handler address bits 16..31.
    pub offset_mid: u16,
    /// Handler address bits 32..63.
    pub offset_high: u32,
    /// Reserved, zero.
    pub zero: u32,
}

/// Operand of `lidt`.
#[derive(Debug, Clone, Copy, PartialEq, Eq, Structural)]
pub struct IdtDescriptor {
    /// Size of the table in bytes minus one.
    pub limit: u16,
    /// Linear address of the table.
    pub base: u64,
}

impl IdtEntry {
    /// An absent gate.
    pub fn missing() -> (r: Self)
        ensures
            r == (IdtEntry { offset_low: 0, selector: 0, ist: 0, type_attr: 0, offset_mid: 0, offset_high: 0, zero: 0 }),
    {
        IdtEntry { offset_low: 0, selector: 0, ist: 0, type_attr: 0, offset_mid: 0, offset_high: 0, zero: 0 }
    }

    /// Makes this entry a present interrupt gate for `handler` with stack
    /// index `ist` and privilege level `dpl`, in the kernel code segment.
    pub fn set_handler(&mut self, handler: usize, ist: u8, dpl: u8)
        ensures
            final(self).offset_low == handler as u16,
            final(self).selector == KERNEL_CODE_SEL,
            final(self).ist == ist,
            final(self).type_attr == (0x8Eu8 | (dpl << 5u8)),
            final(self).offset_mid == (handler >> 16usize) as u16,
            final(self).offset_high == ((handler as u64) >> 32u64) as u32,
            final(self).zero == 0,
    {
        self.offset_low = handler as u16;
        self.selector = KERNEL_CODE_SEL;
        self.ist = ist;
        self.type_attr = 0x8Eu8 | (dpl << 5u8);
        self.offset_mid = (handler >> 16usize) as u16;
        self.offset_high = ((handler as u64) >> 32u64) as u32;
        self.zero = 0;
    }
}

/// The interrupt descriptor table: 256 gates.
pub struct Idt {
    pub entries: [IdtEntry; 256],
}

impl Idt {
    /// A table of absent gates.
    pub fn new() -> (r: Self)
        ensures
            forall|i: int| 0 <= i < 256 ==> #[trigger] r.entries@[i] == (IdtEntry {
                offset_low: 0, selector: 0, ist: 0, type_attr: 0, offset_mid: 0, offset_high: 0, zero: 0,
            }),
    {
        let m = IdtEntry::missing();
        Idt { entries: [m; 256] }
    }

    /// Arms gate `vector` with `handler` (see `IdtEntry::set_handler`);
    /// the other gates are unchanged.
    pub fn set_gate(&mut self, vector: usize, handler: usize, ist: u8, dpl: u8)
        requires
            vector < 256,
        ensures
            forall|i: int| 0 <= i < 256 && i != vector ==> #[trigger] final(self).entries@[i] == old(self).entries@[i],
            final(self).entries@[vector as int].offset_low == handler as u16,
            final(self).entries@[vector as int].selector == KERNEL_CODE_SEL,
            final(self).entries@[vector as int].ist == ist,
            final(self).entries@[vector as int].type_attr == (0x8Eu8 | (dpl << 5u8)),
            final(self).entries@[vector as int].offset_mid == (handler >> 16usize) as u16,
            final(self).entries@[vector as int].offset_high == ((handler as u64) >> 32u64) as u32,
            final(self).entries@[vector as int].zero == 0,
    {
        let mut e = self.entries[vector];
        e.set_handler(handler, ist, dpl);
        self.entries[vector] = e;
    }
}

/// The `lidt` operand for a 256-gate table at `base`.
pub fn idt_descriptor(base: u64) -> (r: IdtDescriptor)
    ensures
        r == (IdtDescriptor { limit: 4095, base }),
{
    IdtDescriptor { limit: 4095, base }
}

} // verus!
