//! The 8259 interrupt controllers: the command bytes the kernel sends them
//! and the mask arithmetic. The port writes themselves are the caller's.

use vstd::prelude::*;

verus! {

/// Command port of the master controller.
pub const PIC1_COMMAND: u16 = 0x20;
/// Data (mask) port of the master controller.
pub const PIC1_DATA: u16 = 0x21;
/// Command port of the slave controller.
pub const PIC2_COMMAND: u16 = 0xA0;
/// Data (mask) port of the slave controller.
pub const PIC2_DATA: u16 = 0xA1;
/// The end-of-interrupt command.
pub const PIC_EOI: u8 = 0x20;

/// The port writes that remap the master controller's lines to vectors
/// from `offset1` and the slave's to vectors from `offset2`, in order:
/// initialisation in cascade mode, the two offsets, the cascade wiring
/// (slave on line 2), 8086 mode. The caller waits after each.
pub fn pic_remap(offset1: u8, offset2: u8) -> (r: Vec<(u16, u8)>)
    ensures
        r@ == seq![
            (PIC1_COMMAND, 0x11u8), (PIC2_COMMAND, 0x11u8),
            (PIC1_DATA, offset1), (PIC2_DATA, offset2),
            (PIC1_DATA, 0x04u8), (PIC2_DATA, 0x02u8),
            (PIC1_DATA, 0x01u8), (PIC2_DATA, 0x01u8),
        ],
{
    let mut v: Vec<(u16, u8)> = Vec::new();
    v.push((PIC1_COMMAND, 0x11u8));
    v.push((PIC2_COMMAND, 0x11u8));
    v.push((PIC1_DATA, offset1));
    v.push((PIC2_DATA, offset2));
    v.push((PIC1_DATA, 0x04u8));
    v.push((PIC2_DATA, 0x02u8));
    v.push((PIC1_DATA, 0x01u8));
    v.push((PIC2_DATA, 0x01u8));
    proof {
        assert(v@ =~= seq![
            (PIC1_COMMAND, 0x11u8), (PIC2_COMMAND, 0x11u8),
            (PIC1_DATA, offset1), (PIC2_DATA, offset2),
            (PIC1_DATA, 0x04u8), (PIC2_DATA, 0x02u8),
            (PIC1_DATA, 0x01u8), (PIC2_DATA, 0x01u8),
        ]);
    }
    v
}

/// The port writes that mask every line of both controllers.
pub fn pic_disable() -> (r: Vec<(u16, u8)>)
    ensures
        r@ == seq![(PIC1_DATA, 0xFFu8), (PIC2_DATA, 0xFFu8)],
{
    let mut v: Vec<(u16, u8)> = Vec::new();
    v.push((PIC1_DATA, 0xFFu8));
    v.push((PIC2_DATA, 0xFFu8));
    proof {
        assert(v@ =~= seq![(PIC1_DATA, 0xFFu8), (PIC2_DATA, 0xFFu8)]);
    }
    v
}

/// The mask port of line `irq` (0 to 15) and its bit there.
pub fn irq_line(irq: u8) -> (r: (u16, u8))
    requires
        irq < 16,
    ensures
        irq < 8 ==> r == (PIC1_DATA, irq),
        irq >= 8 ==> r == (PIC2_DATA, (irq - 8) as u8),
{
    if irq < 8 { (PIC1_DATA, irq) } else { (PIC2_DATA, irq - 8) }
}

/// The mask register value `val` with line `irq` masked.
pub fn mask(val: u8, irq: u8) -> (r: u8)
    requires
        irq < 16,
    ensures
        r == val | (1u8 << (if irq < 8 { irq } else { (irq - 8) as u8 })),
{
    let (_, bit) = irq_line(irq);
    val | (1u8 << bit)
}

/// The mask register value `val` with line `irq` unmasked.
pub fn unmask(val: u8, irq: u8) -> (r: u8)
    requires
        irq < 16,
    ensures
        r == val & !(1u8 << (if irq < 8 { irq } else { (irq - 8) as u8 })),
{
    let (_, bit) = irq_line(irq);
    val & !(1u8 << bit)
}

/// Masking and then unmasking a line gives back the other lines' bits and
/// leaves the line unmasked.
pub proof fn lemma_unmask_after_mask(val: u8, bit: u8)
    requires
        bit < 8,
    ensures
        ((val | (1u8 << bit)) & !(1u8 << bit)) == val & !(1u8 << bit),
{
    assert(((val | (1u8 << bit)) & !(1u8 << bit)) == val & !(1u8 << bit)) by (bit_vector)
        requires bit < 8;
}

/// The command ports that acknowledge line `irq`: the slave's first for a
/// slave line, then the master's.
pub fn send_eoi(irq: u8) -> (r: Vec<u16>)
    ensures
        irq >= 8 ==> r@ == seq![PIC2_COMMAND, PIC1_COMMAND],
        irq < 8 ==> r@ == seq![PIC1_COMMAND],
{
    let mut v: Vec<u16> = Vec::new();
    if irq >= 8 {
        v.push(PIC2_COMMAND);
    }
    v.push(PIC1_COMMAND);
    proof {
        if irq >= 8 {
            assert(v@ =~= seq![PIC2_COMMAND, PIC1_COMMAND]);
        } else {
            assert(v@ =~= seq![PIC1_COMMAND]);
        }
    }
    v
}

/// The mask writes `irq_init` makes after remapping and starting the
/// timer: only line 0 (the timer) open on the master, all closed on the
/// slave.
pub fn irq_init_masks() -> (r: Vec<(u16, u8)>)
    ensures
        r@ == seq![(PIC1_DATA, 0xFEu8), (PIC2_DATA, 0xFFu8)],
{
    let mut v: Vec<(u16, u8)> = Vec::new();
    v.push((PIC1_DATA, 0xFEu8));
    v.push((PIC2_DATA, 0xFFu8));
    proof {
        assert(v@ =~= seq![(PIC1_DATA, 0xFEu8), (PIC2_DATA, 0xFFu8)]);
    }
    v
}

} // verus!
