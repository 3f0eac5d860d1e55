//! Fast system call entry: the per-CPU scratch block and the MSR values
//! programmed for `syscall`/`sysret`.

use vstd::prelude::*;
use crate::arch::gdt::KERNEL_CODE_SEL;

verus! {

/// `IA32_EFER`.
pub const IA32_EFER: u32 = 0xC000_0080;
/// `IA32_STAR`.
pub const IA32_STAR: u32 = 0xC000_0081;
/// `IA32_LSTAR`.
pub const IA32_LSTAR: u32 = 0xC000_0082;
/// `IA32_FMASK`.
pub const IA32_FMASK: u32 = 0xC000_0084;
/// `IA32_KERNEL_GS_BASE`.
pub const IA32_KERNEL_GS_BASE: u32 = 0xC000_0102;
/// RFLAGS cleared on `syscall` entry: IF, TF and DF.
pub const SYSCALL_FMASK: u64 = 0x700;

/// Per-CPU block reached through GS on `syscall` entry.
pub struct PerCpuData {
    /// Kernel stack pointer loaded on entry.
    pub kernel_rsp: u64,
    /// Where the entry stub parks the user stack pointer.
    pub user_rsp: u64,
}

impl PerCpuData {
    /// The block before boot programs it.
    pub fn new() -> (r: Self)
        ensures
            r.kernel_rsp == 0 && r.user_rsp == 0,
    {
        PerCpuData { kernel_rsp: 0, user_rsp: 0 }
    }

    /// Points `syscall` entry at the kernel stack `stack_top`.
    pub fn set_kernel_stack(&mut self, stack_top: u64)
        ensures
            final(self).kernel_rsp == stack_top,
            final(self).user_rsp == old(self).user_rsp,
    {
        self.kernel_rsp = stack_top;
    }
}

/// The `IA32_STAR` value: kernel code selector in bits 32..47 and the
/// `sysret` selector base 0x10 in bits 48..63.
pub fn star_value() -> (r: u64)
    ensures
        r == ((KERNEL_CODE_SEL as u64) << 32u64) | (0x10u64 << 48u64),
{
    ((KERNEL_CODE_SEL as u64) << 32u64) | (0x10u64 << 48u64)
}

/// `IA32_EFER` with the system-call extension (bit 0) set.
pub fn efer_with_sce(efer: u64) -> (r: u64)
    ensures
        r == efer | 1,
{
    efer | 1
}

} // verus!
