//! Register frames saved on the kernel stack.

use vstd::prelude::*;
use crate::arch::gdt::{USER_CODE_SEL, USER_DATA_SEL, KERNEL_CODE_SEL, KERNEL_DATA_SEL};

verus! {

/// Size in bytes of a `TrapFrame` (twenty 64-bit slots).
pub const TRAP_FRAME_SIZE: usize = 160;

/// Register frame built by the fast `syscall` entry stub.
#[derive(Debug, Clone, Copy, PartialEq, Eq, Structural)]
pub struct SyscallRegisters {
    pub r15: usize,
    pub r14: usize,
    pub r13: usize,
    pub r12: usize,
    pub rbp: usize,
    pub rbx: usize,
    pub r9: usize,
    pub r8: usize,
    pub r10: usize,
    pub rdx: usize,
    pub rsi: usize,
    pub rdi: usize,
    /// Syscall number on entry, return value on exit.
    pub rax: usize,
    /// User RIP saved by `syscall`.
    pub rcx: usize,
    /// User RFLAGS saved by `syscall`.
    pub r11: usize,
    /// User stack pointer.
    pub rsp: usize,
}

/// Hardware exception frame pushed by the CPU.
#[derive(Debug, Clone, Copy, PartialEq, Eq, Structural)]
pub struct InterruptFrame {
    pub rip: u64,
    pub cs: u64,
    pub rflags: u64,
    pub rsp: u64,
    pub ss: u64,
}

/// Complete register context saved across interrupts and task switches:
/// fifteen general-purpose registers followed by the hardware frame.
#[derive(Debug, Clone, Copy, PartialEq, Eq, Structural)]
pub struct TrapFrame {
    pub r15: u64,
    pub r14: u64,
    pub r13: u64,
    pub r12: u64,
    pub r11: u64,
    pub r10: u64,
    pub r9: u64,
    pub r8: u64,
    pub rbp: u64,
    pub rdi: u64,
    pub rsi: u64,
    pub rdx: u64,
    pub rcx: u64,
    pub rbx: u64,
    pub rax: u64,
    pub rip: u64,
    pub cs: u64,
    pub rflags: u64,
    pub rsp: u64,
    pub ss: u64,
}

/// A frame of all-zero registers with the given hardware part.
pub open spec fn spec_entry_frame(rip: u64, cs: u64, rflags: u64, rsp: u64, ss: u64) -> TrapFrame {
    TrapFrame {
        r15: 0, r14: 0, r13: 0, r12: 0, r11: 0, r10: 0, r9: 0, r8: 0, rbp: 0,
        rdi: 0, rsi: 0, rdx: 0, rcx: 0, rbx: 0, rax: 0, rip, cs, rflags, rsp, ss,
    }
}

impl TrapFrame {
    /// Whether the frame was captured in ring 3.
    pub fn is_user_mode(&self) -> (r: bool)
        ensures
            r == (self.cs & 3 == 3 || self.cs as u16 == USER_CODE_SEL),
    {
        (self.cs & 3) == 3 || (self.cs as u16) == USER_CODE_SEL
    }

    /// The frame a fresh user task starts from: entry point, user stack,
    /// user selectors and interrupts enabled.
    pub fn user_entry(entry_point: usize, user_stack_top: usize) -> (r: TrapFrame)
        ensures
            r == spec_entry_frame(entry_point as u64, USER_CODE_SEL as u64, 0x202, user_stack_top as u64, USER_DATA_SEL as u64),
    {
        TrapFrame {
            r15: 0, r14: 0, r13: 0, r12: 0, r11: 0, r10: 0, r9: 0, r8: 0, rbp: 0,
            rdi: 0, rsi: 0, rdx: 0, rcx: 0, rbx: 0, rax: 0,
            rip: entry_point as u64,
            cs: USER_CODE_SEL as u64,
            rflags: 0x202,
            rsp: user_stack_top as u64,
            ss: USER_DATA_SEL as u64,
        }
    }

    /// The frame a kernel task starts from: entry point, the top of its own
    /// stack, kernel selectors and interrupts enabled.
    pub fn kernel_entry(entry_point: usize, stack_top: usize) -> (r: TrapFrame)
        ensures
            r == spec_entry_frame(entry_point as u64, KERNEL_CODE_SEL as u64, 0x202, stack_top as u64, KERNEL_DATA_SEL as u64),
    {
        TrapFrame {
            r15: 0, r14: 0, r13: 0, r12: 0, r11: 0, r10: 0, r9: 0, r8: 0, rbp: 0,
            rdi: 0, rsi: 0, rdx: 0, rcx: 0, rbx: 0, rax: 0,
            rip: entry_point as u64,
            cs: KERNEL_CODE_SEL as u64,
            rflags: 0x202,
            rsp: stack_top as u64,
            ss: KERNEL_DATA_SEL as u64,
        }
    }

    /// The frame a forked child resumes from: the parent's registers, `rax`
    /// zero (the child's `fork` result), the user RIP and RFLAGS that
    /// `syscall` saved in `rcx` and `r11`, whose own slots are cleared.
    pub fn fork_child(p: &SyscallRegisters) -> (r: TrapFrame)
        ensures
            r == (TrapFrame {
                r15: p.r15 as u64, r14: p.r14 as u64, r13: p.r13 as u64, r12: p.r12 as u64,
                r11: 0, r10: p.r10 as u64, r9: p.r9 as u64, r8: p.r8 as u64, rbp: p.rbp as u64,
                rdi: p.rdi as u64, rsi: p.rsi as u64, rdx: p.rdx as u64, rcx: 0, rbx: p.rbx as u64,
                rax: 0, rip: p.rcx as u64, cs: USER_CODE_SEL as u64, rflags: p.r11 as u64,
                rsp: p.rsp as u64, ss: USER_DATA_SEL as u64,
            }),
    {
        TrapFrame {
            r15: p.r15 as u64, r14: p.r14 as u64, r13: p.r13 as u64, r12: p.r12 as u64,
            r11: 0, r10: p.r10 as u64, r9: p.r9 as u64, r8: p.r8 as u64, rbp: p.rbp as u64,
            rdi: p.rdi as u64, rsi: p.rsi as u64, rdx: p.rdx as u64, rcx: 0, rbx: p.rbx as u64,
            rax: 0, rip: p.rcx as u64, cs: USER_CODE_SEL as u64, rflags: p.r11 as u64,
            rsp: p.rsp as u64, ss: USER_DATA_SEL as u64,
        }
    }

    /// The twenty slots in stack order, lowest address first.
    pub open spec fn slots(&self) -> Seq<u64> {
        seq![self.r15, self.r14, self.r13, self.r12, self.r11, self.r10, self.r9, self.r8,
            self.rbp, self.rdi, self.rsi, self.rdx, self.rcx, self.rbx, self.rax,
            self.rip, self.cs, self.rflags, self.rsp, self.ss]
    }
}

/// Little-endian bytes of `v`.
pub open spec fn le_bytes(v: u64) -> Seq<u8> {
    Seq::new(8, |i: int| ((v >> (8 * i) as u64) & 0xff) as u8)
}

/// Writes the little-endian bytes of `v` at `at`.
fn put_u64(stack: &mut Vec<u8>, at: usize, v: u64)
    requires
        at + 8 <= old(stack)@.len(),
    ensures
        final(stack)@.len() == old(stack)@.len(),
        forall|j: int| 0 <= j < 8 ==> final(stack)@[at + j] == le_bytes(v)[j],
        forall|j: int| 0 <= j < old(stack)@.len() && !(at <= j < at + 8) ==> final(stack)@[j] == old(stack)@[j],
{
    let n = stack.len();
    let mut i: usize = 0;
    while i < 8
        invariant
            0 <= i <= 8,
            n == stack@.len(),
            at + 8 <= stack@.len(),
            stack@.len() == old(stack)@.len(),
            forall|j: int| 0 <= j < i ==> stack@[at + j] == le_bytes(v)[j],
            forall|j: int| 0 <= j < old(stack)@.len() && !(at <= j < at + i) ==> stack@[j] == old(stack)@[j],
        decreases 8 - i,
    {
        let b = ((v >> (8 * i) as u64) & 0xff) as u8;
        stack.set(at + i, b);
        i += 1;
    }
}

/// Stores `frame` in the top `TRAP_FRAME_SIZE` bytes of the kernel stack
/// `stack` (which lives at address `stack_addr`) and returns the address of
/// the stored frame, the task's initial saved stack pointer.
pub fn store_trap_frame(stack: &mut Vec<u8>, stack_addr: usize, frame: &TrapFrame) -> (r: usize)
    requires
        old(stack)@.len() >= TRAP_FRAME_SIZE,
        stack_addr + old(stack)@.len() <= usize::MAX,
    ensures
        r == stack_addr + old(stack)@.len() - TRAP_FRAME_SIZE,
        final(stack)@.len() == old(stack)@.len(),
        ({
            let base = old(stack)@.len() - TRAP_FRAME_SIZE;
            &&& forall|k: int, j: int| 0 <= k < 20 && 0 <= j < 8 ==> #[trigger] final(stack)@[base + 8 * k + j] == le_bytes(frame.slots()[k])[j]
            &&& forall|j: int| 0 <= j < base ==> final(stack)@[j] == old(stack)@[j]
        }),
{
    let base = stack.len() - TRAP_FRAME_SIZE;
    let slots: [u64; 20] = [frame.r15, frame.r14, frame.r13, frame.r12, frame.r11, frame.r10, frame.r9, frame.r8,
        frame.rbp, frame.rdi, frame.rsi, frame.rdx, frame.rcx, frame.rbx, frame.rax,
        frame.rip, frame.cs, frame.rflags, frame.rsp, frame.ss];
    proof {
        assert(slots@ =~= frame.slots());
    }
    let n = stack.len();
    let mut k: usize = 0;
    while k < 20
        invariant
            0 <= k <= 20,
            n == stack@.len(),
            base + TRAP_FRAME_SIZE == stack@.len(),
            stack@.len() == old(stack)@.len(),
            slots@ == frame.slots(),
            forall|kk: int, j: int| 0 <= kk < k && 0 <= j < 8 ==> #[trigger] stack@[base + 8 * kk + j] == le_bytes(frame.slots()[kk])[j],
            forall|j: int| 0 <= j < base ==> stack@[j] == old(stack)@[j],
        decreases 20 - k,
    {
        let ghost s0 = stack@;
        put_u64(stack, base + 8 * k, slots[k]);
        proof {
            assert forall|kk: int, j: int| 0 <= kk < k + 1 && 0 <= j < 8 implies #[trigger] stack@[base + 8 * kk + j] == le_bytes(frame.slots()[kk])[j] by {
                if kk < k {
                    assert(s0[base + 8 * kk + j] == stack@[base + 8 * kk + j]);
                } else {
                    assert(stack@[base + 8 * k + j] == le_bytes(slots@[k as int])[j]);
                }
            }
        }
        k += 1;
    }
    stack_addr + base
}

/// Prepares the kernel stack of a task entering user mode at `entry_point`
/// with stack pointer `user_stack_top`: the trap frame goes to the top of
/// `stack`, the bytes below it stay as they were; returns its initial saved
/// stack pointer.
pub fn init_user_kernel_stack(stack: &mut Vec<u8>, stack_addr: usize, entry_point: usize, user_stack_top: usize) -> (r: usize)
    requires
        old(stack)@.len() >= TRAP_FRAME_SIZE,
        stack_addr + old(stack)@.len() <= usize::MAX,
    ensures
        r == stack_addr + old(stack)@.len() - TRAP_FRAME_SIZE,
        final(stack)@.len() == old(stack)@.len(),
        ({
            let base = old(stack)@.len() - TRAP_FRAME_SIZE;
            let f = spec_entry_frame(entry_point as u64, USER_CODE_SEL as u64, 0x202, user_stack_top as u64, USER_DATA_SEL as u64);
            &&& forall|k: int, j: int| 0 <= k < 20 && 0 <= j < 8 ==> #[trigger] final(stack)@[base + 8 * k + j] == le_bytes(f.slots()[k])[j]
            &&& forall|j: int| 0 <= j < base ==> final(stack)@[j] == old(stack)@[j]
        }),
{
    let f = TrapFrame::user_entry(entry_point, user_stack_top);
    store_trap_frame(stack, stack_addr, &f)
}

/// Prepares the kernel stack of a forked child so that it resumes in user
/// mode right after `fork` with result zero; returns its saved stack pointer.
pub fn init_fork_child_stack(stack: &mut Vec<u8>, stack_addr: usize, parent_regs: &SyscallRegisters) -> (r: usize)
    requires
        old(stack)@.len() >= TRAP_FRAME_SIZE,
        stack_addr + old(stack)@.len() <= usize::MAX,
    ensures
        r == stack_addr + old(stack)@.len() - TRAP_FRAME_SIZE,
        final(stack)@.len() == old(stack)@.len(),
        ({
            let base = old(stack)@.len() - TRAP_FRAME_SIZE;
            let p = parent_regs;
            let f = TrapFrame {
                r15: p.r15 as u64, r14: p.r14 as u64, r13: p.r13 as u64, r12: p.r12 as u64,
                r11: 0, r10: p.r10 as u64, r9: p.r9 as u64, r8: p.r8 as u64, rbp: p.rbp as u64,
                rdi: p.rdi as u64, rsi: p.rsi as u64, rdx: p.rdx as u64, rcx: 0, rbx: p.rbx as u64,
                rax: 0, rip: p.rcx as u64, cs: USER_CODE_SEL as u64, rflags: p.r11 as u64,
                rsp: p.rsp as u64, ss: USER_DATA_SEL as u64,
            };
            &&& forall|k: int, j: int| 0 <= k < 20 && 0 <= j < 8 ==> #[trigger] final(stack)@[base + 8 * k + j] == le_bytes(f.slots()[k])[j]
            &&& forall|j: int| 0 <= j < base ==> final(stack)@[j] == old(stack)@[j]
        }),
{
    let f = TrapFrame::fork_child(parent_regs);
    store_trap_frame(stack, stack_addr, &f)
}

/// Prepares the kernel stack of a kernel task starting at `entry_point`;
/// the task's stack pointer starts at the top of `stack`.
pub fn init_kernel_task_stack(stack: &mut Vec<u8>, stack_addr: usize, entry_point: usize) -> (r: usize)
    requires
        old(stack)@.len() >= TRAP_FRAME_SIZE,
        stack_addr + old(stack)@.len() <= usize::MAX,
    ensures
        r == stack_addr + old(stack)@.len() - TRAP_FRAME_SIZE,
        final(stack)@.len() == old(stack)@.len(),
        ({
            let base = old(stack)@.len() - TRAP_FRAME_SIZE;
            let f = spec_entry_frame(entry_point as u64, KERNEL_CODE_SEL as u64, 0x202,
                (stack_addr + old(stack)@.len()) as u64, KERNEL_DATA_SEL as u64);
            &&& forall|k: int, j: int| 0 <= k < 20 && 0 <= j < 8 ==> #[trigger] final(stack)@[base + 8 * k + j] == le_bytes(f.slots()[k])[j]
            &&& forall|j: int| 0 <= j < base ==> final(stack)@[j] == old(stack)@[j]
        }),
{
    let stack_top = stack_addr + stack.len();
    let f = TrapFrame::kernel_entry(entry_point, stack_top);
    store_trap_frame(stack, stack_addr, &f)
}

} // verus!
