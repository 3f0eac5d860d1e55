//! x86-64 architecture data: descriptor tables, register frames and the
//! programmable interval timer arithmetic.

pub mod frames;
pub mod gdt;
pub mod idt;
pub mod paging;
pub mod pit;
pub mod syscall;
pub mod pic;
