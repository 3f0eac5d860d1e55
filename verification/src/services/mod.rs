//! POSIX services above the memory-management core: signals, processes,
//! scheduling, pipes, the terminal line discipline and the audit trail.

pub mod audit;
pub mod elf;
pub mod elf_facts;
pub mod ipc;
pub mod monitor;
pub mod posix;
pub mod process;
pub mod scheduler;
pub mod signal;
pub mod text;
pub mod tty;
