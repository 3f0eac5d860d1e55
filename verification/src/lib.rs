//! Verified core logic of a POSIX-oriented x86-64 framekernel: memory
//! management, page tables, process credentials, signals, the in-memory
//! filesystem and the POSIX system-call policy layer.

pub mod abi;
pub mod arch;
pub mod boot;
pub mod drivers;
pub mod mm;
pub mod services;
pub mod vfs;
