//! Memory management: page flags, frame allocation, page tables, virtual
//! memory areas, copy-on-write reference counts, the kernel heap and user
//! pointer validation.

pub mod address_space;
pub mod cow;
pub mod flags;
pub mod heap;
pub mod pmm;
pub mod user;
pub mod vma;
pub mod vma_coverage;
pub mod vmm;
