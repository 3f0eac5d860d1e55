//! What the bootloader hands the kernel: the Limine protocol records and
//! the boot modules.

pub mod limine;
pub mod modules;
