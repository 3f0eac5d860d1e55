//! Device drivers' state: the serial receive ring and the framebuffer console.

pub mod framebuffer;
pub mod serial;
