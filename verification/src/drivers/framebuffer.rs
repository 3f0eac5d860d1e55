//! The framebuffer console's geometry and text cursor.

use vstd::prelude::*;

verus! {

/// A framebuffer as the bootloader describes it (the address as a plain value).
#[derive(Debug, Clone, Copy)]
pub struct LimineFramebuffer {
    pub address: usize,
    pub width: u64,
    pub height: u64,
    pub pitch: u64,
    pub bpp: u16,
    pub memory_model: u8,
    pub red_mask_size: u8,
    pub red_mask_shift: u8,
    pub green_mask_size: u8,
    pub green_mask_shift: u8,
    pub blue_mask_size: u8,
    pub blue_mask_shift: u8,
}

/// Background colour the console is cleared to on start.
pub const CONSOLE_BACKGROUND: u32 = 0x001B2B34;

/// The graphical console.
pub struct FramebufferConsole {
    pub address: usize,
    pub width: usize,
    pub height: usize,
    pub pitch: usize,
    pub bpp: usize,
    pub cursor_x: usize,
    pub cursor_y: usize,
}

impl FramebufferConsole {
    /// A console with no framebuffer.
    pub fn new() -> (r: Self)
        ensures
            r.address == 0 && r.width == 0 && r.height == 0 && r.pitch == 0 && r.bpp == 0,
            r.cursor_x == 0 && r.cursor_y == 0,
    {
        FramebufferConsole { address: 0, width: 0, height: 0, pitch: 0, bpp: 0, cursor_x: 0, cursor_y: 0 }
    }

    /// Takes the geometry of `fb` and homes the cursor; the screen is then
    /// cleared to `CONSOLE_BACKGROUND`.
    pub fn init(&mut self, fb: LimineFramebuffer)
        ensures
            final(self).address == fb.address,
            final(self).width == fb.width as usize,
            final(self).height == fb.height as usize,
            final(self).pitch == fb.pitch as usize,
            final(self).bpp == fb.bpp as usize,
            final(self).cursor_x == 0 && final(self).cursor_y == 0,
    {
        self.address = fb.address;
        self.width = fb.width as usize;
        self.height = fb.height as usize;
        self.pitch = fb.pitch as usize;
        self.bpp = fb.bpp as usize;
        self.clear_cursor();
    }

    /// Homes the cursor after the screen was filled.
    pub fn clear_cursor(&mut self)
        ensures
            final(self).cursor_x == 0 && final(self).cursor_y == 0,
            final(self).address == old(self).address,
            final(self).width == old(self).width,
            final(self).height == old(self).height,
            final(self).pitch == old(self).pitch,
            final(self).bpp == old(self).bpp,
    {
        self.cursor_x = 0;
        self.cursor_y = 0;
    }
}

} // verus!
