//! Screen geometry and the framebuffer the PPU renders into.

use vstd::prelude::*;

verus! {

/// Visible pixels per scanline.
pub const SCREEN_WIDTH: usize = 256;

/// Visible scanlines per field.
pub const SCREEN_HEIGHT: usize = 224;

/// Pixels of one field.
pub const FRAME_PIXELS: usize = 57344;

/// One field of BGR555 pixels (`0BBBBBGG GGGRRRRR`), row-major, 256 x 224.
pub struct FrameBuffer(pub Box<[u16; 57344]>);

impl FrameBuffer {
    pub fn new() -> (fb: FrameBuffer)
        ensures
            forall|i: int| 0 <= i < FRAME_PIXELS ==> fb.0[i] == 0,
    {
        FrameBuffer(Box::new([0u16; 57344]))
    }
}

} // verus!
