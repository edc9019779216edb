use vstd::prelude::*;

verus! {

pub const WIDTH: usize = 256;
pub const HEIGHT: usize = 240;
/// Bytes of an RGB frame of `WIDTH` by `HEIGHT` pixels.
pub const SCREEN_BYTES: usize = 184320;

/// An RGB frame, row by row, three bytes per pixel.
pub struct Screen {
    pub pixels: [u8; SCREEN_BYTES],
}

/// The frame after pixel (`x`, `y`) is set to `color`; pixels outside the
/// frame are ignored.
pub open spec fn screen_set(pixels: Seq<u8>, x: int, y: int, color: (u8, u8, u8)) -> Seq<u8> {
    if 0 <= x < WIDTH && 0 <= y < HEIGHT {
        let addr = (y * WIDTH + x) * 3;
        pixels.update(addr, color.0).update(addr + 1, color.1).update(addr + 2, color.2)
    } else {
        pixels
    }
}

impl Screen {
    pub fn new() -> (s: Screen)
        ensures
            forall|i: int| 0 <= i < SCREEN_BYTES ==> s.pixels@[i] == 0,
    {
        Screen { pixels: [0; SCREEN_BYTES] }
    }

    pub fn set(&mut self, x: usize, y: usize, color: (u8, u8, u8))
        ensures
            final(self).pixels@ == screen_set(old(self).pixels@, x as int, y as int, color),
    {
        if x < WIDTH && y < HEIGHT {
            let addr = (y * WIDTH + x) * 3;
            assert(addr + 2 < SCREEN_BYTES) by (nonlinear_arith)
                requires
                    addr == (y * WIDTH + x) * 3,
                    x < WIDTH,
                    y < HEIGHT,
            ;
            self.pixels[addr] = color.0;
            self.pixels[addr + 1] = color.1;
            self.pixels[addr + 2] = color.2;
        }
    }
}

} // verus!
