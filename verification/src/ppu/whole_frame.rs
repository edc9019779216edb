use vstd::prelude::*;
use crate::cpu::mappers::Mapper;
use crate::cpu::rom::Mirroring;
use super::overlay::{sprite_drawable, sprites_drawn, tile_color};
use super::registers::{has, CTRL_BACKROUND_PATTERN_ADDR, MASK_SHOW_BACKGROUND, MASK_SHOW_SPRITES};
use super::render::{nes_color, palette_color};
use super::screen::SCREEN_BYTES;
use super::PPU;

verus! {

// ---------------------------------------------------------------------------
// Drawing a whole frame at once
// ---------------------------------------------------------------------------

/// The VRAM offsets of the nametable drawn at the left of a background two
/// screens wide and of the one drawn at its right, by the cartridge's
/// mirroring and PPUCTRL's base nametable (`sel`, 0 to 3).
pub open spec fn shown_nametables(m: Mirroring, sel: int) -> (int, int) {
    match m {
        Mirroring::Vertical => if sel % 2 == 0 {
            (0, 0x400)
        } else {
            (0x400, 0)
        },
        Mirroring::Horizontal => if sel < 2 {
            (0, 0x400)
        } else {
            (0x400, 0)
        },
        Mirroring::OneScreenLowerBank => (0, 0),
        Mirroring::OneScreenUpperBank => (0x400, 0x400),
        Mirroring::FourScreen => if sel == 0 {
            (0, 0x400)
        } else if sel == 1 {
            (0x400, 0x800)
        } else if sel == 2 {
            (0x800, 0xc00)
        } else {
            (0xc00, 0x800)
        },
    }
}

/// The nametable that column `x` (0-511) of the wide background shows.
pub open spec fn bg_nametable(p: PPU, x: int) -> int {
    let (a, b) = shown_nametables(p.rom.cart.mirroring, p.regs.ctrl.bits as int % 4);
    if x < 256 {
        a
    } else {
        b
    }
}

/// The pattern table of the background.
pub open spec fn bg_bank(p: PPU) -> int {
    if has(p.regs.ctrl.bits, CTRL_BACKROUND_PATTERN_ADDR) {
        0x1000
    } else {
        0
    }
}

/// The address of the low pattern byte of the row of pixel (`x`, `y`) of
/// the wide background; the high byte is eight further.
pub open spec fn bg_pattern_addr(p: PPU, x: int, y: int) -> int {
    let nt = bg_nametable(p, x);
    let tile = p.vram@[nt + (y / 8) * 32 + (x % 256) / 8];
    bg_bank(p) + tile * 16 + y % 8
}

/// The colour index (0-3) of pixel (`x`, `y`) of the wide background.
pub open spec fn bg_color_index(p: PPU, x: int, y: int) -> u8 {
    let a = bg_pattern_addr(p, x, y);
    tile_color(
        p.rom.mapper.read_value(&p.rom.cart, a as u16),
        p.rom.mapper.read_value(&p.rom.cart, (a + 8) as u16),
        (7 - x % 8) as u8,
    )
}

/// The palette number (0-3) that the attribute table gives pixel (`x`,
/// `y`) of the wide background: two bits per block of 2x2 tiles.
pub open spec fn bg_attribute(p: PPU, x: int, y: int) -> u8 {
    let tc = (x % 256) / 8;
    let tr = y / 8;
    let byte = p.vram@[bg_nametable(p, x) + 0x3c0 + (tr / 4) * 8 + tc / 4];
    (byte >> ((2 * ((tc % 4) / 2) + 4 * ((tr % 4) / 2)) as u8)) & 3
}

/// The palette RAM entry of pixel (`x`, `y`) of the wide background: the
/// shared backdrop for colour 0.
pub open spec fn bg_palette_entry(p: PPU, x: int, y: int) -> int {
    let c = bg_color_index(p, x, y);
    if c == 0 {
        0
    } else {
        4 * bg_attribute(p, x, y) + c
    }
}

/// The background's palette entries: colour 0 of every tile shows the
/// shared backdrop (entry 0); any other colour `c` of a tile whose
/// attribute selects palette `a` shows entry 4 * `a` + `c`, so entries are
/// never shared between palettes.
#[verifier::rlimit(40)]
pub proof fn law_background_palettes(p: PPU, x: int, y: int)
    requires
        0 <= x < 512,
        0 <= y < 240,
    ensures
        bg_color_index(p, x, y) == 0 ==> bg_palette_entry(p, x, y) == 0,
        bg_color_index(p, x, y) != 0 ==> bg_palette_entry(p, x, y) % 4 == bg_color_index(p, x, y) % 4
            && bg_palette_entry(p, x, y) / 4 == bg_attribute(p, x, y),
{
    crate::ppu::overlay::lemma_tile_color(
        p.rom.mapper.read_value(&p.rom.cart, bg_pattern_addr(p, x, y) as u16),
        p.rom.mapper.read_value(&p.rom.cart, (bg_pattern_addr(p, x, y) + 8) as u16),
        (7 - x % 8) as u8,
    );
    let tc = (x % 256) / 8;
    let tr = y / 8;
    let byte: u8 = p.vram@[bg_nametable(p, x) + 0x3c0 + (tr / 4) * 8 + tc / 4];
    let sh: u8 = (2 * ((tc % 4) / 2) + 4 * ((tr % 4) / 2)) as u8;
    assert((byte >> sh) & 3 <= 3) by (bit_vector);
}

/// The colour of pixel (`x`, `y`) of the wide background.
pub open spec fn bg_color(p: PPU, x: int, y: int) -> (u8, u8, u8) {
    nes_color(p.palette@[bg_palette_entry(p, x, y)] as int)
}

/// Pixel (`x`, `y`) of the wide background can be drawn: its nametable is
/// in VRAM, its pattern bytes can be read and its palette entry names a
/// colour there is.
pub open spec fn bg_pixel_ok(p: PPU, x: int, y: int) -> bool {
    &&& bg_nametable(p, x) + 0x400 <= 2048
    &&& p.rom.mapper.read_ok(&p.rom.cart, bg_pattern_addr(p, x, y) as u16)
    &&& p.rom.mapper.read_ok(&p.rom.cart, (bg_pattern_addr(p, x, y) + 8) as u16)
    &&& p.palette@[bg_palette_entry(p, x, y)] < 64
}

/// Every pixel of the nametables drawn can be drawn: the left one, and the
/// right one too when the frame is scrolled.
pub open spec fn bg_drawable(p: PPU) -> bool {
    let w = if p.regs.scroll.x > 0 {
        512int
    } else {
        256int
    };
    forall|x: int, y: int| 0 <= x < w && 0 <= y < 240 ==> #[trigger] bg_pixel_ok(p, x, y)
}

/// Byte `k` of the background in the frame: pixel (`x`, `y`) of the frame
/// is pixel (`x` + scroll X, `y`) of the wide background.
pub open spec fn bg_frame_byte(p: PPU, k: int) -> u8 {
    let i = k / 3;
    let c = bg_color(p, p.regs.scroll.x + i % 256, i / 256);
    if k % 3 == 0 {
        c.0
    } else if k % 3 == 1 {
        c.1
    } else {
        c.2
    }
}

/// The frame drawn at once: the background (when shown) fills it, then the
/// sprites (when shown) are drawn over it.
pub open spec fn frame_rendered(p: PPU, f: Seq<u8>) -> Seq<u8> {
    let g = if has(p.regs.mask.bits, MASK_SHOW_BACKGROUND) {
        Seq::new(f.len(), |k: int| bg_frame_byte(p, k))
    } else {
        f
    };
    if has(p.regs.mask.bits, MASK_SHOW_SPRITES) {
        sprites_drawn(p, g, 64)
    } else {
        g
    }
}

proof fn lemma_pixel_offset(x: int, y: int, c: int)
    by (nonlinear_arith)
    requires
        0 <= x < 256,
        0 <= y < 240,
        0 <= c < 3,
    ensures
        (3 * (256 * y + x) + c) / 3 == 256 * y + x,
        (3 * (256 * y + x) + c) % 3 == c,
        (256 * y + x) % 256 == x,
        (256 * y + x) / 256 == y,
        3 * (256 * y + x) + 2 < 184320,
{
}

proof fn lemma_bg_indices(x: int, y: int)
    by (nonlinear_arith)
    requires
        0 <= x < 512,
        0 <= y < 240,
    ensures
        0 <= (y / 8) * 32 + (x % 256) / 8 < 960,
        0 <= ((y / 8) / 4) * 8 + ((x % 256) / 8) / 4 < 64,
        0 <= x % 8 < 8,
        0 <= y % 8 < 8,
        0 <= 2 * ((((x % 256) / 8) % 4) / 2) + 4 * (((y / 8) % 4) / 2) <= 6,
{
}

impl PPU {
    /// The nametables drawn at the left and at the right of the wide
    /// background.
    fn nametables_shown(&self) -> (r: (usize, usize))
        ensures
            r.0 as int == shown_nametables(self.rom.cart.mirroring, self.regs.ctrl.bits as int % 4).0,
            r.1 as int == shown_nametables(self.rom.cart.mirroring, self.regs.ctrl.bits as int % 4).1,
    {
        let sel = self.regs.ctrl.bits % 4;
        match self.rom.cart.mirroring {
            Mirroring::Vertical => if sel % 2 == 0 {
                (0, 0x400)
            } else {
                (0x400, 0)
            },
            Mirroring::Horizontal => if sel < 2 {
                (0, 0x400)
            } else {
                (0x400, 0)
            },
            Mirroring::OneScreenLowerBank => (0, 0),
            Mirroring::OneScreenUpperBank => (0x400, 0x400),
            Mirroring::FourScreen => if sel == 0 {
                (0, 0x400)
            } else if sel == 1 {
                (0x400, 0x800)
            } else if sel == 2 {
                (0x800, 0xc00)
            } else {
                (0xc00, 0x800)
            },
        }
    }

    /// The colour of pixel (`x`, `y`) of the wide background.
    fn background_color(&mut self, nt1: usize, nt2: usize, bank: u16, x: usize, y: usize) -> (c: (
        u8,
        u8,
        u8,
    ))
        requires
            old(self).rom.mapper.inv(),
            x < 512,
            y < 240,
            nt1 as int == shown_nametables(old(self).rom.cart.mirroring, old(self).regs.ctrl.bits as int % 4).0,
            nt2 as int == shown_nametables(old(self).rom.cart.mirroring, old(self).regs.ctrl.bits as int % 4).1,
            bank as int == bg_bank(*old(self)),
            bg_pixel_ok(*old(self), x as int, y as int),
        ensures
            *final(self) == *old(self),
            c == bg_color(*old(self), x as int, y as int),
    {
        let ghost p = *self;
        proof {
            lemma_bg_indices(x as int, y as int);
        }
        let nt = if x < 256 {
            nt1
        } else {
            nt2
        };
        let cx = x % 256;
        let tc = cx / 8;
        let tr = y / 8;
        let tile = self.vram[nt + tr * 32 + tc] as u16;
        let addr: u16 = bank + tile * 16 + (y % 8) as u16;
        assert(addr as int == bg_pattern_addr(p, x as int, y as int));
        let lo = self.read_chr(addr);
        let hi = self.read_chr(addr + 8);
        let shift: u8 = (7 - cx % 8) as u8;
        let color_idx: u8 = (((hi >> shift) & 1) << 1) | ((lo >> shift) & 1);
        assert(color_idx == bg_color_index(p, x as int, y as int));
        let attr_byte = self.vram[nt + 0x3c0 + (tr / 4) * 8 + tc / 4];
        let sh: u8 = (2 * ((tc % 4) / 2) + 4 * ((tr % 4) / 2)) as u8;
        let attr: u8 = (attr_byte >> sh) & 3;
        assert(attr == bg_attribute(p, x as int, y as int));
        assert(attr <= 3) by (bit_vector)
            requires
                attr == (attr_byte >> sh) & 3,
        ;
        proof {
            crate::ppu::overlay::lemma_tile_color(lo, hi, shift);
        }
        let entry: usize = if color_idx == 0 {
            0
        } else {
            4 * attr as usize + color_idx as usize
        };
        palette_color(self.palette[entry])
    }

    /// Draws the whole frame at once into `frame`, an RGB frame of 256 by
    /// 240 pixels: when the background is shown, every pixel is the pixel
    /// of the background, two nametables wide, scrolled horizontally by
    /// the scroll register's X; then, when sprites are shown, the 64
    /// sprites are drawn over it. Every tile is drawn afresh from VRAM and
    /// the pattern tables.
    pub fn render_frame(&mut self, frame: &mut [u8])
        requires
            old(self).rom.mapper.inv(),
            old(frame)@.len() == SCREEN_BYTES,
            has(old(self).regs.mask.bits, MASK_SHOW_BACKGROUND) ==> bg_drawable(*old(self)),
            has(old(self).regs.mask.bits, MASK_SHOW_SPRITES) ==> forall|j: int|
                0 <= j < 64 ==> #[trigger] sprite_drawable(*old(self), j),
        ensures
            *final(self) == *old(self),
            final(frame)@ == frame_rendered(*old(self), old(frame)@),
    {
        let ghost p = *self;
        let ghost f0 = frame@;
        if self.regs.show_background() {
            let (nt1, nt2) = self.nametables_shown();
            let bank = self.regs.ctrl.background_chr_offset();
            let scroll_x = self.regs.scroll.x as usize;
            let mut y: usize = 0;
            while y < 240
                invariant
                    y <= 240,
                    *self == p,
                    p.rom.mapper.inv(),
                    bg_drawable(p),
                    scroll_x == p.regs.scroll.x,
                    nt1 as int == shown_nametables(p.rom.cart.mirroring, p.regs.ctrl.bits as int % 4).0,
                    nt2 as int == shown_nametables(p.rom.cart.mirroring, p.regs.ctrl.bits as int % 4).1,
                    bank as int == bg_bank(p),
                    frame@.len() == SCREEN_BYTES,
                    forall|k: int| 0 <= k < 768 * y ==> #[trigger] frame@[k] == bg_frame_byte(p, k),
                decreases 240 - y,
            {
                let mut x: usize = 0;
                while x < 256
                    invariant
                        y < 240,
                        x <= 256,
                        *self == p,
                        p.rom.mapper.inv(),
                        bg_drawable(p),
                        scroll_x == p.regs.scroll.x,
                        nt1 as int == shown_nametables(p.rom.cart.mirroring, p.regs.ctrl.bits as int % 4).0,
                        nt2 as int == shown_nametables(p.rom.cart.mirroring, p.regs.ctrl.bits as int % 4).1,
                        bank as int == bg_bank(p),
                        frame@.len() == SCREEN_BYTES,
                        forall|k: int|
                            0 <= k < 768 * y + 3 * x ==> #[trigger] frame@[k] == bg_frame_byte(p, k),
                    decreases 256 - x,
                {
                    let wx = scroll_x + x;
                    assert(bg_pixel_ok(p, wx as int, y as int));
                    let c = self.background_color(nt1, nt2, bank, wx, y);
                    proof {
                        lemma_pixel_offset(x as int, y as int, 0);
                        lemma_pixel_offset(x as int, y as int, 1);
                        lemma_pixel_offset(x as int, y as int, 2);
                    }
                    let o = (y * 256 + x) * 3;
                    frame[o] = c.0;
                    frame[o + 1] = c.1;
                    frame[o + 2] = c.2;
                    assert(frame@[o as int] == bg_frame_byte(p, o as int));
                    assert(frame@[o + 1] == bg_frame_byte(p, o + 1));
                    assert(frame@[o + 2] == bg_frame_byte(p, o + 2));
                    x += 1;
                }
                y += 1;
            }
            assert(frame@ == Seq::new(f0.len(), |k: int| bg_frame_byte(p, k)));
        }
        if self.regs.show_sprites() {
            self.render_sprites(frame);
        }
    }
}

} // verus!
