use vstd::prelude::*;
use crate::cpu::mappers::Mapper;
use super::registers::{has, SpriteSize, CTRL_SPRITE_PATTERN_ADDR, CTRL_SPRITE_SIZE};
use super::render::{nes_color, palette_color};
use super::PPU;

verus! {

// ---------------------------------------------------------------------------
// Drawing a whole sprite layer over a finished frame
// ---------------------------------------------------------------------------

/// The colour index (0-3) of the pixel `shift` bits from the right of a
/// tile row whose bit planes are `lo` and `hi`.
pub open spec fn tile_color(lo: u8, hi: u8, shift: u8) -> u8 {
    (((hi >> shift) & 1) << 1) | ((lo >> shift) & 1)
}

/// Where the pixel of column `x`, row `y` of a tile placed at (`tx`, `ty`)
/// lands, flipped as asked: its first byte in a frame 256 pixels wide.
pub open spec fn tile_pixel_offset(tx: int, ty: int, x: int, y: int, flip_h: bool, flip_v: bool) -> int {
    let fx = if flip_h { 7 - x } else { x };
    let fy = if flip_v { 7 - y } else { y };
    ((ty + fy) * 256 + tx + fx) * 3
}

/// Where a sprite tile's pixels land: unflipped, pixel (`x`, `y`) of a
/// tile placed at (`tx`, `ty`) is screen pixel (`tx` + `x`, `ty` + `y`) of
/// a frame 256 pixels wide; the vertical flip draws tile row `y` where row
/// 7 - `y` goes unflipped, and the horizontal flip does the same for
/// columns.
pub proof fn law_sprite_flips(tx: int, ty: int, x: int, y: int, flip_h: bool, flip_v: bool)
    requires
        0 <= x < 8,
        0 <= y < 8,
    ensures
        tile_pixel_offset(tx, ty, x, y, false, false) == ((ty + y) * 256 + tx + x) * 3,
        tile_pixel_offset(tx, ty, x, y, flip_h, true) == tile_pixel_offset(tx, ty, x, 7 - y, flip_h, false),
        tile_pixel_offset(tx, ty, x, y, true, flip_v) == tile_pixel_offset(tx, ty, 7 - x, y, false, flip_v),
{
}

/// The frame after one pixel of a sprite tile, of colour index `c`: a
/// transparent colour, or a pixel past the end of the frame, leaves it as
/// it is.
pub open spec fn tile_pixel_drawn(
    frame: Seq<u8>,
    palette: Seq<Option<(u8, u8, u8)>>,
    c: u8,
    tx: int,
    ty: int,
    x: int,
    y: int,
    flip_h: bool,
    flip_v: bool,
) -> Seq<u8> {
    match palette[c as int] {
        None => frame,
        Some(rgb) => {
            let o = tile_pixel_offset(tx, ty, x, y, flip_h, flip_v);
            if o < frame.len() {
                frame.update(o, rgb.0).update(o + 1, rgb.1).update(o + 2, rgb.2)
            } else {
                frame
            }
        },
    }
}

/// The frame after the first `k` pixels of row `y` of a tile, from the
/// rightmost column leftwards.
pub open spec fn tile_row_drawn(
    frame: Seq<u8>,
    palette: Seq<Option<(u8, u8, u8)>>,
    lo: u8,
    hi: u8,
    tx: int,
    ty: int,
    y: int,
    flip_h: bool,
    flip_v: bool,
    k: int,
) -> Seq<u8>
    decreases k,
{
    if k <= 0 {
        frame
    } else {
        let f = tile_row_drawn(frame, palette, lo, hi, tx, ty, y, flip_h, flip_v, k - 1);
        let x = 8 - k;
        tile_pixel_drawn(f, palette, tile_color(lo, hi, (7 - x) as u8), tx, ty, x, y, flip_h, flip_v)
    }
}

/// The frame after the first `n` rows of a tile whose 16 pattern bytes are
/// `tile` (eight low planes, then eight high planes).
pub open spec fn tile_drawn(
    frame: Seq<u8>,
    palette: Seq<Option<(u8, u8, u8)>>,
    tile: Seq<u8>,
    tx: int,
    ty: int,
    flip_h: bool,
    flip_v: bool,
    n: int,
) -> Seq<u8>
    decreases n,
{
    if n <= 0 {
        frame
    } else {
        let f = tile_drawn(frame, palette, tile, tx, ty, flip_h, flip_v, n - 1);
        tile_row_drawn(f, palette, tile[n - 1], tile[n + 7], tx, ty, n - 1, flip_h, flip_v, 8)
    }
}

/// The 16 pattern bytes of tile `nth` of the pattern table at `bank`.
pub open spec fn sprite_tile_bytes(p: PPU, bank: int, nth: int) -> Seq<u8> {
    Seq::new(16, |i: int| p.rom.mapper.read_value(&p.rom.cart, (bank + nth * 16 + i) as u16))
}

/// The cartridge answers the 16 reads of tile `nth` of the pattern table at
/// `bank`.
pub open spec fn sprite_tile_readable(p: PPU, bank: int, nth: int) -> bool {
    &&& bank + nth * 16 + 16 <= 0x1_0000
    &&& forall|i: int| 0 <= i < 16 ==> #[trigger] p.rom.mapper.read_ok(&p.rom.cart, (bank + nth * 16 + i) as u16)
}

/// The byte of sprite `j`'s four in OAM at `k`.
pub open spec fn oam_byte(p: PPU, j: int, k: int) -> u8 {
    p.attributes@[4 * j + k]
}

/// The four colours of sprite palette `pidx`, the first transparent.
pub open spec fn sprite_palette_colors(p: PPU, pidx: int) -> Seq<Option<(u8, u8, u8)>> {
    seq![
        None,
        Some(nes_color(p.palette@[0x11 + 4 * pidx] as int)),
        Some(nes_color(p.palette@[0x12 + 4 * pidx] as int)),
        Some(nes_color(p.palette@[0x13 + 4 * pidx] as int)),
    ]
}

/// The three palette bytes of sprite palette `pidx` name colours there are.
pub open spec fn sprite_palette_ok(p: PPU, pidx: int) -> bool {
    &&& p.palette@[0x11 + 4 * pidx] < 64
    &&& p.palette@[0x12 + 4 * pidx] < 64
    &&& p.palette@[0x13 + 4 * pidx] < 64
}

pub open spec fn tall_sprites(p: PPU) -> bool {
    has(p.regs.ctrl.bits, CTRL_SPRITE_SIZE)
}

/// The pattern table of sprite `j`: PPUCTRL's for 8x8 sprites, the tile
/// number's low bit for 8x16 ones.
pub open spec fn sprite_bank(p: PPU, j: int) -> int {
    if tall_sprites(p) {
        (oam_byte(p, j, 1) % 2) * 0x1000
    } else {
        if has(p.regs.ctrl.bits, CTRL_SPRITE_PATTERN_ADDR) {
            0x1000
        } else {
            0
        }
    }
}

/// The tile drawn at the top of sprite `j` (for a flipped 8x16 sprite, the
/// second of its two).
pub open spec fn sprite_top_tile(p: PPU, j: int) -> int {
    if tall_sprites(p) && oam_byte(p, j, 2) & 0x80 != 0 {
        oam_byte(p, j, 1) + 1
    } else {
        oam_byte(p, j, 1) as int
    }
}

/// The tile drawn at the bottom of 8x16 sprite `j`.
pub open spec fn sprite_bottom_tile(p: PPU, j: int) -> int {
    if oam_byte(p, j, 2) & 0x80 != 0 {
        oam_byte(p, j, 1) as int
    } else {
        oam_byte(p, j, 1) + 1
    }
}

/// Sprite `j` can be drawn: its palette names colours and its tiles can be
/// read.
pub open spec fn sprite_drawable(p: PPU, j: int) -> bool {
    &&& sprite_palette_ok(p, (oam_byte(p, j, 2) % 4) as int)
    &&& sprite_tile_readable(p, sprite_bank(p, j), sprite_top_tile(p, j))
    &&& tall_sprites(p) ==> sprite_tile_readable(p, sprite_bank(p, j), sprite_bottom_tile(p, j))
}

/// The frame after sprite `j` is drawn over it, one line below the top its
/// OAM entry gives.
pub open spec fn sprite_drawn(p: PPU, frame: Seq<u8>, j: int) -> Seq<u8> {
    let attr = oam_byte(p, j, 2);
    let palette = sprite_palette_colors(p, (attr % 4) as int);
    let tx = oam_byte(p, j, 3) as int;
    let ty = oam_byte(p, j, 0) + 1;
    let flip_h = attr & 0x40 != 0;
    let flip_v = attr & 0x80 != 0;
    let bank = sprite_bank(p, j);
    let top = tile_drawn(
        frame,
        palette,
        sprite_tile_bytes(p, bank, sprite_top_tile(p, j)),
        tx,
        ty,
        flip_h,
        flip_v,
        8,
    );
    if tall_sprites(p) {
        tile_drawn(
            top,
            palette,
            sprite_tile_bytes(p, bank, sprite_bottom_tile(p, j)),
            tx,
            ty + 8,
            flip_h,
            flip_v,
            8,
        )
    } else {
        top
    }
}

/// The frame after the last `n` sprites are drawn over it, from sprite 63
/// down, so that sprites earlier in OAM end up in front.
pub open spec fn sprites_drawn(p: PPU, frame: Seq<u8>, n: int) -> Seq<u8>
    decreases n,
{
    if n <= 0 {
        frame
    } else {
        sprite_drawn(p, sprites_drawn(p, frame, n - 1), 64 - n)
    }
}

pub(crate) proof fn lemma_tile_color(lo: u8, hi: u8, shift: u8)
    by (bit_vector)
    ensures
        tile_color(lo, hi, shift) < 4,
{
}

impl PPU {
    /// Draws tile `nth` of the pattern table at `chr_bank_offset` with its
    /// top left corner at (`tile_x`, `tile_y`) of `frame`, an RGB frame 256
    /// pixels wide; colour 0 is transparent and pixels past the end of the
    /// frame are dropped. The background is taken as transparent, so
    /// `behind_background` changes nothing.
    pub fn render_sprite_tile(
        &mut self,
        chr_bank_offset: u16,
        nth: usize,
        tile_x: usize,
        tile_y: usize,
        behind_background: bool,
        flip_horizontally: bool,
        flip_vertically: bool,
        palette: [Option<(u8, u8, u8)>; 4],
        frame: &mut [u8],
    )
        requires
            old(self).rom.mapper.inv(),
            sprite_tile_readable(*old(self), chr_bank_offset as int, nth as int),
            tile_x < 0x1_0000,
            tile_y < 0x1_0000,
            old(frame)@.len() % 3 == 0,
        ensures
            *final(self) == *old(self),
            final(frame)@.len() == old(frame)@.len(),
            final(frame)@ == tile_drawn(
                old(frame)@,
                palette@,
                sprite_tile_bytes(*old(self), chr_bank_offset as int, nth as int),
                tile_x as int,
                tile_y as int,
                flip_horizontally,
                flip_vertically,
                8,
            ),
    {
        let ghost p = *self;
        let offset: u16 = chr_bank_offset + (nth * 16) as u16;
        let mut tile = [0u8; 16];
        let mut i: usize = 0;
        while i < 16
            invariant
                i <= 16,
                *self == p,
                p.rom.mapper.inv(),
                sprite_tile_readable(p, chr_bank_offset as int, nth as int),
                offset as int == chr_bank_offset + nth * 16,
                forall|q: int| 0 <= q < i ==> tile@[q] == #[trigger] sprite_tile_bytes(
                    p,
                    chr_bank_offset as int,
                    nth as int,
                )[q],
            decreases 16 - i,
        {
            assert(p.rom.mapper.read_ok(&p.rom.cart, (chr_bank_offset + nth * 16 + i) as u16));
            let b = self.read_chr(offset + i as u16);
            tile[i] = b;
            i += 1;
        }
        let ghost bytes = sprite_tile_bytes(p, chr_bank_offset as int, nth as int);
        assert(tile@ == bytes);
        let ghost f0 = frame@;
        let mut y: usize = 0;
        while y < 8
            invariant
                y <= 8,
                tile@ == bytes,
                bytes.len() == 16,
                tile_x < 0x1_0000,
                tile_y < 0x1_0000,
                frame@.len() == f0.len(),
                f0.len() % 3 == 0,
                frame@ == tile_drawn(
                    f0,
                    palette@,
                    bytes,
                    tile_x as int,
                    tile_y as int,
                    flip_horizontally,
                    flip_vertically,
                    y as int,
                ),
            decreases 8 - y,
        {
            let lo = tile[y];
            let hi = tile[y + 8];
            let ghost g0 = frame@;
            let mut k: usize = 0;
            while k < 8
                invariant
                    y < 8,
                    k <= 8,
                    tile_x < 0x1_0000,
                    tile_y < 0x1_0000,
                    frame@.len() == f0.len(),
                    f0.len() % 3 == 0,
                    frame@ == tile_row_drawn(
                        g0,
                        palette@,
                        lo,
                        hi,
                        tile_x as int,
                        tile_y as int,
                        y as int,
                        flip_horizontally,
                        flip_vertically,
                        k as int,
                    ),
                decreases 8 - k,
            {
                let x: usize = 7 - k;
                let shift: u8 = k as u8;
                proof {
                    lemma_tile_color(lo, hi, shift);
                }
                let color_idx: u8 = (((hi >> shift) & 1) << 1) | ((lo >> shift) & 1);
                match palette[color_idx as usize] {
                    Some(rgb) => {
                        let fx: usize = if flip_horizontally {
                            7 - x
                        } else {
                            x
                        };
                        let fy: usize = if flip_vertically {
                            7 - y
                        } else {
                            y
                        };
                        let pixel_x = tile_x + fx;
                        let pixel_y = tile_y + fy;
                        let o = (pixel_y * 256 + pixel_x) * 3;
                        assert(o == tile_pixel_offset(
                            tile_x as int,
                            tile_y as int,
                            x as int,
                            y as int,
                            flip_horizontally,
                            flip_vertically,
                        ));
                        if o < frame.len() {
                            assert(o + 2 < frame@.len()) by (nonlinear_arith)
                                requires
                                    o < frame@.len(),
                                    frame@.len() % 3 == 0,
                                    o == (pixel_y * 256 + pixel_x) * 3,
                            ;
                            frame[o] = rgb.0;
                            frame[o + 1] = rgb.1;
                            frame[o + 2] = rgb.2;
                        }
                    },
                    None => {},
                }
                k += 1;
            }
            y += 1;
        }
    }

    /// Draws the 64 sprites of OAM over `frame`, an RGB frame 256 pixels
    /// wide, from the last to the first, so that sprites earlier in OAM end
    /// up in front.
    pub fn render_sprites(&mut self, frame: &mut [u8])
        requires
            old(self).rom.mapper.inv(),
            old(frame)@.len() % 3 == 0,
            forall|j: int| 0 <= j < 64 ==> #[trigger] sprite_drawable(*old(self), j),
        ensures
            *final(self) == *old(self),
            final(frame)@ == sprites_drawn(*old(self), old(frame)@, 64),
    {
        let ghost p = *self;
        let ghost f0 = frame@;
        let sprite_size = self.regs.ctrl.sprite_size();
        let mut n: usize = 0;
        while n < 64
            invariant
                n <= 64,
                *self == p,
                p.rom.mapper.inv(),
                f0.len() % 3 == 0,
                frame@.len() == f0.len(),
                forall|j: int| 0 <= j < 64 ==> #[trigger] sprite_drawable(p, j),
                sprite_size == (if tall_sprites(p) {
                    SpriteSize::Sprite8x16
                } else {
                    SpriteSize::Sprite8x8
                }),
                frame@ == sprites_drawn(p, f0, n as int),
            decreases 64 - n,
        {
            let j: usize = 63 - n;
            let i: usize = 4 * j;
            assert(sprite_drawable(p, j as int));
            let sprite_y = self.attributes[i] as usize + 1;
            let sprite_tile_idx = self.attributes[i + 1] as usize;
            let sprite_attr = self.attributes[i + 2];
            let sprite_x = self.attributes[i + 3] as usize;
            let palette_idx = sprite_attr & 0b11;
            let behind_background = sprite_attr & 0b0010_0000 != 0;
            let flip_horizontally = sprite_attr & 0b0100_0000 != 0;
            let flip_vertically = sprite_attr & 0b1000_0000 != 0;
            assert(sprite_attr & 0b11 == sprite_attr % 4) by (bit_vector);
            let palette = self.sprite_palette(palette_idx);
            let chr_bank_offset: u16 = match sprite_size {
                SpriteSize::Sprite8x8 => self.regs.ctrl.sprite_chr_offset(),
                SpriteSize::Sprite8x16 => (sprite_tile_idx as u16 % 2) * 0x1000,
            };
            let (top_tile_idx, bot_tile_idx): (usize, Option<usize>) = match sprite_size {
                SpriteSize::Sprite8x8 => (sprite_tile_idx, None),
                SpriteSize::Sprite8x16 => if !flip_vertically {
                    (sprite_tile_idx, Some(sprite_tile_idx + 1))
                } else {
                    (sprite_tile_idx + 1, Some(sprite_tile_idx))
                },
            };
            self.render_sprite_tile(
                chr_bank_offset,
                top_tile_idx,
                sprite_x,
                sprite_y,
                behind_background,
                flip_horizontally,
                flip_vertically,
                palette,
                frame,
            );
            match bot_tile_idx {
                Some(idx) => {
                    self.render_sprite_tile(
                        chr_bank_offset,
                        idx,
                        sprite_x,
                        sprite_y + 8,
                        behind_background,
                        flip_horizontally,
                        flip_vertically,
                        palette,
                        frame,
                    );
                },
                None => {},
            }
            n += 1;
        }
    }

    /// The four colours of sprite palette `palette_idx`, the first
    /// transparent.
    fn sprite_palette(&self, palette_idx: u8) -> (c: [Option<(u8, u8, u8)>; 4])
        requires
            palette_idx < 4,
            sprite_palette_ok(*self, palette_idx as int),
        ensures
            c@ == sprite_palette_colors(*self, palette_idx as int),
    {
        let o: usize = 0x11 + palette_idx as usize * 4;
        let c = [
            None,
            Some(palette_color(self.palette[o])),
            Some(palette_color(self.palette[o + 1])),
            Some(palette_color(self.palette[o + 2])),
        ];
        assert(c@ == sprite_palette_colors(*self, palette_idx as int));
        c
    }
}

} // verus!
