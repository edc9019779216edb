use vstd::prelude::*;
use crate::bits::{lemma_u16_bits, lemma_u64_bits, lemma_u8_bits};
use crate::cpu::mappers::Mapper;
use super::registers::{
    has, Registers, MASK_SHOW_BACKGROUND, MASK_SHOW_BACKGROUND_LEFT, MASK_SHOW_SPRITES,
    MASK_SHOW_SPRITES_LEFT, STATUS_SPRITE_ZERO_HIT,
};
use super::screen::{screen_set, Screen};
use super::{nametable_index, nametable_ok, ppu_wf, PPU, BYTES_PER_PALLETE, SPRITE_PALETTES_OFFSET};

verus! {

/// The 64 colours of the NES palette, three RGB bytes each.
pub const COLOR_PALETTE: [u8; 192] = [
    0x80, 0x80, 0x80, 0x00, 0x3D, 0xA6, 0x00, 0x12, 0xB0, 0x44, 0x00, 0x96,
    0xA1, 0x00, 0x5E, 0xC7, 0x00, 0x28, 0xBA, 0x06, 0x00, 0x8C, 0x17, 0x00,
    0x5C, 0x2F, 0x00, 0x10, 0x45, 0x00, 0x05, 0x4A, 0x00, 0x00, 0x47, 0x2E,
    0x00, 0x41, 0x66, 0x00, 0x00, 0x00, 0x05, 0x05, 0x05, 0x05, 0x05, 0x05,
    0xC7, 0xC7, 0xC7, 0x00, 0x77, 0xFF, 0x21, 0x55, 0xFF, 0x82, 0x37, 0xFA,
    0xEB, 0x2F, 0xB5, 0xFF, 0x29, 0x50, 0xFF, 0x22, 0x00, 0xD6, 0x32, 0x00,
    0xC4, 0x62, 0x00, 0x35, 0x80, 0x00, 0x05, 0x8F, 0x00, 0x00, 0x8A, 0x55,
    0x00, 0x99, 0xCC, 0x21, 0x21, 0x21, 0x09, 0x09, 0x09, 0x09, 0x09, 0x09,
    0xFF, 0xFF, 0xFF, 0x0F, 0xD7, 0xFF, 0x69, 0xA2, 0xFF, 0xD4, 0x80, 0xFF,
    0xFF, 0x45, 0xF3, 0xFF, 0x61, 0x8B, 0xFF, 0x88, 0x33, 0xFF, 0x9C, 0x12,
    0xFA, 0xBC, 0x20, 0x9F, 0xE3, 0x0E, 0x2B, 0xF0, 0x35, 0x0C, 0xF0, 0xA4,
    0x05, 0xFB, 0xFF, 0x5E, 0x5E, 0x5E, 0x0D, 0x0D, 0x0D, 0x0D, 0x0D, 0x0D,
    0xFF, 0xFF, 0xFF, 0xA6, 0xFC, 0xFF, 0xB3, 0xEC, 0xFF, 0xDA, 0xAB, 0xEB,
    0xFF, 0xA8, 0xF9, 0xFF, 0xAB, 0xB3, 0xFF, 0xD2, 0xB0, 0xFF, 0xEF, 0xA6,
    0xFF, 0xF7, 0x9C, 0xD7, 0xE8, 0x95, 0xA6, 0xED, 0xAF, 0xA2, 0xF2, 0xDA,
    0x99, 0xFF, 0xFC, 0xDD, 0xDD, 0xDD, 0x11, 0x11, 0x11, 0x11, 0x11, 0x11,
];

/// The RGB colour of palette entry `i`.
pub open spec fn nes_color(i: int) -> (u8, u8, u8) {
    (COLOR_PALETTE@[3 * i], COLOR_PALETTE@[3 * i + 1], COLOR_PALETTE@[3 * i + 2])
}

/// The RGB colour of palette entry `i` (0-63).
pub fn palette_color(i: u8) -> (c: (u8, u8, u8))
    requires
        i < 64,
    ensures
        c == nes_color(i as int),
{
    let k = 3 * (i as usize);
    (COLOR_PALETTE[k], COLOR_PALETTE[k + 1], COLOR_PALETTE[k + 2])
}

/// The colour a byte of palette RAM selects (its low six bits).
pub open spec fn palette_ram_color(p: PPU, i: int) -> (u8, u8, u8) {
    nes_color((p.palette@[i] % 64) as int)
}

// ---------------------------------------------------------------------------
// Background
// ---------------------------------------------------------------------------

/// The nametable byte address for the tile at the VRAM address.
pub open spec fn nametable_fetch_addr(r: Registers) -> u16 {
    0x2000 | (r.v & 0x0FFF)
}

/// The attribute byte address for the tile at the VRAM address.
pub open spec fn attribute_fetch_addr(r: Registers) -> u16 {
    0x23C0 | (r.v & 0x0C00) | ((r.v >> 4) & 0x38) | ((r.v >> 2) & 0b111)
}

/// Which 2-bit field of the attribute byte covers the tile.
pub open spec fn attribute_shift(r: Registers) -> u16 {
    ((r.v >> 4) & 4) | (r.v & 2)
}

/// The pattern table address of the low plane of the current tile row.
pub open spec fn pattern_fetch_addr(p: PPU) -> u16 {
    ((if has(p.regs.ctrl.bits, super::registers::CTRL_BACKROUND_PATTERN_ADDR) {
        0x1000int
    } else {
        0int
    }) + p.nametable_byte * 16 + (p.regs.v >> 12) % 8) as u16
}

/// The eight 4-bit pixels of a tile row, leftmost in the high nibble:
/// palette bits from the attribute, colour bits from the two pattern
/// planes, shifted out most significant bit first.
pub open spec fn tile_row(attr: u8, low: u8, high: u8, data: u32, n: nat) -> u32
    decreases n,
{
    if n == 0 {
        data
    } else {
        let p1 = (low & 0x80) >> 7;
        let p2 = (high & 0x80) >> 6;
        tile_row(attr, (low << 1u8) as u8, (high << 1u8) as u8, (data << 4u32) | ((attr | (p2 | p1)) as u32), (n - 1) as nat)
    }
}

/// A byte after `n` left shifts by one.
pub open spec fn shifted_left(b: u8, n: nat) -> u8
    decreases n,
{
    if n == 0 {
        b
    } else {
        shifted_left((b << 1u8) as u8, (n - 1) as nat)
    }
}

/// The 4-bit background pixel under the fine X scroll.
pub open spec fn background_color_index(p: PPU) -> u64 {
    ((p.tile_data >> 32u64) >> ((7 - p.regs.x) * 4) as u64) & 0xF
}

/// The background pixel's colour, if background is shown and the pixel is
/// opaque.
pub open spec fn background_pixel(p: PPU) -> Option<(u8, u8, u8)> {
    if has(p.regs.mask.bits, MASK_SHOW_BACKGROUND) && background_color_index(p) % 4 != 0 {
        Some(palette_ram_color(p, background_color_index(p) as int))
    } else {
        None
    }
}

/// The colour of 2-bit index `idx` in sprite palette `palette_idx`; index 0
/// is transparent.
pub open spec fn sprite_color(p: PPU, palette_idx: u8, idx: u8) -> Option<(u8, u8, u8)> {
    if idx == 0 {
        None
    } else {
        Some(
            palette_ram_color(
                p,
                SPRITE_PALETTES_OFFSET + palette_idx * BYTES_PER_PALLETE + idx - 1,
            ),
        )
    }
}

/// The first of the selected sprites, from slot `i` on, that covers column
/// `x` with an opaque pixel: its colour, priority and OAM index.
pub open spec fn sprite_pixel_from(p: PPU, x: int, i: int) -> Option<((u8, u8, u8), bool, u8)>
    decreases 8 - i,
{
    if i >= p.visible_sprites_count || i >= 8 || i < 0 {
        None
    } else {
        let s = p.scanline_sprites@[i];
        if s.x <= x < s.x + 8 && sprite_color(p, s.palette_idx, s.chr@[x - s.x]) is Some {
            Some((sprite_color(p, s.palette_idx, s.chr@[x - s.x])->0, s.behind_background, s.idx))
        } else {
            sprite_pixel_from(p, x, i + 1)
        }
    }
}

/// The sprite pixel at the current dot, if sprites are shown.
pub open spec fn sprite_pixel(p: PPU) -> Option<((u8, u8, u8), bool, u8)> {
    if has(p.regs.mask.bits, MASK_SHOW_SPRITES) {
        sprite_pixel_from(p, p.cycle - 1, 0)
    } else {
        None
    }
}

/// The background pixel after the left-column mask.
pub open spec fn shown_background(p: PPU) -> Option<(u8, u8, u8)> {
    if p.cycle - 1 < 8 && !(has(p.regs.mask.bits, MASK_SHOW_BACKGROUND_LEFT)) {
        None
    } else {
        background_pixel(p)
    }
}

/// The sprite pixel after the left-column mask.
pub open spec fn shown_sprite(p: PPU) -> Option<((u8, u8, u8), bool, u8)> {
    if p.cycle - 1 < 8 && !(has(p.regs.mask.bits, MASK_SHOW_SPRITES_LEFT)) {
        None
    } else {
        sprite_pixel(p)
    }
}

/// The colour of the pixel at the current dot: the backdrop where both
/// layers are transparent, else the sprite unless it sits behind an opaque
/// background.
pub open spec fn pixel_color(p: PPU) -> (u8, u8, u8) {
    match (shown_background(p), shown_sprite(p)) {
        (None, None) => palette_ram_color(p, 0),
        (None, Some((sp, _, _))) => sp,
        (Some(bg), None) => bg,
        (Some(bg), Some((sp, behind, _))) => if behind {
            bg
        } else {
            sp
        },
    }
}

/// An opaque pixel of sprite 0 over an opaque background, left of the last
/// column, sets the sprite-zero-hit flag.
pub open spec fn sprite_zero_hits(p: PPU) -> bool {
    match shown_sprite(p) {
        Some((_, _, idx)) => idx == 0 && p.cycle - 1 < 255 && shown_background(p) is Some,
        None => false,
    }
}

/// The PPU after rendering the pixel at the current dot.
pub open spec fn pixel_rendered(p: PPU) -> PPU {
    if sprite_zero_hits(p) && !(has(p.regs.status.bits, STATUS_SPRITE_ZERO_HIT)) {
        super::with_status(p, p.regs.status.bits | STATUS_SPRITE_ZERO_HIT)
    } else {
        p
    }
}

impl PPU {
    pub fn fetch_nametable_byte(&mut self)
        requires
            nametable_ok(old(self).rom.cart.mirroring, nametable_fetch_addr(old(self).regs)),
        ensures
            *final(self) == (PPU {
                nametable_byte: old(self).vram@[nametable_index(
                    old(self).rom.cart.mirroring,
                    nametable_fetch_addr(old(self).regs),
                )],
                ..*old(self)
            }),
    {
        // See Tile and attribute fetching
        // https://www.nesdev.org/wiki/PPU_scrolling
        let offset = 0x2000 | (self.regs.v & 0x0FFF);
        self.nametable_byte = self.read_nametable(offset);
    }

    pub fn fetch_attribute_table_byte(&mut self)
        requires
            nametable_ok(old(self).rom.cart.mirroring, attribute_fetch_addr(old(self).regs)),
        ensures
            *final(self) == (PPU {
                attribute_table_byte: (old(self).vram@[nametable_index(
                    old(self).rom.cart.mirroring,
                    attribute_fetch_addr(old(self).regs),
                )] >> attribute_shift(old(self).regs)) & 0b11,
                ..*old(self)
            }),
    {
        let v = self.regs.v;
        let address = 0x23C0 | (v & 0x0C00) | ((v >> 4) & 0x38) | ((v >> 2) & 0b111);
        let shift = ((v >> 4) & 4) | (v & 2);
        proof {
            lemma_u16_bits(v >> 4);
            lemma_u16_bits(v);
            assert(((v >> 4) & 4) | (v & 2) <= 6) by (bit_vector);
        }
        self.attribute_table_byte = (self.read_nametable(address) >> shift) & 0b11;
    }

    pub fn fetch_pattern_table_bytes(&mut self)
        requires
            ppu_wf(*old(self)),
            old(self).rom.mapper.read_ok(&old(self).rom.cart, pattern_fetch_addr(*old(self))),
            old(self).rom.mapper.read_ok(
                &old(self).rom.cart,
                (pattern_fetch_addr(*old(self)) + 8) as u16,
            ),
        ensures
            *final(self) == (PPU {
                pattern_table_low_byte: old(self).rom.mapper.read_value(
                    &old(self).rom.cart,
                    pattern_fetch_addr(*old(self)),
                ),
                pattern_table_high_byte: old(self).rom.mapper.read_value(
                    &old(self).rom.cart,
                    (pattern_fetch_addr(*old(self)) + 8) as u16,
                ),
                ..*old(self)
            }),
    {
        let table = self.regs.ctrl.background_chr_offset();
        let tile = self.nametable_byte as u16;
        let fine_y = self.regs.fine_y() as u16;
        proof {
            lemma_u16_bits(self.regs.v);
        }
        let offset = table + tile * 16 + fine_y;

        self.pattern_table_low_byte = self.read_chr(offset);
        self.pattern_table_high_byte = self.read_chr(offset + 8);
    }

    /// Moves the fetched tile row into the low half of the shift register.
    pub fn store_background_tile_data(&mut self)
        ensures
            *final(self) == (PPU {
                tile_data: old(self).tile_data | (tile_row(
                    (old(self).attribute_table_byte << 2u8) as u8,
                    old(self).pattern_table_low_byte,
                    old(self).pattern_table_high_byte,
                    0,
                    8,
                ) as u64),
                pattern_table_low_byte: shifted_left(old(self).pattern_table_low_byte, 8),
                pattern_table_high_byte: shifted_left(old(self).pattern_table_high_byte, 8),
                ..*old(self)
            }),
    {
        let mut data: u32 = 0;
        let attr = self.attribute_table_byte << 2;
        let ghost low0 = self.pattern_table_low_byte;
        let ghost high0 = self.pattern_table_high_byte;
        let mut k: u8 = 0;
        while k < 8
            invariant
                k <= 8,
                attr == (old(self).attribute_table_byte << 2u8) as u8,
                tile_row(attr, self.pattern_table_low_byte, self.pattern_table_high_byte, data, (8 - k) as nat)
                    == tile_row(attr, low0, high0, 0, 8),
                shifted_left(self.pattern_table_low_byte, (8 - k) as nat) == shifted_left(low0, 8),
                shifted_left(self.pattern_table_high_byte, (8 - k) as nat) == shifted_left(high0, 8),
                low0 == old(self).pattern_table_low_byte,
                high0 == old(self).pattern_table_high_byte,
                *self == (PPU {
                    pattern_table_low_byte: self.pattern_table_low_byte,
                    pattern_table_high_byte: self.pattern_table_high_byte,
                    ..*old(self)
                }),
            decreases 8 - k,
        {
            let p1 = (self.pattern_table_low_byte & 0x80) >> 7;
            let p2 = (self.pattern_table_high_byte & 0x80) >> 6;
            let pattern = p2 | p1;
            self.pattern_table_low_byte <<= 1u8;
            self.pattern_table_high_byte <<= 1u8;
            data <<= 4u32;
            data |= (attr | pattern) as u32;
            k += 1;
        }

        self.tile_data |= data as u64;
    }

    pub fn get_background_pixel(&self) -> (c: Option<(u8, u8, u8)>)
        requires
            ppu_wf(*self),
        ensures
            c == background_pixel(*self),
    {
        if self.regs.show_background() {
            let shift = ((7 - self.regs.x) * 4) as u64;
            let color_idx = ((self.tile_data >> 32) >> shift) & 0xF;
            proof {
                lemma_u64_bits((self.tile_data >> 32u64) >> shift);
                lemma_u64_bits(color_idx);
            }
            if color_idx & 3 == 0 {
                None
            } else {
                let entry = self.palette[color_idx as usize] & 63;
                proof {
                    lemma_u8_bits(self.palette@[color_idx as int]);
                }
                Some(palette_color(entry))
            }
        } else {
            None
        }
    }

    pub fn get_sprite_color(&self, palette_idx: u8, color_idx: u8) -> (c: Option<(u8, u8, u8)>)
        requires
            palette_idx < 4,
            color_idx < 4,
        ensures
            c == sprite_color(*self, palette_idx, color_idx),
    {
        let palette_offset = SPRITE_PALETTES_OFFSET + palette_idx as usize * BYTES_PER_PALLETE;
        if color_idx == 0 {
            None
        } else {
            let i = palette_offset + color_idx as usize - 1;
            proof {
                lemma_u8_bits(self.palette@[i as int]);
            }
            Some(palette_color(self.palette[i] & 63))
        }
    }

    pub fn get_sprite_pixel(&self) -> (r: Option<((u8, u8, u8), bool, u8)>)
        requires
            ppu_wf(*self),
            self.cycle >= 1,
        ensures
            r == sprite_pixel(*self),
    {
        if self.regs.show_sprites() {
            let x = self.cycle - 1;
            assert(sprite_pixel(*self) == sprite_pixel_from(*self, x as int, 0));
            let count = self.visible_sprites_count as usize;
            let mut i: usize = 0;
            while i < count
                invariant
                    ppu_wf(*self),
                    i <= count,
                    count == self.visible_sprites_count,
                    x == self.cycle - 1,
                    sprite_pixel(*self) == sprite_pixel_from(*self, x as int, 0),
                    sprite_pixel_from(*self, x as int, 0) == sprite_pixel_from(*self, x as int, i as int),
                decreases count - i,
            {
                let sprite = self.scanline_sprites[i];
                if x >= sprite.x && x < sprite.x + 8 {
                    let idx = sprite.chr[(x - sprite.x) as usize];
                    assert(self.scanline_sprites@[i as int].chr@[(x - sprite.x) as int] < 4);
                    let color = self.get_sprite_color(sprite.palette_idx, idx);
                    if let Some(color) = color {
                        assert(sprite_pixel_from(*self, x as int, i as int) == Some(
                            (color, sprite.behind_background, sprite.idx),
                        ));
                        return Some((color, sprite.behind_background, sprite.idx));
                    }
                }
                i += 1;
            }
        }
        None
    }

    /// Draws the pixel at the current dot into `frame` and records a
    /// sprite-zero hit.
    pub fn render_pixel(&mut self, frame: &mut Screen)
        requires
            ppu_wf(*old(self)),
            1 <= old(self).cycle,
        ensures
            *final(self) == pixel_rendered(*old(self)),
            final(frame).pixels@ == screen_set(
                old(frame).pixels@,
                old(self).cycle - 1,
                old(self).scanline as int,
                pixel_color(*old(self)),
            ),
    {
        let x = self.cycle - 1;
        let y = self.scanline;
        let mut bg = self.get_background_pixel();
        let mut sprite = self.get_sprite_pixel();

        if x < 8 {
            if !self.regs.show_leftmost_background() {
                bg = None;
            }
            if !self.regs.show_leftmost_sprites() {
                sprite = None;
            }
        }
        let color = match (bg, sprite) {
            (None, None) => {
                proof {
                    lemma_u8_bits(self.palette@[0]);
                }
                palette_color(self.palette[0] & 63)
            },
            (None, Some((sp, _, _))) => sp,
            (Some(bg), None) => bg,
            (Some(bg), Some((sp, behind, _))) => {
                if behind {
                    bg
                } else {
                    sp
                }
            },
        };

        if let Some((_, _, idx)) = sprite {
            let sprite_zero_hit = idx == 0 && x < 255 && bg.is_some()
                && !self.regs.status.contains(STATUS_SPRITE_ZERO_HIT);
            if sprite_zero_hit {
                self.regs.status.insert(STATUS_SPRITE_ZERO_HIT);
            }
        }
        frame.set(x as usize, y as usize, color);
    }
}

} // verus!
