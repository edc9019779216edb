use vstd::prelude::*;
use crate::bits::{lemma_u8_bits, lemma_u8_select};
use crate::cpu::mappers::Mapper;
use super::registers::{has, CTRL_SPRITE_PATTERN_ADDR, CTRL_SPRITE_SIZE, STATUS_SPRITE_OVERFLOW};
use super::{ppu_wf, with_status, SpriteData, PPU};

verus! {

/// Sprite height in pixels: 8, or 16 in 8x16 mode.
pub open spec fn sprite_height(p: PPU) -> int {
    if has(p.regs.ctrl.bits, CTRL_SPRITE_SIZE) {
        16
    } else {
        8
    }
}

/// The top line of sprite `i`.
pub open spec fn sprite_top(p: PPU, i: int) -> int {
    p.attributes@[4 * i] as int
}

/// Sprite `i` covers the current scanline.
pub open spec fn sprite_on_line(p: PPU, i: int) -> bool {
    sprite_top(p, i) <= p.scanline < sprite_top(p, i) + sprite_height(p)
}

/// The OAM indices, in order, among the first `n` sprites, of those that
/// cover the current scanline.
pub open spec fn sprites_on_line(p: PPU, n: nat) -> Seq<int>
    decreases n,
{
    if n == 0 {
        Seq::empty()
    } else {
        sprites_on_line(p, (n - 1) as nat) + if sprite_on_line(p, n - 1) {
            seq![n - 1]
        } else {
            Seq::empty()
        }
    }
}

/// The pattern table address of the low plane of the row of sprite `i`
/// that the current scanline crosses, flips and 8x16 tiles applied.
pub open spec fn sprite_row_addr(p: PPU, i: int) -> int {
    let row = p.scanline - sprite_top(p, i);
    let tile = p.attributes@[4 * i + 1] as int;
    let flip_v = p.attributes@[4 * i + 2] & 0b1000_0000 != 0;
    if !(has(p.regs.ctrl.bits, CTRL_SPRITE_SIZE)) {
        let bank = if has(p.regs.ctrl.bits, CTRL_SPRITE_PATTERN_ADDR) {
            0x1000int
        } else {
            0
        };
        bank + tile * 16 + if flip_v {
            7 - row
        } else {
            row
        }
    } else {
        let bank = (tile % 2) * 0x1000;
        let base = tile - tile % 2;
        let r = if flip_v {
            15 - row
        } else {
            row
        };
        if r > 7 {
            bank + (base + 1) * 16 + r - 8
        } else {
            bank + base * 16 + r
        }
    }
}

/// The 2-bit colour index of pixel `j` (left to right) of a sprite row with
/// planes `low` and `high`, mirrored when `flip_h`.
pub open spec fn sprite_row_pixel(low: u8, high: u8, flip_h: bool, j: int) -> u8 {
    let bit = if flip_h {
        j
    } else {
        7 - j
    };
    (2 * ((high >> bit as u8) & 1) + ((low >> bit as u8) & 1)) as u8
}

/// Both pattern bytes of sprite `i`'s row can be read.
pub open spec fn sprite_reads_ok(p: PPU, i: int) -> bool {
    &&& p.rom.mapper.read_ok(&p.rom.cart, sprite_row_addr(p, i) as u16)
    &&& p.rom.mapper.read_ok(&p.rom.cart, (sprite_row_addr(p, i) + 8) as u16)
}

/// `s` is what evaluation keeps of sprite `i` for the current scanline.
pub open spec fn sprite_selected(p: PPU, i: int, s: SpriteData) -> bool {
    let attr = p.attributes@[4 * i + 2];
    let low = p.rom.mapper.read_value(&p.rom.cart, sprite_row_addr(p, i) as u16);
    let high = p.rom.mapper.read_value(&p.rom.cart, (sprite_row_addr(p, i) + 8) as u16);
    &&& s.x == p.attributes@[4 * i + 3]
    &&& s.idx == i
    &&& s.palette_idx == attr % 4
    &&& s.behind_background == (attr & 0b0010_0000 != 0)
    &&& forall|j: int|
        0 <= j < 8 ==> #[trigger] s.chr@[j] == sprite_row_pixel(
            low,
            high,
            attr & 0b0100_0000 != 0,
            j,
        )
}

/// The reads that sprite evaluation makes stay within the cartridge: those
/// of the first eight sprites on the line.
pub open spec fn sprite_evaluation_ok(p: PPU) -> bool {
    forall|k: int|
        0 <= k < sprites_on_line(p, 64).len() && k < 8 ==> sprite_reads_ok(
            p,
            #[trigger] sprites_on_line(p, 64)[k],
        )
}

/// `q` is `p` after sprite evaluation for the next scanline: the first
/// eight sprites on the line, in OAM order, fill the slots; more than eight
/// set the overflow flag.
pub open spec fn sprites_evaluated(p: PPU, q: PPU) -> bool {
    let vis = sprites_on_line(p, 64);
    let n = if vis.len() > 8 {
        8
    } else {
        vis.len()
    };
    &&& q.visible_sprites_count == n
    &&& forall|k: int| 0 <= k < n ==> sprite_selected(p, vis[k], #[trigger] q.scanline_sprites@[k])
    &&& forall|k: int| n <= k < 8 ==> #[trigger] q.scanline_sprites@[k] == p.scanline_sprites@[k]
    &&& q == (PPU {
        scanline_sprites: q.scanline_sprites,
        visible_sprites_count: q.visible_sprites_count,
        ..(if vis.len() > 8 {
            with_status(p, p.regs.status.bits | STATUS_SPRITE_OVERFLOW)
        } else {
            p
        })
    })
}

/// Every index the scan lists is a sprite, in increasing order, and the
/// list only grows with `n`.
proof fn lemma_sprites_on_line(p: PPU, n: nat, m: nat)
    requires
        n <= m <= 64,
    ensures
        sprites_on_line(p, n).len() <= sprites_on_line(p, m).len(),
        forall|k: int|
            0 <= k < sprites_on_line(p, n).len() ==> #[trigger] sprites_on_line(p, n)[k]
                == sprites_on_line(p, m)[k],
        forall|k: int|
            0 <= k < sprites_on_line(p, m).len() ==> 0 <= #[trigger] sprites_on_line(p, m)[k] < m,
    decreases m,
{
    if m > 0 {
        let n2: nat = if n < m {
            n
        } else {
            (m - 1) as nat
        };
        lemma_sprites_on_line(p, n2, (m - 1) as nat);
    }
}

impl PPU {
    /// The pattern table address of sprite `i`'s row on this scanline.
    fn sprite_row_address(&self, i: usize) -> (a: u16)
        requires
            i < 64,
            sprite_on_line(*self, i as int),
        ensures
            a == sprite_row_addr(*self, i as int),
            a + 8 <= 0x1FFF,
    {
        let offset = i * 4;
        let y = self.attributes[offset] as u16;
        let row = self.scanline - y;
        let tile_idx = self.attributes[offset + 1] as u16;
        let attr = self.attributes[offset + 2];
        let flip_vertically = attr & 0b1000_0000 != 0;
        if !self.regs.ctrl.contains(CTRL_SPRITE_SIZE) {
            let chr_bank = self.regs.ctrl.sprite_chr_offset();
            let row = if flip_vertically {
                7 - row
            } else {
                row
            };
            chr_bank + tile_idx * 16 + row
        } else {
            let chr_bank = (tile_idx % 2) * 0x1000;
            let mut tile_idx = tile_idx - tile_idx % 2;
            let mut row = if flip_vertically {
                15 - row
            } else {
                row
            };

            if row > 7 {
                row -= 8;
                tile_idx += 1;
            }
            chr_bank + tile_idx * 16 + row
        }
    }

    /// What evaluation keeps of sprite `i`: position, palette, priority and
    /// the colour indices of its row.
    fn fetch_sprite(&mut self, i: usize) -> (s: SpriteData)
        requires
            i < 64,
            ppu_wf(*old(self)),
            sprite_on_line(*old(self), i as int),
            sprite_reads_ok(*old(self), i as int),
        ensures
            *final(self) == *old(self),
            sprite_selected(*old(self), i as int, s),
            s.x < 256 && s.palette_idx < 4,
            forall|j: int| 0 <= j < 8 ==> #[trigger] s.chr@[j] < 4,
    {
        let offset = i * 4;
        let attr = self.attributes[offset + 2];
        let palette_idx = attr & 0b11;
        let behind_background = attr & 0b0010_0000 != 0;
        let flip_horizontally = attr & 0b0100_0000 != 0;
        let x = self.attributes[offset + 3];
        proof {
            lemma_u8_bits(attr);
        }
        let tile_offset = self.sprite_row_address(i);
        let chr_low = self.read_chr(tile_offset);
        let chr_high = self.read_chr(tile_offset + 8);
        let mut chr = [0u8; 8];
        let mut j: usize = 0;
        while j < 8
            invariant
                j <= 8,
                forall|jj: int|
                    0 <= jj < j ==> #[trigger] chr@[jj] == sprite_row_pixel(
                        chr_low,
                        chr_high,
                        flip_horizontally,
                        jj,
                    ),
                forall|jj: int| 0 <= jj < j ==> #[trigger] chr@[jj] < 4,
            decreases 8 - j,
        {
            let bit: u8 = if flip_horizontally {
                j as u8
            } else {
                7 - j as u8
            };
            let mask: u8 = 1 << bit;
            proof {
                lemma_u8_select(chr_low, bit);
                lemma_u8_select(chr_high, bit);
            }
            let p1: u8 = if chr_low & mask != 0 {
                1
            } else {
                0
            };
            let p2: u8 = if chr_high & mask != 0 {
                1
            } else {
                0
            };
            chr[j] = p2 * 2 + p1;
            j += 1;
        }
        SpriteData { x: x as u16, idx: i as u8, palette_idx, behind_background, chr }
    }

    /// Selects the sprites of the next scanline and fetches their row.
    pub fn fetch_next_scanline_sprites(&mut self)
        requires
            ppu_wf(*old(self)),
            sprite_evaluation_ok(*old(self)),
        ensures
            ppu_wf(*final(self)),
            sprites_evaluated(*old(self), *final(self)),
    {
        let ghost p = *self;
        let mut count: usize = 0;
        let height: u16 = if self.regs.ctrl.contains(CTRL_SPRITE_SIZE) {
            16
        } else {
            8
        };
        let mut i: usize = 0;
        let mut full = false;
        proof {
            lemma_sprites_on_line(p, 0, 64);
        }
        while i < 64 && !full
            invariant
                p == *old(self),
                ppu_wf(p),
                sprite_evaluation_ok(p),
                height == sprite_height(p),
                i <= 64,
                count <= 8,
                ppu_wf(*self),
                !full ==> count == sprites_on_line(p, i as nat).len(),
                full ==> count == 8 && sprites_on_line(p, i as nat).len() == 9,
                forall|k: int|
                    0 <= k < count ==> sprite_selected(
                        p,
                        sprites_on_line(p, 64)[k],
                        #[trigger] self.scanline_sprites@[k],
                    ),
                forall|k: int|
                    count <= k < 8 ==> #[trigger] self.scanline_sprites@[k]
                        == p.scanline_sprites@[k],
                *self == (PPU {
                    scanline_sprites: self.scanline_sprites,
                    ..(if full {
                        with_status(p, p.regs.status.bits | STATUS_SPRITE_OVERFLOW)
                    } else {
                        p
                    })
                }),
            decreases 64 - i,
        {
            proof {
                lemma_sprites_on_line(p, i as nat, 64);
                lemma_sprites_on_line(p, (i + 1) as nat, 64);
            }
            let y = self.attributes[i * 4] as u16;
            if self.scanline >= y && self.scanline < y + height {
                assert(sprite_on_line(p, i as int));
                assert(sprites_on_line(p, (i + 1) as nat) =~= sprites_on_line(p, i as nat).push(
                    i as int,
                ));
                if count < 8 {
                    assert(sprites_on_line(p, (i + 1) as nat)[count as int] == i);
                    assert(sprites_on_line(p, 64)[count as int] == i);
                    assert(sprite_reads_ok(p, sprites_on_line(p, 64)[count as int]));
                    let sprite = self.fetch_sprite(i);
                    self.scanline_sprites[count] = sprite;
                    count += 1;
                } else {
                    self.regs.status.insert(STATUS_SPRITE_OVERFLOW);
                    full = true;
                }
            } else {
                assert(!sprite_on_line(p, i as int));
                assert(sprites_on_line(p, (i + 1) as nat) =~= sprites_on_line(p, i as nat));
            }
            i += 1;
        }
        proof {
            lemma_sprites_on_line(p, i as nat, 64);
        }
        self.visible_sprites_count = count as u8;
    }
}

} // verus!
