use vstd::prelude::*;
use crate::bits::lemma_u16_bits;
use crate::cpu::mappers::Mapper;
use super::registers::{
    after_increment_x, after_increment_y, has, Registers, MASK_SHOW_BACKGROUND, MASK_SHOW_SPRITES,
    after_write_ctrl, CTRL_GENERATE_NMI, STATUS_SPRITE_OVERFLOW, STATUS_SPRITE_ZERO_HIT,
    STATUS_VBLANK_STARTED,
};
use super::render::{
    attribute_fetch_addr, attribute_shift, nametable_fetch_addr, pattern_fetch_addr, pixel_color,
    pixel_rendered, shifted_left, tile_row,
};
use super::screen::{screen_set, Screen};
use super::sprites::{sprite_evaluation_ok, sprites_evaluated};
use super::{
    nametable_index, nametable_ok, nmi_edge_detected, ppu_ticked, ppu_wf, vblank_ended,
    vblank_started, PPU,
};

verus! {

/// The dot renders a pixel: background on, a visible line, dots 1-256.
pub open spec fn renders_pixel(t: PPU) -> bool {
    has(t.regs.mask.bits, MASK_SHOW_BACKGROUND) && t.scanline < 240 && 1 <= t.cycle <= 256
}

/// The dot is on a line that fetches tiles (visible or pre-render).
pub open spec fn render_line(t: PPU) -> bool {
    t.scanline < 240 || t.scanline == 261
}

/// The dot fetches background tiles: dots 1-256, and 321-336 for the next
/// line's first two tiles.
pub open spec fn fetch_cycle(t: PPU) -> bool {
    (1 <= t.cycle <= 256) || (321 <= t.cycle <= 336)
}

/// The dot advances the background pipeline.
pub open spec fn fetches_background(t: PPU) -> bool {
    has(t.regs.mask.bits, MASK_SHOW_BACKGROUND) && render_line(t) && fetch_cycle(t)
}

/// One step of the background fetch pipeline: the shift register moves
/// one pixel on, and dots 1, 3, 7 and 0 (mod 8) fetch the nametable byte,
/// the attribute, the pattern planes, and load the tile row.
pub open spec fn background_fetched(a: PPU) -> PPU {
    let q = PPU { tile_data: (a.tile_data << 4u64) as u64, ..a };
    let m = q.rom.cart.mirroring;
    if q.cycle % 8 == 1 {
        PPU { nametable_byte: q.vram@[nametable_index(m, nametable_fetch_addr(q.regs))], ..q }
    } else if q.cycle % 8 == 3 {
        PPU {
            attribute_table_byte: (q.vram@[nametable_index(m, attribute_fetch_addr(q.regs))]
                >> attribute_shift(q.regs)) & 0b11,
            ..q
        }
    } else if q.cycle % 8 == 7 {
        PPU {
            pattern_table_low_byte: q.rom.mapper.read_value(&q.rom.cart, pattern_fetch_addr(q)),
            pattern_table_high_byte: q.rom.mapper.read_value(
                &q.rom.cart,
                (pattern_fetch_addr(q) + 8) as u16,
            ),
            ..q
        }
    } else if q.cycle % 8 == 0 {
        PPU {
            tile_data: q.tile_data | (tile_row(
                (q.attribute_table_byte << 2u8) as u8,
                q.pattern_table_low_byte,
                q.pattern_table_high_byte,
                0,
                8,
            ) as u64),
            pattern_table_low_byte: shifted_left(q.pattern_table_low_byte, 8),
            pattern_table_high_byte: shifted_left(q.pattern_table_high_byte, 8),
            ..q
        }
    } else {
        q
    }
}

/// The PPU with its registers replaced.
pub open spec fn with_regs(p: PPU, r: Registers) -> PPU {
    PPU { regs: r, ..p }
}

/// The background part of a dot after the pixel: fetches, then the
/// scrolling updates (vertical copy on the pre-render line, coarse X every
/// tile, fine Y at dot 256, horizontal copy at dot 257).
pub open spec fn background_stepped(a: PPU) -> PPU {
    scroll_stepped(
        if fetches_background(a) {
            background_fetched(a)
        } else {
            a
        },
    )
}

/// The scrolling updates of a dot.
pub open spec fn scroll_stepped(b: PPU) -> PPU {
    let show = has(b.regs.mask.bits, MASK_SHOW_BACKGROUND);
    let c = if show && b.scanline == 261 && 280 <= b.cycle <= 304 {
        with_regs(b, Registers { v: (b.regs.v & 0x841F) | (b.regs.t & 0x7BE0), ..b.regs })
    } else {
        b
    };
    let d = if fetches_background(c) && c.cycle % 8 == 0 {
        with_regs(c, after_increment_x(c.regs))
    } else {
        c
    };
    let e = if show && render_line(d) && d.cycle == 256 {
        with_regs(d, after_increment_y(d.regs))
    } else {
        d
    };
    if show && render_line(e) && e.cycle == 257 {
        with_regs(e, Registers { v: (e.regs.v & 0xFBE0) | (e.regs.t & 0x041F), ..e.regs })
    } else {
        e
    }
}

/// The PPU before sprite evaluation: tick, pixel, background.
pub open spec fn before_sprites(p: PPU) -> PPU {
    let t = ppu_ticked(p);
    let a = if renders_pixel(t) {
        pixel_rendered(t)
    } else {
        t
    };
    background_stepped(a)
}

/// The dot evaluates sprites for the next line.
pub open spec fn evaluates_sprites(f: PPU) -> bool {
    has(f.regs.mask.bits, MASK_SHOW_SPRITES) && f.cycle == 257 && f.scanline < 240
}

/// The PPU after a dot on which no sprites are evaluated: secondary OAM is
/// cleared at dot 257 of non-visible lines, and the vertical blank starts
/// at dot 1 of line 241 and ends at dot 1 of the pre-render line.
pub open spec fn after_sprites(f: PPU) -> PPU {
    let g = if has(f.regs.mask.bits, MASK_SHOW_SPRITES) && f.cycle == 257 {
        PPU { visible_sprites_count: 0, ..f }
    } else {
        f
    };
    let h = if g.scanline == 261 && g.cycle == 1 {
        vblank_ended(g)
    } else {
        g
    };
    if h.scanline == 241 && h.cycle == 1 {
        vblank_started(h)
    } else {
        h
    }
}

/// `q` is `p` after one dot.
pub open spec fn ppu_stepped(p: PPU, q: PPU) -> bool {
    let f = before_sprites(p);
    if evaluates_sprites(f) {
        sprites_evaluated(f, q)
    } else {
        q == after_sprites(f)
    }
}

/// The frame after one dot: the rendered pixel, if any.
pub open spec fn frame_stepped(p: PPU, pixels: Seq<u8>) -> Seq<u8> {
    let t = ppu_ticked(p);
    if renders_pixel(t) {
        screen_set(pixels, t.cycle - 1, t.scanline as int, pixel_color(t))
    } else {
        pixels
    }
}

/// The memory a dot reads is there: the nametable bytes and pattern planes
/// of the background fetch, and the rows of the sprites evaluated.
pub open spec fn step_accesses_ok(p: PPU) -> bool {
    let t = ppu_ticked(p);
    let a = if renders_pixel(t) {
        pixel_rendered(t)
    } else {
        t
    };
    let m = a.rom.cart.mirroring;
    &&& fetches_background(a) && a.cycle % 8 == 1 ==> nametable_ok(m, nametable_fetch_addr(a.regs))
    &&& fetches_background(a) && a.cycle % 8 == 3 ==> nametable_ok(m, attribute_fetch_addr(a.regs))
    &&& fetches_background(a) && a.cycle % 8 == 7 ==> a.rom.mapper.read_ok(
        &a.rom.cart,
        pattern_fetch_addr(a),
    ) && a.rom.mapper.read_ok(&a.rom.cart, (pattern_fetch_addr(a) + 8) as u16)
    &&& evaluates_sprites(before_sprites(p)) ==> sprite_evaluation_ok(before_sprites(p))
}

impl PPU {
    fn fetch_dot(&mut self)
        requires
            ppu_wf(*old(self)),
            fetches_background(*old(self)) && old(self).cycle % 8 == 1 ==> nametable_ok(
                old(self).rom.cart.mirroring,
                nametable_fetch_addr(old(self).regs),
            ),
            fetches_background(*old(self)) && old(self).cycle % 8 == 3 ==> nametable_ok(
                old(self).rom.cart.mirroring,
                attribute_fetch_addr(old(self).regs),
            ),
            fetches_background(*old(self)) && old(self).cycle % 8 == 7 ==> old(
                self,
            ).rom.mapper.read_ok(&old(self).rom.cart, pattern_fetch_addr(*old(self)))
                && old(self).rom.mapper.read_ok(
                &old(self).rom.cart,
                (pattern_fetch_addr(*old(self)) + 8) as u16,
            ),
        ensures
            ppu_wf(*final(self)),
            *final(self) == if fetches_background(*old(self)) {
                background_fetched(*old(self))
            } else {
                *old(self)
            },
    {
        proof {
            lemma_u16_bits(self.cycle);
        }
        let render_line = self.scanline == 261 || self.scanline < 240;
        let fetch_cycle = (self.cycle >= 321 && self.cycle <= 336) || (self.cycle >= 1
            && self.cycle <= 256);
        if self.regs.show_background() && render_line && fetch_cycle {
            self.tile_data <<= 4u64;

            match self.cycle & 7 {
                1 => self.fetch_nametable_byte(),
                3 => self.fetch_attribute_table_byte(),
                7 => self.fetch_pattern_table_bytes(),
                0 => self.store_background_tile_data(),
                _ => {},
            }
        }
    }

    fn scroll_dot(&mut self)
        requires
            ppu_wf(*old(self)),
        ensures
            ppu_wf(*final(self)),
            *final(self) == scroll_stepped(*old(self)),
    {
        proof {
            lemma_u16_bits(self.cycle);
        }
        let ghost before = *self;
        if self.regs.show_background() {
            let preline = self.scanline == 261;
            let render_line = preline || self.scanline < 240;
            let fetch_cycle = (self.cycle >= 321 && self.cycle <= 336) || (self.cycle >= 1
                && self.cycle <= 256);
            if preline && self.cycle >= 280 && self.cycle <= 304 {
                self.regs.copy_y();
            }

            if render_line {
                if fetch_cycle && self.cycle & 7 == 0 {
                    self.regs.increment_x();
                }

                if self.cycle == 256 {
                    self.regs.increment_y();
                }

                if self.cycle == 257 {
                    self.regs.copy_x();
                }
            }
        }
        assert(*self == (PPU { regs: self.regs, ..before }));
        proof {
            super::lemma_wf_with_regs(before, self.regs);
        }
    }

    fn sprite_dot(&mut self)
        requires
            ppu_wf(*old(self)),
            evaluates_sprites(*old(self)) ==> sprite_evaluation_ok(*old(self)),
        ensures
            ppu_wf(*final(self)),
            evaluates_sprites(*old(self)) ==> sprites_evaluated(*old(self), *final(self)),
            !evaluates_sprites(*old(self)) ==> *final(self) == after_sprites(*old(self)),
    {
        if self.regs.show_sprites() && self.cycle == 257 {
            if self.scanline < 240 {
                self.fetch_next_scanline_sprites();
            } else {
                // clear secondary OAM
                self.visible_sprites_count = 0;
            }
        }

        if self.scanline == 261 && self.cycle == 1 {
            self.end_vblank();
        }

        // VBlank
        if self.scanline == 241 && self.cycle == 1 {
            self.start_vblank();
        }
    }

    /// Advances the PPU by one dot, drawing into `frame`.
    pub fn step(&mut self, frame: &mut Screen)
        requires
            ppu_wf(*old(self)),
            old(self).frame < u64::MAX,
            step_accesses_ok(*old(self)),
        ensures
            ppu_wf(*final(self)),
            ppu_stepped(*old(self), *final(self)),
            final(frame).pixels@ == frame_stepped(*old(self), old(frame).pixels@),
    {
        self.tick();

        // background logic
        if self.regs.show_background() && self.scanline < 240 && self.cycle >= 1 && self.cycle
            <= 256 {
            self.render_pixel(frame);
        }
        self.fetch_dot();
        self.scroll_dot();
        self.sprite_dot();
    }
}

proof fn lemma_status_bits(b: u8)
    by (bit_vector)
    ensures
        (b | 0x40) & 0x80 == b & 0x80,
        (b | 0x20) & 0x80 == b & 0x80,
        (b | 0x80) & 0x80 == 0x80,
        (b & !0x80u8 & !0x40u8 & !0x20u8) & 0x80 == 0,
        (b & !0x80u8 & !0x40u8 & !0x20u8) & 0x40 == 0,
        (b & !0x80u8 & !0x40u8 & !0x20u8) & 0x20 == 0,
{
}

/// The vertical blank. The dot that reaches line 241, dot 1 sets the
/// vblank flag and completes the frame; the dot that reaches the pre-render
/// line 261, dot 1 clears the vblank, sprite-zero-hit and overflow flags
/// and the frame is no longer complete; no other dot changes the vblank
/// flag.
pub proof fn law_vblank_timing(p: PPU, q: PPU)
    requires
        ppu_stepped(p, q),
    ensures
        q.scanline == 241 && q.cycle == 1 ==> has(q.regs.status.bits, STATUS_VBLANK_STARTED)
            && q.frame_complete,
        q.scanline == 261 && q.cycle == 1 ==> !(has(q.regs.status.bits, STATUS_VBLANK_STARTED))
            && !(has(q.regs.status.bits, STATUS_SPRITE_ZERO_HIT)) && !(has(
            q.regs.status.bits,
            STATUS_SPRITE_OVERFLOW,
        )) && !q.frame_complete,
        !(q.scanline == 241 && q.cycle == 1) && !(q.scanline == 261 && q.cycle == 1) ==> has(
            q.regs.status.bits,
            STATUS_VBLANK_STARTED,
        ) == has(p.regs.status.bits, STATUS_VBLANK_STARTED),
{
    let t = ppu_ticked(p);
    let a = if renders_pixel(t) {
        pixel_rendered(t)
    } else {
        t
    };
    let f = before_sprites(p);
    lemma_status_bits(p.regs.status.bits);
    lemma_status_bits(t.regs.status.bits);
    assert(t.regs.status == p.regs.status);
    assert(has(a.regs.status.bits, STATUS_VBLANK_STARTED) == has(p.regs.status.bits, STATUS_VBLANK_STARTED));
    assert(f.regs.status == a.regs.status);
    assert(f.scanline == t.scanline && f.cycle == t.cycle);
    lemma_status_bits(f.regs.status.bits);
    if evaluates_sprites(f) {
        assert(q.scanline == f.scanline && q.cycle == f.cycle);
    } else {
        let g = if has(f.regs.mask.bits, MASK_SHOW_SPRITES) && f.cycle == 257 {
            PPU { visible_sprites_count: 0, ..f }
        } else {
            f
        };
        let h = if g.scanline == 261 && g.cycle == 1 {
            vblank_ended(g)
        } else {
            g
        };
        lemma_status_bits(h.regs.status.bits);
    }
}

/// Enabling the NMI during the vertical blank raises it at once: if the
/// vblank flag is set and the edge detector last saw the NMI output low, a
/// PPUCTRL write with bit 7 set arms the NMI, and the next dot raises it,
/// so that `is_asserting_nmi` reports it.
pub proof fn law_ctrl_write_raises_nmi(p: PPU, data: u8, q: PPU)
    requires
        has(p.regs.status.bits, STATUS_VBLANK_STARTED),
        !p.nmi_edge_detector,
        data & 0x80 != 0,
        ppu_stepped(nmi_edge_detected(PPU { regs: after_write_ctrl(p.regs, data), ..p }), q),
    ensures
        q.nmi_triggered,
{
    let w = nmi_edge_detected(PPU { regs: after_write_ctrl(p.regs, data), ..p });
    assert(data & 0x80 == 0x80) by (bit_vector)
        requires
            data & 0x80 != 0,
    ;
    assert(has(w.regs.ctrl.bits, CTRL_GENERATE_NMI));
    assert(w.should_trigger_nmi);
    assert(ppu_ticked(w).nmi_triggered);
}

} // verus!
