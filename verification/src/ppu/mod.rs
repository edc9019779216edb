pub mod overlay;
pub mod whole_frame;
pub mod registers;
pub mod render;
pub mod screen;
pub mod sprites;
pub mod timing;

use vstd::prelude::*;
use crate::bits::lemma_u16_bits;
use crate::cpu::mappers::Mapper;
use crate::cpu::rom::{Mirroring, ROM};
use self::screen::{HEIGHT, WIDTH};
use crate::savestate::{
    be_u16_at, bool_byte, byte_at, data_appended, fits, lemma_read_back_u16, read_here, u16_be_bytes,
    Save, SaveStateError, Section,
};
use self::registers::{
    after_write_address, after_write_ctrl, after_write_scroll, has, Registers, CTRL_GENERATE_NMI, MASK_SHOW_BACKGROUND, MASK_SHOW_SPRITES,
    STATUS_SPRITE_OVERFLOW, STATUS_SPRITE_ZERO_HIT, STATUS_VBLANK_STARTED,
};

verus! {

pub const BYTES_PER_PALLETE: usize = 4;
pub const SPRITE_PALETTES_OFFSET: usize = 0x11;

/// One sprite selected for the next scanline: its position, OAM index,
/// palette, priority and the eight 2-bit colour indices of its row.
#[derive(Clone, Copy)]
pub struct SpriteData {
    pub x: u16,
    pub idx: u8,
    pub chr: [u8; 8],
    pub palette_idx: u8,
    pub behind_background: bool,
}

/// The picture processing unit: registers, nametable RAM, palette, sprite
/// attribute memory and the state of the scanline renderer.
#[allow(clippy::upper_case_acronyms)]
pub struct PPU {
    pub rom: ROM,
    pub regs: Registers,
    pub open_bus: u8,
    pub vram: [u8; 2048],
    pub palette: [u8; 32],
    pub attributes: [u8; 256],
    pub cycle: u16,
    pub scanline: u16,
    pub frame: u64,
    pub data_buffer: u8,
    pub nmi_triggered: bool,
    pub nmi_edge_detector: bool,
    pub should_trigger_nmi: bool,
    pub frame_complete: bool,
    pub tile_data: u64,
    pub nametable_byte: u8,
    pub attribute_table_byte: u8,
    pub pattern_table_low_byte: u8,
    pub pattern_table_high_byte: u8,
    pub scanline_sprites: [SpriteData; 8],
    pub visible_sprites_count: u8,
}

/// Rendering of the background or of sprites is on.
pub open spec fn rendering_on(r: Registers) -> bool {
    has(r.mask.bits, MASK_SHOW_BACKGROUND) || has(r.mask.bits, MASK_SHOW_SPRITES)
}

/// The PPU's NMI output: vblank has started and PPUCTRL asks for the NMI.
pub open spec fn nmi_line(p: PPU) -> bool {
    has(p.regs.ctrl.bits, CTRL_GENERATE_NMI) && has(p.regs.status.bits, STATUS_VBLANK_STARTED)
}

/// After the edge detector samples the NMI output: a rising edge arms the
/// NMI.
pub open spec fn nmi_edge_detected(p: PPU) -> PPU {
    PPU {
        should_trigger_nmi: if !p.nmi_edge_detector && nmi_line(p) {
            true
        } else {
            p.should_trigger_nmi
        },
        nmi_edge_detector: nmi_line(p),
        ..p
    }
}

/// An armed NMI is raised while the NMI output is still high.
pub open spec fn nmi_delivered(p: PPU) -> PPU {
    if p.should_trigger_nmi && nmi_line(p) {
        PPU { nmi_triggered: true, should_trigger_nmi: false, ..p }
    } else {
        p
    }
}

/// The PPU with its status register set to `bits`.
pub open spec fn with_status(p: PPU, bits: u8) -> PPU {
    PPU { regs: Registers { status: registers::Status { bits }, ..p.regs }, ..p }
}

/// The PPU at the start of the vertical blank: the frame is complete and
/// the vblank flag set.
pub open spec fn vblank_started(p: PPU) -> PPU {
    nmi_edge_detected(
        PPU { frame_complete: true, ..with_status(p, p.regs.status.bits | STATUS_VBLANK_STARTED) },
    )
}

/// The PPU at the end of the vertical blank (pre-render line): the vblank,
/// sprite-zero-hit and overflow flags cleared.
pub open spec fn vblank_ended(p: PPU) -> PPU {
    nmi_edge_detected(
        PPU {
            frame_complete: false,
            ..with_status(
                p,
                p.regs.status.bits & !STATUS_VBLANK_STARTED & !STATUS_SPRITE_ZERO_HIT
                    & !STATUS_SPRITE_OVERFLOW,
            )
        },
    )
}

/// The PPU after one dot of the timing counters: 341 dots per scanline,
/// 262 scanlines per frame, the last dot of the pre-render line skipped on
/// odd frames while rendering, and the mapper clocked at dot 260 of each
/// visible line while rendering.
pub open spec fn ppu_ticked(p0: PPU) -> PPU {
    let p = nmi_delivered(p0);
    if rendering_on(p.regs) && p.regs.f && p.scanline == 261 && p.cycle == 339 {
        PPU {
            cycle: 0,
            scanline: 0,
            regs: Registers { f: !p.regs.f, ..p.regs },
            frame: (p.frame + 1) as u64,
            ..p
        }
    } else {
        let q = if p.cycle + 1 > 340 {
            if p.scanline + 1 > 261 {
                PPU {
                    cycle: 0,
                    scanline: 0,
                    regs: Registers { f: !p.regs.f, ..p.regs },
                    frame: (p.frame + 1) as u64,
                    ..p
                }
            } else {
                PPU { cycle: 0, scanline: (p.scanline + 1) as u16, ..p }
            }
        } else {
            PPU { cycle: (p.cycle + 1) as u16, ..p }
        };
        if rendering_on(q.regs) && q.cycle == 260 && q.scanline < 240 {
            PPU { rom: ROM { mapper: q.rom.mapper.scanline_stepped(), ..q.rom }, ..q }
        } else {
            q
        }
    }
}

/// Where in the 2 KiB of nametable RAM an address of $2000-$3EFF lands, as
/// the cartridge's mirroring wires it; four-screen carts address past it.
pub open spec fn nametable_index(mirroring: Mirroring, addr: u16) -> int {
    let a = (addr % 0x1000) as int;
    let table = a / 0x400;
    let offset = a % 0x400;
    match mirroring {
        Mirroring::Horizontal => (table / 2) * 0x400 + offset,
        Mirroring::Vertical => (table % 2) * 0x400 + offset,
        Mirroring::OneScreenLowerBank => offset,
        Mirroring::OneScreenUpperBank => 0x400 + offset,
        Mirroring::FourScreen => a,
    }
}

/// The nametable RAM covers the address under the cartridge's mirroring.
pub open spec fn nametable_ok(mirroring: Mirroring, addr: u16) -> bool {
    nametable_index(mirroring, addr) < 2048
}

/// The byte of the palette RAM an address of $3F00-$3FFF selects ($3F10,
/// $3F14, $3F18 and $3F1C mirror $3F00, $3F04, $3F08 and $3F0C).
pub open spec fn palette_index(addr: u16) -> int {
    if addr == 0x3f10 || addr == 0x3f14 || addr == 0x3f18 || addr == 0x3f1c {
        (addr - 0x3f10) % 32
    } else {
        (addr - 0x3f00) % 32
    }
}

/// The PPU's invariant: counters within a frame, fine X within a tile, at
/// most eight sprites, 2-bit sprite colour indices, a consistent mapper.
pub open spec fn ppu_wf(p: PPU) -> bool {
    &&& p.cycle <= 340
    &&& p.scanline <= 261
    &&& p.regs.x < 8
    &&& p.regs.t < 0x8000
    &&& p.visible_sprites_count <= 8
    &&& forall|k: int, j: int|
        0 <= k < 8 && 0 <= j < 8 ==> #[trigger] p.scanline_sprites@[k].chr@[j] < 4
    &&& forall|k: int|
        0 <= k < 8 ==> #[trigger] p.scanline_sprites@[k].palette_idx < 4
            && p.scanline_sprites@[k].x < 256
    &&& p.rom.mapper.inv()
}

/// The byte a read of PPUDATA returns: the buffered byte for pattern and
/// nametable memory, the palette byte directly, 0 above $3FFF.
pub open spec fn data_read_value(p: PPU) -> u8 {
    let addr = p.regs.v;
    if addr <= 0x3eff {
        p.data_buffer
    } else if addr <= 0x3fff {
        p.palette@[palette_index(addr)]
    } else {
        0
    }
}

/// The VRAM address after a PPUDATA access.
pub open spec fn vram_addr_incremented(r: Registers) -> Registers {
    Registers {
        v: ((r.v + if has(r.ctrl.bits, registers::CTRL_VRAM_ADD_INCREMENT) {
            32int
        } else {
            1int
        }) % 0x1_0000) as u16 & 0x3fff,
        ..r
    }
}

/// The PPU after a read of PPUDATA: the read buffer refills from pattern
/// or nametable memory, and the VRAM address advances.
pub open spec fn data_read(p: PPU) -> PPU {
    let addr = p.regs.v;
    let buffer = if addr <= 0x1fff {
        p.rom.mapper.read_value(&p.rom.cart, addr)
    } else if addr <= 0x3eff {
        p.vram@[nametable_index(p.rom.cart.mirroring, addr)]
    } else {
        p.data_buffer
    };
    PPU { data_buffer: buffer, regs: vram_addr_incremented(p.regs), ..p }
}

/// A read of PPUDATA stays within the cartridge and the nametable RAM.
pub open spec fn data_read_ok(p: PPU) -> bool {
    let addr = p.regs.v;
    &&& addr <= 0x1fff ==> p.rom.mapper.read_ok(&p.rom.cart, addr)
    &&& 0x2000 <= addr <= 0x3eff ==> nametable_ok(p.rom.cart.mirroring, addr)
}

/// A write to PPUDATA stays within the cartridge and the nametable RAM.
pub open spec fn data_write_ok(p: PPU) -> bool {
    let addr = p.regs.v;
    &&& addr <= 0x1fff ==> p.rom.mapper.write_ok(&p.rom.cart, addr)
    &&& 0x2000 <= addr <= 0x2fff ==> nametable_ok(p.rom.cart.mirroring, addr)
}

/// `q` is the PPU after `data` is written to PPUDATA in state `p`.
pub open spec fn data_written(p: PPU, data: u8, q: PPU) -> bool {
    let addr = p.regs.v;
    &&& q.regs == vram_addr_incremented(p.regs)
    &&& addr <= 0x1fff ==> p.rom.mapper.written(&p.rom.cart, addr, data, &q.rom.mapper, &q.rom.cart)
        && q == (PPU { rom: q.rom, regs: q.regs, ..p })
    &&& 0x2000 <= addr <= 0x2fff ==> q.vram@ == p.vram@.update(
        nametable_index(p.rom.cart.mirroring, addr),
        data,
    ) && q == (PPU { vram: q.vram, regs: q.regs, ..p })
    &&& 0x3f00 <= addr <= 0x3fff ==> q.palette@ == p.palette@.update(palette_index(addr), data)
        && q == (PPU { palette: q.palette, regs: q.regs, ..p })
    &&& 0x3000 <= addr <= 0x3eff || addr > 0x3fff ==> q == (PPU { regs: q.regs, ..p })
}

/// `q` is the PPU after `data` is written to register `addr` ($2000-$2007)
/// in state `p`; every write also loads the open bus.
pub open spec fn register_written(p0: PPU, addr: u16, data: u8, q: PPU) -> bool {
    let p = PPU { open_bus: data, ..p0 };
    if addr == 0x2000 {
        q == nmi_edge_detected(PPU { regs: after_write_ctrl(p.regs, data), ..p })
    } else if addr == 0x2001 {
        q == (PPU { regs: Registers { mask: registers::Mask { bits: data }, ..p.regs }, ..p })
    } else if addr == 0x2003 {
        q == (PPU { regs: Registers { oam_addr: data, ..p.regs }, ..p })
    } else if addr == 0x2004 {
        q.attributes@ == p.attributes@.update(p.regs.oam_addr as int, data) && q == (PPU {
            attributes: q.attributes,
            regs: Registers { oam_addr: ((p.regs.oam_addr + 1) % 256) as u8, ..p.regs },
            ..p
        })
    } else if addr == 0x2005 {
        q == (PPU { regs: after_write_scroll(p.regs, data), ..p })
    } else if addr == 0x2006 {
        q == (PPU { regs: after_write_address(p.regs, data), ..p })
    } else if addr == 0x2007 {
        data_written(p, data, q)
    } else {
        q == p
    }
}

/// A write of register `addr` stays within memory.
pub open spec fn register_write_ok(p: PPU, addr: u16) -> bool {
    &&& 0x2000 <= addr <= 0x2007
    &&& addr == 0x2007 ==> data_write_ok(p)
}

/// The byte a read of PPU register `addr` returns.
pub open spec fn register_read_value(p: PPU, addr: u16) -> u8 {
    if addr == 0x2002 {
        (p.regs.status.bits & 0b1110_0000) | (p.open_bus & 0b0001_1111)
    } else if addr == 0x2004 {
        p.attributes@[p.regs.oam_addr as int]
    } else if addr == 0x2007 {
        data_read_value(p)
    } else {
        0
    }
}

/// The PPU after a read of register `addr`: PPUSTATUS clears the vblank
/// flag and the write toggle, PPUDATA refills its buffer.
pub open spec fn register_read(p: PPU, addr: u16) -> PPU {
    if addr == 0x2002 {
        nmi_edge_detected(
            PPU {
                regs: Registers {
                    status: registers::Status {
                        bits: p.regs.status.bits & !STATUS_VBLANK_STARTED,
                    },
                    w: false,
                    ..p.regs
                },
                ..p
            },
        )
    } else if addr == 0x2007 {
        data_read(p)
    } else {
        p
    }
}

/// A read of register `addr` stays within memory.
pub open spec fn register_read_ok(p: PPU, addr: u16) -> bool {
    addr == 0x2007 ==> data_read_ok(p)
}

/// The PPU's state at power-on, past its reset: registers and memories
/// cleared, the counters at the end of the visible frame.
pub open spec fn ppu_power_on(p: PPU) -> bool {
    &&& p.regs.v == 0 && p.regs.t == 0 && p.regs.x == 0 && !p.regs.w && !p.regs.f
    &&& p.regs.ctrl.bits == 0 && p.regs.mask.bits == 0 && p.regs.status.bits == 0
    &&& p.regs.oam_addr == 0
    &&& p.cycle == 340 && p.scanline == 240 && p.frame == 0
    &&& p.open_bus == 0 && p.data_buffer == 0
    &&& !p.nmi_triggered && !p.nmi_edge_detector && !p.should_trigger_nmi
    &&& !p.frame_complete
    &&& p.tile_data == 0 && p.nametable_byte == 0 && p.attribute_table_byte == 0
    &&& p.pattern_table_low_byte == 0 && p.pattern_table_high_byte == 0
    &&& p.visible_sprites_count == 0
    &&& forall|i: int| 0 <= i < 2048 ==> p.vram@[i] == 0
    &&& forall|i: int| 0 <= i < 32 ==> p.palette@[i] == 0
    &&& forall|i: int| 0 <= i < 256 ==> p.attributes@[i] == 0
}

/// The PPU invariant holds of a state that agrees with a consistent one
/// on the sprites and fine X, keeps its counters and temporary address in
/// range and its mapper consistent.
pub proof fn lemma_wf_from(p: PPU, q: PPU)
    requires
        ppu_wf(p),
        q.scanline_sprites == p.scanline_sprites,
        q.visible_sprites_count == p.visible_sprites_count,
        q.regs.x == p.regs.x,
        q.regs.t < 0x8000,
        q.rom.mapper.inv(),
        q.cycle <= 340,
        q.scanline <= 261,
    ensures
        ppu_wf(q),
{
}

/// The PPU invariant only looks at the registers' fine X scroll and the
/// top bit of the temporary address.
pub proof fn lemma_wf_with_regs(p: PPU, r: Registers)
    requires
        ppu_wf(p),
        r.x == p.regs.x,
        r.t < 0x8000,
    ensures
        ppu_wf(PPU { regs: r, ..p }),
{
}

impl PPU {
    pub fn new(rom: ROM) -> (p: PPU)
        requires
            rom.mapper.inv(),
        ensures
            ppu_wf(p),
            p.rom == rom,
            ppu_power_on(p),
    {
        let empty = SpriteData { x: 0, idx: 0, palette_idx: 0, behind_background: false, chr: [0; 8] };
        let mut ppu = PPU {
            rom,
            regs: Registers::new(),
            open_bus: 0,
            vram: [0; 2048],
            palette: [0; 32],
            attributes: [0; 256],
            cycle: 0,
            scanline: 0,
            frame: 0,
            data_buffer: 0,
            nmi_triggered: false,
            should_trigger_nmi: false,
            nmi_edge_detector: false,
            frame_complete: false,
            // background data
            tile_data: 0,
            nametable_byte: 0,
            attribute_table_byte: 0,
            pattern_table_low_byte: 0,
            pattern_table_high_byte: 0,
            scanline_sprites: [empty; 8],
            visible_sprites_count: 0,
        };
        ppu.reset();
        proof {
            lemma_u16_bits(0);
        }
        ppu
    }

    /// Puts the counters at the end of the visible frame and clears PPUCTRL,
    /// PPUMASK and the OAM address.
    pub fn reset(&mut self)
        ensures
            *final(self) == (PPU {
                cycle: 340,
                scanline: 240,
                frame: 0,
                regs: Registers {
                    mask: registers::Mask { bits: 0 },
                    oam_addr: 0,
                    ..after_write_ctrl(old(self).regs, 0)
                },
                ..*old(self)
            }),
    {
        self.cycle = 340;
        self.scanline = 240;
        self.frame = 0;
        self.regs.write_ctrl(0);
        self.regs.write_mask(0);
        self.regs.oam_addr = 0;
    }

    /// Delivers an armed NMI; the cheap part of a dot, for callers that
    /// skip the renderer.
    pub fn tick_inaccurate(&mut self)
        ensures
            *final(self) == nmi_delivered(*old(self)),
    {
        if self.should_trigger_nmi && self.regs.ctrl.contains(CTRL_GENERATE_NMI)
            && self.regs.status.contains(STATUS_VBLANK_STARTED) {
            self.nmi_triggered = true;
            self.should_trigger_nmi = false;
        }
    }

    fn tick(&mut self)
        requires
            ppu_wf(*old(self)),
            old(self).frame < u64::MAX,
        ensures
            ppu_wf(*final(self)),
            *final(self) == ppu_ticked(*old(self)),
    {
        self.tick_inaccurate();

        if self.regs.rendering_enabled() && self.regs.f && self.scanline == 261 && self.cycle
            == 339 {
            // skip cycle 339 of pre-render scanline
            self.cycle = 0;
            self.scanline = 0;
            self.regs.f = !self.regs.f;
            self.frame += 1;
            proof {
                lemma_wf_from(*old(self), *self);
            }
            return ;
        }
        self.cycle += 1;

        if self.cycle > 340 {
            self.cycle = 0;
            self.scanline += 1;

            if self.scanline > 261 {
                self.scanline = 0;
                self.regs.f = !self.regs.f;
                self.frame += 1;
            }
        }
        let ghost before = *self;
        if self.regs.rendering_enabled() && self.cycle == 260 && self.scanline < 240 {
            self.rom.mapper.step_scanline();
        }
        assert(self.scanline_sprites == before.scanline_sprites);
        proof {
            lemma_wf_from(*old(self), *self);
        }
    }

    pub fn start_vblank(&mut self)
        ensures
            *final(self) == vblank_started(*old(self)),
    {
        self.frame_complete = true;
        self.regs.status.insert(STATUS_VBLANK_STARTED);
        self.detect_nmi_edge();
    }

    pub fn end_vblank(&mut self)
        ensures
            *final(self) == vblank_ended(*old(self)),
    {
        self.frame_complete = false;
        self.regs.status.remove(STATUS_VBLANK_STARTED);
        self.regs.status.remove(STATUS_SPRITE_ZERO_HIT);
        self.regs.status.remove(STATUS_SPRITE_OVERFLOW);
        self.detect_nmi_edge();
    }

    fn detect_nmi_edge(&mut self)
        ensures
            *final(self) == nmi_edge_detected(*old(self)),
    {
        let nmi = self.regs.ctrl.contains(CTRL_GENERATE_NMI) && self.regs.status.contains(
            STATUS_VBLANK_STARTED,
        );

        if !self.nmi_edge_detector && nmi {
            self.should_trigger_nmi = true;
        }
        self.nmi_edge_detector = nmi;
    }

    #[inline]
    pub fn vblank_started(&self) -> (b: bool)
        ensures
            b == has(self.regs.status.bits, STATUS_VBLANK_STARTED),
    {
        self.regs.status.contains(STATUS_VBLANK_STARTED)
    }

    /// Reports, and acknowledges, a raised NMI.
    pub fn is_asserting_nmi(&mut self) -> (triggered: bool)
        ensures
            triggered == old(self).nmi_triggered,
            *final(self) == (PPU { nmi_triggered: false, ..*old(self) }),
    {
        let triggered = self.nmi_triggered;
        self.nmi_triggered = false;
        triggered
    }

    /// Reports, and acknowledges, a raised NMI.
    pub fn pull_nmi_status(&mut self) -> (triggered: bool)
        ensures
            triggered == old(self).nmi_triggered,
            *final(self) == (PPU { nmi_triggered: false, ..*old(self) }),
    {
        self.is_asserting_nmi()
    }

    /// The X and Y coordinates of sprite 0.
    #[inline]
    pub fn sprite_zero_coords(&self) -> (c: (u8, u8))
        ensures
            c == (self.attributes@[3], self.attributes@[0]),
    {
        (self.attributes[3], self.attributes[0])
    }

    fn nametable_mirrored_addr(&self, addr: u16) -> (i: u16)
        ensures
            i == nametable_index(self.rom.cart.mirroring, addr),
    {
        proof {
            lemma_u16_bits(addr);
        }
        let a = addr & 0x0FFF;
        let offset = a & 0x3FF;
        let table = a >> 10;
        proof {
            lemma_u16_bits(a);
        }
        match self.rom.cart.mirroring {
            Mirroring::Horizontal => (table / 2) * 0x400 + offset,
            Mirroring::Vertical => (table % 2) * 0x400 + offset,
            Mirroring::OneScreenLowerBank => offset,
            Mirroring::OneScreenUpperBank => 0x400 + offset,
            Mirroring::FourScreen => a,
        }
    }

    #[inline]
    fn read_nametable(&self, addr: u16) -> (b: u8)
        requires
            nametable_ok(self.rom.cart.mirroring, addr),
        ensures
            b == self.vram@[nametable_index(self.rom.cart.mirroring, addr)],
    {
        let addr = self.nametable_mirrored_addr(addr);
        self.vram[addr as usize]
    }

    #[inline]
    fn read_chr(&mut self, addr: u16) -> (b: u8)
        requires
            old(self).rom.mapper.inv(),
            old(self).rom.mapper.read_ok(&old(self).rom.cart, addr),
        ensures
            b == old(self).rom.mapper.read_value(&old(self).rom.cart, addr),
            *final(self) == *old(self),
    {
        self.rom.mapper.read(&mut self.rom.cart, addr)
    }

    pub fn write_ctrl_reg(&mut self, data: u8)
        ensures
            *final(self) == nmi_edge_detected(
                PPU { regs: after_write_ctrl(old(self).regs, data), ..*old(self) },
            ),
    {
        self.regs.write_ctrl(data);
        // the PPU immediately triggers a NMI when the VBlank flag transitions from 0 to 1 during VBlank
        self.detect_nmi_edge();
    }

    pub fn read_data_reg(&mut self) -> (res: u8)
        requires
            ppu_wf(*old(self)),
            data_read_ok(*old(self)),
        ensures
            res == data_read_value(*old(self)),
            *final(self) == data_read(*old(self)),
    {
        let addr = self.regs.v;

        let res = if addr <= 0x1fff {
            let res = self.data_buffer;
            self.data_buffer = self.read_chr(addr);
            res
        } else if addr <= 0x3eff {
            let res = self.data_buffer;
            self.data_buffer = self.read_nametable(addr);
            res
        } else if addr == 0x3f10 || addr == 0x3f14 || addr == 0x3f18 || addr == 0x3f1c {
            proof {
                lemma_u16_bits((addr - 0x3f10) as u16);
            }
            self.palette[((addr - 0x3f10) & 31) as usize]
        } else if addr <= 0x3fff {
            proof {
                lemma_u16_bits((addr - 0x3f00) as u16);
            }
            self.palette[((addr - 0x3f00) & 31) as usize]
        } else {
            0
        };

        self.regs.increment_vram_addr();
        res
    }

    /// Writes PPUDATA: pattern memory through the mapper, nametable RAM
    /// through the mirroring, or palette RAM; then advances the VRAM
    /// address. Writes to $3000-$3EFF and above $3FFF only advance it.
    pub fn write_data_reg(&mut self, data: u8)
        requires
            ppu_wf(*old(self)),
            data_write_ok(*old(self)),
        ensures
            ppu_wf(*final(self)),
            data_written(*old(self), data, *final(self)),
    {
        let addr = self.regs.v;

        if addr <= 0x1fff {
            self.rom.mapper.write(&mut self.rom.cart, addr, data);
        } else if addr <= 0x2fff {
            let mirrored_addr = self.nametable_mirrored_addr(addr) as usize;
            self.vram[mirrored_addr] = data;
        } else if addr == 0x3f10 || addr == 0x3f14 || addr == 0x3f18 || addr == 0x3f1c {
            proof {
                lemma_u16_bits((addr - 0x3f10) as u16);
            }
            self.palette[((addr - 0x3f10) & 31) as usize] = data;
        } else if 0x3f00 <= addr && addr <= 0x3fff {
            proof {
                lemma_u16_bits((addr - 0x3f00) as u16);
            }
            self.palette[((addr - 0x3f00) & 31) as usize] = data;
        }
        self.regs.increment_vram_addr();
    }

    pub fn read_oam_data_reg(&mut self) -> (b: u8)
        ensures
            b == old(self).attributes@[old(self).regs.oam_addr as int],
            *final(self) == *old(self),
    {
        self.attributes[self.regs.oam_addr as usize]
    }

    pub fn write_oam_data_reg(&mut self, data: u8)
        ensures
            final(self).attributes@ == old(self).attributes@.update(
                old(self).regs.oam_addr as int,
                data,
            ),
            final(self).regs == (Registers {
                oam_addr: ((old(self).regs.oam_addr + 1) % 256) as u8,
                ..old(self).regs
            }),
            *final(self) == (PPU {
                attributes: final(self).attributes,
                regs: final(self).regs,
                ..*old(self)
            }),
    {
        self.attributes[self.regs.oam_addr as usize] = data;
        self.regs.oam_addr = self.regs.oam_addr.wrapping_add(1);
    }

    /// Copies a 256-byte page into sprite attribute memory, starting at the
    /// OAM address and wrapping around.
    pub fn write_oam_dma_reg(&mut self, page: [u8; 256])
        ensures
            forall|i: int|
                0 <= i < 256 ==> #[trigger] final(self).attributes@[(old(self).regs.oam_addr + i)
                    % 256] == page@[i],
            *final(self) == (PPU { attributes: final(self).attributes, ..*old(self) }),
    {
        if self.regs.oam_addr == 0 {
            self.attributes = page;
        } else {
            let ghost start = self.regs.oam_addr;
            let mut i: usize = 0;
            while i < 256
                invariant
                    0 <= i <= 256,
                    self.regs.oam_addr == (start + i) % 256,
                    forall|j: int|
                        0 <= j < i ==> #[trigger] self.attributes@[(start + j) % 256] == page@[j],
                    *self == (PPU {
                        attributes: self.attributes,
                        regs: Registers { oam_addr: self.regs.oam_addr, ..old(self).regs },
                        ..*old(self)
                    }),
                    start == old(self).regs.oam_addr,
                decreases 256 - i,
            {
                let ghost before = self.attributes@;
                self.write_oam_data_reg(page[i]);
                assert forall|j: int| 0 <= j < i + 1 implies #[trigger] self.attributes@[(start
                    + j) % 256] == page@[j] by {
                    if j < i {
                        assert((start + j) % 256 != (start + i) % 256);
                        assert(self.attributes@[(start + j) % 256] == before[(start + j) % 256]);
                    }
                }
                i += 1;
            }
        }
    }

    /// Reads PPU register `addr` ($2000-$2007); write-only registers read
    /// as 0.
    pub fn read_register(&mut self, addr: u16) -> (res: u8)
        requires
            ppu_wf(*old(self)),
            register_read_ok(*old(self), addr),
        ensures
            ppu_wf(*final(self)),
            res == register_read_value(*old(self), addr),
            *final(self) == register_read(*old(self), addr),
    {
        match addr {
            0x2002 => {
                let res = self.regs.read_status(self.open_bus);
                self.detect_nmi_edge();
                res
            },
            0x2004 => self.read_oam_data_reg(),
            0x2007 => self.read_data_reg(),
            _ => 0,
        }
    }

    /// Writes PPU register `addr` ($2000-$2007); writes to PPUSTATUS only
    /// load the open bus.
    pub fn write_register(&mut self, addr: u16, data: u8)
        requires
            ppu_wf(*old(self)),
            register_write_ok(*old(self), addr),
        ensures
            ppu_wf(*final(self)),
            register_written(*old(self), addr, data, *final(self)),
    {
        // https://www.nesdev.org/wiki/Open_bus_behavior#PPU_open_bus
        self.open_bus = data;
        proof {
            registers::lemma_t_writes(old(self).regs.t, data);
        }

        match addr {
            0x2000 => self.write_ctrl_reg(data),
            0x2001 => self.regs.write_mask(data),
            0x2002 => {},
            0x2003 => self.regs.write_oam_address(data),
            0x2004 => self.write_oam_data_reg(data),
            0x2005 => {
                self.regs.write_scroll(data);
                proof {
                    crate::bits::lemma_u8_bits(data);
                }
            },
            0x2006 => self.regs.write_address(data),
            _ => self.write_data_reg(data),
        }
    }
}


/// The bytes a sprite saves: its column, its index, its palette and its
/// priority (its pattern row is fetched again).
pub open spec fn sprite_bytes(d: SpriteData) -> Seq<u8> {
    u16_be_bytes(d.x) + seq![d.idx, d.palette_idx, bool_byte(d.behind_background)]
}

impl Save for SpriteData {
    /// The sprite's bytes, written to the parent's own buffer.
    open spec fn saved(&self, before: Section, after: Section) -> bool {
        data_appended(before, after, sprite_bytes(*self))
    }

    /// Each field is read back in turn from the parent's buffer as long as
    /// its bytes are there; the pattern row is kept.
    open spec fn loaded(
        &self,
        before: Section,
        r: Result<(), SaveStateError>,
        value: SpriteData,
        after: Section,
    ) -> bool {
        let b = before.data.data@;
        let i = before.data.read_index as int;
        &&& value.x == if fits(before, 2) { be_u16_at(b, i) } else { self.x }
        &&& value.idx == if fits(before, 3) { byte_at(before, 2) } else { self.idx }
        &&& value.palette_idx == if fits(before, 4) { byte_at(before, 3) } else { self.palette_idx }
        &&& value.behind_background == if fits(before, 5) {
            byte_at(before, 4) != 0
        } else {
            self.behind_background
        }
        &&& value.chr == self.chr
        &&& read_here(before, 5, r, after)
    }

    fn save(&self, parent: &mut Section) {
        parent.data.write_u16(self.x);
        parent.data.write_u8(self.idx);
        parent.data.write_u8(self.palette_idx);
        parent.data.write_bool(self.behind_background);
        assert(parent.data.data@ == old(parent).data.data@ + sprite_bytes(*self));
    }

    fn load(&mut self, parent: &mut Section) -> (r: Result<(), SaveStateError>) {
        self.x = match parent.data.read_u16() {
            Ok(v) => v,
            Err(e) => return Err(e),
        };
        self.idx = match parent.data.read_u8() {
            Ok(v) => v,
            Err(e) => return Err(e),
        };
        self.palette_idx = match parent.data.read_u8() {
            Ok(v) => v,
            Err(e) => return Err(e),
        };
        self.behind_background = match parent.data.read_bool() {
            Ok(v) => v,
            Err(e) => return Err(e),
        };
        Ok(())
    }
}

/// Loading a sprite from a section whose cursor stands where saving one
/// began writing gives back its column, index, palette and priority.
pub proof fn law_sprite_save_load(
    t: SpriteData,
    u: SpriteData,
    p: Section,
    q: Section,
    r: Result<(), SaveStateError>,
    v: SpriteData,
    q2: Section,
)
    requires
        p.data.read_index == p.data.data@.len(),
        t.saved(p, q),
        u.loaded(q, r, v, q2),
    ensures
        r is Ok,
        v == (SpriteData { chr: u.chr, ..t }),
{
    let tail = seq![t.idx, t.palette_idx, bool_byte(t.behind_background)];
    lemma_read_back_u16(p.data.data@, t.x, tail);
    assert(q.data.data@ == p.data.data@ + u16_be_bytes(t.x) + tail);
}


/// The sprite palettes' first entries are the background palettes' first
/// entries: $3F10, $3F14, $3F18 and $3F1C select the same palette bytes as
/// $3F00, $3F04, $3F08 and $3F0C; every palette address selects one of the
/// 32 bytes.
pub proof fn law_palette_mirrors(addr: u16)
    requires
        0x3f00 <= addr <= 0x3fff,
    ensures
        0 <= palette_index(addr) < 32,
        palette_index(0x3f10) == palette_index(0x3f00),
        palette_index(0x3f14) == palette_index(0x3f04),
        palette_index(0x3f18) == palette_index(0x3f08),
        palette_index(0x3f1c) == palette_index(0x3f0c),
{
}

/// A byte written through PPUDATA to the palette reads back through
/// PPUDATA, at once, from any address that selects the same palette byte.
pub proof fn law_palette_write_read(p: PPU, data: u8, q: PPU, addr: u16)
    requires
        0x3f00 <= p.regs.v <= 0x3fff,
        data_written(p, data, q),
        0x3f00 <= addr <= 0x3fff,
        palette_index(addr) == palette_index(p.regs.v),
    ensures
        data_read_value(PPU { regs: Registers { v: addr, ..q.regs }, ..q }) == data,
{
}

/// A byte written through PPUDATA to a nametable is what the next PPUDATA
/// read of it, or of an address that the cartridge's mirroring maps to the
/// same byte, loads into the read buffer.
pub proof fn law_nametable_write_read(p: PPU, data: u8, q: PPU, addr: u16)
    requires
        0x2000 <= p.regs.v <= 0x2fff,
        nametable_ok(p.rom.cart.mirroring, p.regs.v),
        data_written(p, data, q),
        0x2000 <= addr <= 0x3eff,
        nametable_index(p.rom.cart.mirroring, addr) == nametable_index(p.rom.cart.mirroring, p.regs.v),
    ensures
        data_read(PPU { regs: Registers { v: addr, ..q.regs }, ..q }).data_buffer == data,
{
}


proof fn lemma_address_bytes(t: u16, a: u16)
    by (bit_vector)
    requires
        a <= 0x3fff,
        t < 0x8000,
    ensures
        (((((t & 0x80FF) | ((((a >> 8) as u8) as u16 & 0b111111) << 8)) & 0xBFFF) & 0xFF00) | (
        (a & 0xff) as u8 as u16)) == a,
{
}

/// A byte written through PPUDATA to a nametable reads back through the
/// registers: point PPUADDR at its address again (two writes to $2006, the
/// high byte first, the write latch clear), then of two PPUDATA reads the
/// first loads the byte into the read buffer and the second returns it.
pub proof fn law_nametable_write_read_back(
    p: PPU,
    data: u8,
    q: PPU,
    q1: PPU,
    q2: PPU,
)
    requires
        0x2000 <= p.regs.v <= 0x2fff,
        nametable_ok(p.rom.cart.mirroring, p.regs.v),
        data_written(p, data, q),
        ppu_wf(p),
        !q.regs.w,
        register_written(q, 0x2006, #[verifier::truncate] ((p.regs.v >> 8) as u8), q1),
        register_written(q1, 0x2006, #[verifier::truncate] ((p.regs.v & 0xff) as u8), q2),
    ensures
        q2.regs.v == p.regs.v,
        data_read(q2).data_buffer == data,
        data_read_value(data_read(q2)) == data,
{
    lemma_address_bytes(q.regs.t, p.regs.v);
    let r = vram_addr_incremented(q2.regs);
    let n: u16 = if has(q2.regs.ctrl.bits, registers::CTRL_VRAM_ADD_INCREMENT) {
        (q2.regs.v + 32) as u16
    } else {
        (q2.regs.v + 1) as u16
    };
    assert(n & 0x3fff == n) by (bit_vector)
        requires
            n <= 0x3fff,
    ;
    assert(r.v == n);
}

/// Where pixel (`x`, `y`) of a buffer two screens wide starts, three bytes
/// per pixel.
pub open spec fn wide_pixel_offset(x: usize, y: usize) -> int {
    (y * 2 * WIDTH + x) * 3
}

impl PPU {
    /// Writes an RGB pixel into `target`, a buffer two screens wide; pixels
    /// outside it, or starting past its end, are dropped.
    pub fn set_pixel(target: &mut [u8], x: usize, y: usize, rgb: (u8, u8, u8))
        requires
            wide_pixel_offset(x, y) <= usize::MAX,
            x < 2 * WIDTH && y < HEIGHT && wide_pixel_offset(x, y) < old(target)@.len()
                ==> wide_pixel_offset(x, y) + 2 < old(target)@.len(),
        ensures
            final(target)@ == if x < 2 * WIDTH && y < HEIGHT && wide_pixel_offset(x, y) < old(
                target,
            )@.len() {
                old(target)@.update(wide_pixel_offset(x, y), rgb.0).update(
                    wide_pixel_offset(x, y) + 1,
                    rgb.1,
                ).update(wide_pixel_offset(x, y) + 2, rgb.2)
            } else {
                old(target)@
            },
    {
        let offset = (y * 2 * WIDTH + x) * 3;
        if x < 2 * WIDTH && y < HEIGHT && offset < target.len() {
            target[offset] = rgb.0;
            target[offset + 1] = rgb.1;
            target[offset + 2] = rgb.2;
        }
    }
}

} // verus!
