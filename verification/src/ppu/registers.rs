use vstd::prelude::*;
use crate::bits::{lemma_u16_bits, lemma_u8_bits};
use crate::savestate::{
    be_u16_at, bool_byte, byte_at, child_appended, contains_named, cursor_after, fits, found,
    lemma_found_appended, lemma_read_back_u16, missing, read_from, u16_be_bytes, Save, SaveStateError,
    Section,
};

verus! {

// 7  bit  0
// ---- ----
// VPHB SINN
// |||| ||++- Base nametable address (0 = $2000; 1 = $2400; 2 = $2800; 3 = $2C00)
// |||| |+--- VRAM address increment per CPU read/write of PPUDATA (0: add 1; 1: add 32)
// |||| +---- Sprite pattern table address for 8x8 sprites (0: $0000; 1: $1000)
// |||+------ Background pattern table address (0: $0000; 1: $1000)
// ||+------- Sprite size (0: 8x8 pixels; 1: 8x16 pixels)
// |+-------- PPU master/slave select
// +--------- Generate an NMI at the start of the vertical blanking interval
/// The PPUCTRL register.
#[derive(Clone, Copy)]
pub struct Ctrl {
    pub bits: u8,
}

pub const CTRL_NAMETABLE1: u8 = 0b0000_0001;
pub const CTRL_NAMETABLE2: u8 = 0b0000_0010;
pub const CTRL_VRAM_ADD_INCREMENT: u8 = 0b0000_0100;
pub const CTRL_SPRITE_PATTERN_ADDR: u8 = 0b0000_1000;
pub const CTRL_BACKROUND_PATTERN_ADDR: u8 = 0b0001_0000;
pub const CTRL_SPRITE_SIZE: u8 = 0b0010_0000;
pub const CTRL_MASTER_SLAVE_SELECT: u8 = 0b0100_0000;
pub const CTRL_GENERATE_NMI: u8 = 0b1000_0000;

// 7  bit  0
// ---- ----
// BGRs bMmG
// |||| |||+- Greyscale
// |||| ||+-- Show background in leftmost 8 pixels of screen
// |||| |+--- Show sprites in leftmost 8 pixels of screen
// |||| +---- Show background
// |||+------ Show sprites
// ||+------- Emphasize red
// |+-------- Emphasize green
// +--------- Emphasize blue
/// The PPUMASK register.
#[derive(Clone, Copy)]
pub struct Mask {
    pub bits: u8,
}

pub const MASK_GREYSCALE: u8 = 0b0000_0001;
pub const MASK_SHOW_BACKGROUND_LEFT: u8 = 0b0000_0010;
pub const MASK_SHOW_SPRITES_LEFT: u8 = 0b0000_0100;
pub const MASK_SHOW_BACKGROUND: u8 = 0b0000_1000;
pub const MASK_SHOW_SPRITES: u8 = 0b0001_0000;
pub const MASK_EMPHASIZE_RED: u8 = 0b0010_0000;
pub const MASK_EMPHASIZE_GREEN: u8 = 0b0100_0000;
pub const MASK_EMPHASIZE_BLUE: u8 = 0b1000_0000;

// 7  bit  0
// ---- ----
// VSO. ....
// |||+-++++- PPU open bus
// ||+------- Sprite overflow
// |+-------- Sprite 0 Hit
// +--------- Vertical blank has started
/// The PPUSTATUS register.
#[derive(Clone, Copy)]
pub struct Status {
    pub bits: u8,
}

pub const STATUS_SPRITE_OVERFLOW: u8 = 0b0010_0000;
pub const STATUS_SPRITE_ZERO_HIT: u8 = 0b0100_0000;
pub const STATUS_VBLANK_STARTED: u8 = 0b1000_0000;

impl Status {
    #[inline]
    pub fn contains(&self, flag: u8) -> (b: bool)
        ensures
            b == (self.bits & flag == flag),
    {
        self.bits & flag == flag
    }

    #[inline]
    pub fn insert(&mut self, flag: u8)
        ensures
            final(self).bits == old(self).bits | flag,
    {
        self.bits = self.bits | flag;
    }

    #[inline]
    pub fn remove(&mut self, flag: u8)
        ensures
            final(self).bits == old(self).bits & !flag,
    {
        self.bits = self.bits & !flag;
    }
}

#[derive(Clone, Copy, PartialEq, Eq, Structural)]
pub enum SpriteSize {
    Sprite8x8,
    Sprite8x16,
}

impl SpriteSize {
    pub fn height(&self) -> (h: u8)
        ensures
            h == (if *self == SpriteSize::Sprite8x8 { 8u8 } else { 16u8 }),
    {
        match self {
            SpriteSize::Sprite8x8 => 8,
            SpriteSize::Sprite8x16 => 16,
        }
    }
}

/// Whether the given bit of a register byte is set.
pub open spec fn has(bits: u8, flag: u8) -> bool {
    bits & flag == flag
}

impl Ctrl {
    pub fn contains(&self, flag: u8) -> (b: bool)
        ensures
            b == has(self.bits, flag),
    {
        self.bits & flag == flag
    }

    pub fn background_chr_offset(&self) -> (o: u16)
        ensures
            o == if has(self.bits, CTRL_BACKROUND_PATTERN_ADDR) { 0x1000u16 } else { 0u16 },
    {
        if !self.contains(CTRL_BACKROUND_PATTERN_ADDR) {
            0
        } else {
            0x1000
        }
    }

    #[inline]
    pub fn base_nametable_addr(&self) -> (a: usize)
        ensures
            a == 0x2000 + 0x400 * (self.bits % 4),
    {
        let bits = self.bits;
        let sel = bits & 0b11;
        proof {
            lemma_u8_bits(bits);
        }
        match sel {
            0 => 0x2000,
            1 => 0x2400,
            2 => 0x2800,
            _ => 0x2c00,
        }
    }

    #[inline]
    pub fn sprite_chr_offset(&self) -> (o: u16)
        ensures
            o == if has(self.bits, CTRL_SPRITE_PATTERN_ADDR) { 0x1000u16 } else { 0u16 },
    {
        if !self.contains(CTRL_SPRITE_PATTERN_ADDR) {
            0
        } else {
            0x1000
        }
    }

    pub fn vram_addr_increment(self) -> (i: u16)
        ensures
            i == if has(self.bits, CTRL_VRAM_ADD_INCREMENT) { 32u16 } else { 1u16 },
    {
        if self.contains(CTRL_VRAM_ADD_INCREMENT) {
            32
        } else {
            1
        }
    }

    pub fn sprite_size(&self) -> (s: SpriteSize)
        ensures
            s == if has(self.bits, CTRL_SPRITE_SIZE) {
                SpriteSize::Sprite8x16
            } else {
                SpriteSize::Sprite8x8
            },
    {
        if self.contains(CTRL_SPRITE_SIZE) {
            SpriteSize::Sprite8x16
        } else {
            SpriteSize::Sprite8x8
        }
    }
}

/// The last values written for the horizontal and vertical scroll, and which
/// of the two the next write sets.
#[derive(Clone, Copy)]
pub struct Scroll {
    pub x: u8,
    pub y: u8,
    pub is_x: bool,
}

impl Scroll {
    pub fn write(&mut self, data: u8)
        ensures
            final(self).is_x == !old(self).is_x,
            old(self).is_x ==> final(self).x == data && final(self).y == old(self).y,
            !old(self).is_x ==> final(self).y == data && final(self).x == old(self).x,
    {
        if self.is_x {
            self.x = data;
        } else {
            self.y = data;
        }
        self.is_x = !self.is_x;
    }
}

// https://wiki.nesdev.com/w/index.php/PPU_registers
/// The PPU's registers, with the internal scrolling registers `v`, `t`, `x`
/// and `w`, and the even/odd frame flag `f`.
#[derive(Clone, Copy)]
pub struct Registers {
    pub v: u16,  // current vram address
    pub t: u16,  // temp vram address
    pub x: u8,  // fine x scroll
    pub w: bool,  // write toggle
    pub f: bool,  // even/odd frame flag
    pub ctrl: Ctrl,
    pub mask: Mask,
    pub status: Status,
    pub oam_addr: u8,
    pub scroll: Scroll,
}

// ---- the effect of each register operation, as a function of the state ----

/// Register writes keep the temporary address within 15 bits.
pub proof fn lemma_t_writes(t: u16, d: u8)
    by (bit_vector)
    requires
        t < 0x8000,
    ensures
        (t & 0xF3FF) | (((d as u16) & 0b11) << 10) < 0x8000,
        (t & 0xFFE0) | ((d as u16) >> 3) < 0x8000,
        (((t & 0x8FFF) | (((d as u16) & 0b111) << 12)) & 0xFC1F) | (((d as u16) & 0b11111000) << 2)
            < 0x8000,
        ((t & 0x80FF) | (((d as u16) & 0b111111) << 8)) & 0xBFFF < 0x8000,
        (t & 0xFF00) | (d as u16) < 0x8000,
{
}

pub open spec fn after_write_ctrl(r: Registers, data: u8) -> Registers {
    Registers { ctrl: Ctrl { bits: data }, t: (r.t & 0xF3FF) | (((data as u16) & 0b11) << 10), ..r }
}

pub open spec fn after_write_scroll(r: Registers, data: u8) -> Registers {
    if !r.w {
        Registers {
            t: (r.t & 0xFFE0) | ((data as u16) >> 3),
            x: data & 0b111,
            w: true,
            scroll: Scroll { is_x: false, x: data, ..r.scroll },
            ..r
        }
    } else {
        Registers {
            t: (((r.t & 0x8FFF) | (((data as u16) & 0b111) << 12)) & 0xFC1F) | (((data as u16)
                & 0b11111000) << 2),
            w: false,
            scroll: Scroll { is_x: true, y: data, ..r.scroll },
            ..r
        }
    }
}

pub open spec fn after_write_address(r: Registers, data: u8) -> Registers {
    if !r.w {
        Registers { t: ((r.t & 0x80FF) | (((data as u16) & 0b111111) << 8)) & 0xBFFF, w: true, ..r }
    } else {
        let t = (r.t & 0xFF00) | (data as u16);
        Registers { t, v: t, w: false, ..r }
    }
}

pub open spec fn after_increment_x(r: Registers) -> Registers {
    if r.v & 0x001F == 31 {
        Registers { v: (r.v & !0x001Fu16) ^ 0x0400, ..r }
    } else {
        Registers { v: (r.v + 1) as u16, ..r }
    }
}

/// The coarse Y scroll after a fine-Y overflow: row 29 wraps to 0 and
/// switches the vertical nametable; row 31 wraps to 0 without switching.
pub open spec fn after_increment_y(r: Registers) -> Registers {
    if r.v & 0x7000 != 0x7000 {
        Registers { v: (r.v + 0x1000) as u16, ..r }
    } else {
        let v = r.v & !0x7000u16;
        let y = (v & 0x03E0) >> 5;
        if y == 29 {
            Registers { v: ((v ^ 0x0800) & !0x03E0u16) | (0u16 << 5), ..r }
        } else if y == 31 {
            Registers { v: (v & !0x03E0u16) | (0u16 << 5), ..r }
        } else {
            Registers { v: (v & !0x03E0u16) | (((y + 1) as u16) << 5), ..r }
        }
    }
}

impl Registers {
    pub fn new() -> (r: Registers)
        ensures
            r.v == 0 && r.t == 0 && r.x == 0 && !r.w && !r.f,
            r.ctrl.bits == 0 && r.mask.bits == 0 && r.status.bits == 0 && r.oam_addr == 0,
            r.scroll.x == 0 && r.scroll.y == 0 && r.scroll.is_x,
    {
        Registers {
            v: 0,
            t: 0,
            x: 0,
            w: false,
            f: false,
            ctrl: Ctrl { bits: 0 },
            mask: Mask { bits: 0 },
            status: Status { bits: 0 },
            oam_addr: 0,
            scroll: Scroll { x: 0, y: 0, is_x: true },
        }
    }

    pub fn fine_y(&self) -> (y: u8)
        ensures
            y == (self.v >> 12) & 0b111,
    {
        let v = self.v;
        proof {
            lemma_u16_bits(v);
        }
        ((self.v >> 12) & 0b111) as u8
    }

    pub fn write_ctrl(&mut self, data: u8)
        ensures
            *final(self) == after_write_ctrl(*old(self), data),
    {
        self.ctrl = Ctrl { bits: data };
        // t: ...GH.. ........ <- d: ......GH
        self.t = (self.t & 0xF3FF) | (((data as u16) & 0b11) << 10);
    }

    pub fn write_mask(&mut self, data: u8)
        ensures
            *final(self) == (Registers { mask: Mask { bits: data }, ..*old(self) }),
    {
        self.mask = Mask { bits: data };
    }

    pub fn show_background(&self) -> (b: bool)
        ensures
            b == has(self.mask.bits, MASK_SHOW_BACKGROUND),
    {
        self.mask.bits & MASK_SHOW_BACKGROUND == MASK_SHOW_BACKGROUND
    }

    pub fn show_sprites(&self) -> (b: bool)
        ensures
            b == has(self.mask.bits, MASK_SHOW_SPRITES),
    {
        self.mask.bits & MASK_SHOW_SPRITES == MASK_SHOW_SPRITES
    }

    pub fn rendering_enabled(&self) -> (b: bool)
        ensures
            b == (has(self.mask.bits, MASK_SHOW_BACKGROUND) || has(self.mask.bits, MASK_SHOW_SPRITES)),
    {
        self.show_background() || self.show_sprites()
    }

    pub fn show_leftmost_background(&self) -> (b: bool)
        ensures
            b == has(self.mask.bits, MASK_SHOW_BACKGROUND_LEFT),
    {
        self.mask.bits & MASK_SHOW_BACKGROUND_LEFT == MASK_SHOW_BACKGROUND_LEFT
    }

    pub fn show_leftmost_sprites(&self) -> (b: bool)
        ensures
            b == has(self.mask.bits, MASK_SHOW_SPRITES_LEFT),
    {
        self.mask.bits & MASK_SHOW_SPRITES_LEFT == MASK_SHOW_SPRITES_LEFT
    }

    /// Reads PPUSTATUS: its top three bits over the low five bits of the open
    /// bus; clears the vblank flag and the write toggle.
    pub fn read_status(&mut self, open_bus: u8) -> (res: u8)
        ensures
            res == (old(self).status.bits & 0b1110_0000) | (open_bus & 0b0001_1111),
            *final(self) == (Registers {
                status: Status { bits: old(self).status.bits & !STATUS_VBLANK_STARTED },
                w: false,
                ..*old(self)
            }),
    {
        let res = (self.status.bits & 0b1110_0000) | (open_bus & 0b0001_1111);
        self.status.remove(STATUS_VBLANK_STARTED);
        self.w = false;
        res
    }

    pub fn write_oam_address(&mut self, val: u8)
        ensures
            *final(self) == (Registers { oam_addr: val, ..*old(self) }),
    {
        self.oam_addr = val;
    }

    pub fn write_scroll(&mut self, data: u8)
        ensures
            *final(self) == after_write_scroll(*old(self), data),
    {
        if !self.w {
            // t: ....... ...ABCDE <- d: ABCDE...
            // x:              FGH <- d: .....FGH
            // w:                  <- 1
            self.t = (self.t & 0xFFE0) | ((data as u16) >> 3);
            self.x = data & 0b111;
            self.w = true;
            self.scroll.is_x = false;
            self.scroll.x = data;
        } else {
            // t: FGH..AB CDE..... <- d: ABCDEFGH
            // w:                  <- 0
            self.t = (self.t & 0x8FFF) | (((data as u16) & 0b111) << 12);
            self.t = (self.t & 0xFC1F) | (((data as u16) & 0b11111000) << 2);
            self.w = false;
            self.scroll.is_x = true;
            self.scroll.y = data;
        }
    }

    pub fn increment_x(&mut self)
        ensures
            *final(self) == after_increment_x(*old(self)),
    {
        if self.v & 0x001F == 31 {
            // if coarse X == 31
            self.v = self.v & !0x001F;  // coarse X = 0
            self.v = self.v ^ 0x0400;  // switch horizontal nametable
        } else {
            let v = self.v;
            proof {
                lemma_u16_bits(v);
            }
            self.v = self.v + 1;  // increment coarse X
        }
    }

    pub fn increment_y(&mut self)
        ensures
            *final(self) == after_increment_y(*old(self)),
    {
        // if fine Y < 7
        if self.v & 0x7000 != 0x7000 {
            let v = self.v;
            proof {
                lemma_u16_bits(v);
            }
            self.v = self.v + 0x1000;  // increment fine Y
        } else {
            self.v = self.v & !0x7000;  // fine Y = 0
            let mut y = (self.v & 0x03E0) >> 5;  // let y = coarse Y
            let v = self.v;
            proof {
                lemma_u16_bits(v);
            }
            if y == 29 {
                y = 0;  // coarse Y = 0
                self.v = self.v ^ 0x0800;  // switch vertical nametable
            } else if y == 31 {
                y = 0;  // coarse Y = 0, nametable not switched
            } else {
                y = y + 1;  // increment coarse Y
            }
            self.v = (self.v & !0x03E0) | (y << 5);  // put coarse Y back into v
        }
    }

    pub fn copy_x(&mut self)
        ensures
            *final(self) == (Registers { v: (old(self).v & 0xFBE0) | (old(self).t & 0x041F), ..*old(self) }),
    {
        // v: ....A.. ...BCDEF <- t: ....A.. ...BCDEF
        self.v = (self.v & 0xFBE0) | (self.t & 0x041F);
    }

    pub fn copy_y(&mut self)
        ensures
            *final(self) == (Registers { v: (old(self).v & 0x841F) | (old(self).t & 0x7BE0), ..*old(self) }),
    {
        // v: GHIA.BC DEF..... <- t: GHIA.BC DEF.....
        self.v = (self.v & 0x841F) | (self.t & 0x7BE0);
    }

    pub fn write_address(&mut self, data: u8)
        ensures
            *final(self) == after_write_address(*old(self), data),
    {
        if !self.w {
            // t: .CDEFGH ........ <- d: ..CDEFGH
            // t: Z...... ........ <- 0 (bit Z is cleared)
            // w:                  <- 1
            self.t = (self.t & 0x80FF) | (((data as u16) & 0b111111) << 8);
            self.t = self.t & 0xBFFF;
            self.w = true;
        } else {
            // t: ....... ABCDEFGH <- d: ABCDEFGH
            // v: <...all bits...> <- t: <...all bits...>
            // w:                  <- 0
            self.t = (self.t & 0xFF00) | (data as u16);
            self.v = self.t;
            self.w = false;
        }
    }

    /// Advances `v` by 1 or 32, as PPUCTRL selects, within the 14-bit PPU
    /// address space.
    pub fn increment_vram_addr(&mut self)
        ensures
            *final(self) == (Registers {
                v: ((old(self).v + if has(old(self).ctrl.bits, CTRL_VRAM_ADD_INCREMENT) {
                    32int
                } else {
                    1int
                }) % 0x1_0000) as u16 & 0x3fff,
                ..*old(self)
            }),
    {
        let step = self.ctrl.vram_addr_increment();
        self.v = self.v.wrapping_add(step) & 0x3fff;
    }
}

/// Two writes to PPUADDR, starting with the write toggle clear, point the
/// VRAM address at the 14-bit address they spell, high byte first (bit 15
/// of the temporary address, which no register write sets, is kept), and
/// leave the toggle clear.
pub proof fn law_address_write_pair(r: Registers, hi: u8, lo: u8)
    requires
        !r.w,
    ensures
        after_write_address(after_write_address(r, hi), lo).v == (r.t & 0x8000) | ((hi as u16
            & 0x3F) << 8) | lo as u16,
        !after_write_address(after_write_address(r, hi), lo).w,
{
    let t0 = r.t;
    assert((((((t0 & 0x80FF) | (((hi as u16) & 0b111111) << 8)) & 0xBFFF) & 0xFF00) | (lo as u16))
        == (t0 & 0x8000) | ((hi as u16 & 0x3F) << 8) | lo as u16) by (bit_vector);
}

/// Two writes to PPUSCROLL, starting with the write toggle clear, set the
/// fine X scroll to the low three bits of the first value, record both
/// values, and leave the toggle clear.
pub proof fn law_scroll_write_pair(r: Registers, sx: u8, sy: u8)
    requires
        !r.w,
    ensures
        after_write_scroll(after_write_scroll(r, sx), sy).x == sx & 0b111,
        after_write_scroll(after_write_scroll(r, sx), sy).scroll.x == sx,
        after_write_scroll(after_write_scroll(r, sx), sy).scroll.y == sy,
        !after_write_scroll(after_write_scroll(r, sx), sy).w,
{
}

/// Stepping the coarse X scroll never touches the vertical scroll bits
/// (fine Y, coarse Y and the vertical nametable select).
pub proof fn law_increment_x_wraps(r: Registers)
    ensures
        after_increment_x(r).v & 0x7BE0 == r.v & 0x7BE0,
{
    let v = r.v;
    assert((v & 0x001F == 31 ==> ((v & !0x001Fu16) ^ 0x0400) & 0x7BE0 == v & 0x7BE0) && (v & 0x001F
        != 31 ==> ((v + 1) as u16) & 0x7BE0 == v & 0x7BE0)) by (bit_vector);
}


/// The bytes the registers save: the VRAM addresses, fine X, the two
/// toggles, the three flag registers and the OAM address (the scroll
/// latch is not saved).
pub open spec fn registers_bytes(r: Registers) -> Seq<u8> {
    u16_be_bytes(r.v) + u16_be_bytes(r.t) + seq![
        r.x,
        bool_byte(r.w),
        bool_byte(r.f),
        r.ctrl.bits,
        r.mask.bits,
        r.status.bits,
        r.oam_addr,
    ]
}

impl Save for Registers {
    /// A child section "regs" holding the registers' bytes.
    open spec fn saved(&self, before: Section, after: Section) -> bool {
        child_appended(before, after, "regs"@, registers_bytes(*self))
    }

    /// Each register is read back in turn from the section "regs" as long
    /// as its bytes are there; the scroll latch is kept.
    open spec fn loaded(
        &self,
        before: Section,
        r: Result<(), SaveStateError>,
        value: Registers,
        after: Section,
    ) -> bool {
        if !contains_named(before, "regs"@) {
            missing(before, "regs"@, r, after) && value == *self
        } else {
            let s = found(before, "regs"@);
            let b = s.data.data@;
            let i = s.data.read_index as int;
            &&& value.v == if fits(s, 2) { be_u16_at(b, i) } else { self.v }
            &&& value.t == if fits(s, 4) { be_u16_at(b, i + 2) } else { self.t }
            &&& value.x == if fits(s, 5) { byte_at(s, 4) } else { self.x }
            &&& value.w == if fits(s, 6) { byte_at(s, 5) != 0 } else { self.w }
            &&& value.f == if fits(s, 7) { byte_at(s, 6) != 0 } else { self.f }
            &&& value.ctrl.bits == if fits(s, 8) { byte_at(s, 7) } else { self.ctrl.bits }
            &&& value.mask.bits == if fits(s, 9) { byte_at(s, 8) } else { self.mask.bits }
            &&& value.status.bits == if fits(s, 10) { byte_at(s, 9) } else { self.status.bits }
            &&& value.oam_addr == if fits(s, 11) { byte_at(s, 10) } else { self.oam_addr }
            &&& value.scroll == self.scroll
            &&& read_from(before, "regs"@, 11, r, after, cursor_after(s, 11))
        }
    }

    fn save(&self, parent: &mut Section) {
        proof {
            reveal_strlit("regs");
        }
        let ghost before = *parent;
        let s = parent.create_child("regs");
        s.data.write_u16(self.v);
        s.data.write_u16(self.t);
        s.data.write_u8(self.x);
        s.data.write_bool(self.w);
        s.data.write_bool(self.f);
        s.data.write_u8(self.ctrl.bits);
        s.data.write_u8(self.mask.bits);
        s.data.write_u8(self.status.bits);
        s.data.write_u8(self.oam_addr);
        assert(s.data.data@ == registers_bytes(*self));
        assert(parent.children@.drop_last() == before.children@);
    }

    fn load(&mut self, parent: &mut Section) -> (r: Result<(), SaveStateError>) {
        let s = match parent.get("regs") {
            Ok(s) => s,
            Err(e) => return Err(e),
        };
        self.v = match s.data.read_u16() {
            Ok(v) => v,
            Err(e) => return Err(e),
        };
        self.t = match s.data.read_u16() {
            Ok(v) => v,
            Err(e) => return Err(e),
        };
        self.x = match s.data.read_u8() {
            Ok(v) => v,
            Err(e) => return Err(e),
        };
        self.w = match s.data.read_bool() {
            Ok(v) => v,
            Err(e) => return Err(e),
        };
        self.f = match s.data.read_bool() {
            Ok(v) => v,
            Err(e) => return Err(e),
        };
        self.ctrl.bits = match s.data.read_u8() {
            Ok(v) => v,
            Err(e) => return Err(e),
        };
        self.mask.bits = match s.data.read_u8() {
            Ok(v) => v,
            Err(e) => return Err(e),
        };
        self.status.bits = match s.data.read_u8() {
            Ok(v) => v,
            Err(e) => return Err(e),
        };
        self.oam_addr = match s.data.read_u8() {
            Ok(v) => v,
            Err(e) => return Err(e),
        };
        Ok(())
    }
}

/// Loading the registers from what saving them appended gives them back,
/// but for the scroll latch, which keeps what it held; where no section of
/// that name came before.
pub proof fn law_registers_save_load(
    t: Registers,
    u: Registers,
    p: Section,
    q: Section,
    r: Result<(), SaveStateError>,
    v: Registers,
    q2: Section,
)
    requires
        !contains_named(p, "regs"@),
        t.saved(p, q),
        u.loaded(q, r, v, q2),
    ensures
        r is Ok,
        v == (Registers { scroll: u.scroll, ..t }),
{
    let b = registers_bytes(t);
    lemma_found_appended(p, q, "regs"@, b);
    let tail = seq![
        t.x,
        bool_byte(t.w),
        bool_byte(t.f),
        t.ctrl.bits,
        t.mask.bits,
        t.status.bits,
        t.oam_addr,
    ];
    lemma_read_back_u16(Seq::empty(), t.v, u16_be_bytes(t.t) + tail);
    lemma_read_back_u16(u16_be_bytes(t.v), t.t, tail);
    assert(b == Seq::<u8>::empty() + u16_be_bytes(t.v) + (u16_be_bytes(t.t) + tail));
    assert(b == u16_be_bytes(t.v) + u16_be_bytes(t.t) + tail);
}

} // verus!
