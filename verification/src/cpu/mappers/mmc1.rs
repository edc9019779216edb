use vstd::prelude::*;
use crate::bits::{lemma_u16_bits, lemma_u8_bits};
use crate::cpu::rom::{Cart, Mirroring};
use super::Mapper;
use crate::savestate::{
    byte_at, child_appended, contains_named, cursor_after, fits, found, lemma_found_appended, missing,
    read_from, Save, SaveStateError, Section,
};

verus! {

/// Mapper 1: PRG and CHR banks switched through a serial port that loads
/// five bits, one per write, into one of four internal registers.
#[allow(clippy::upper_case_acronyms)]
pub struct MMC1 {
    pub prg_ram: [u8; 0x2000],
    pub chr_ram: [u8; 0x2000],
    pub shift_reg: u8,
    pub control: u8,
    pub prg_mode: u8,
    pub chr_mode: u8,
    pub chr_bank0: u8,
    pub chr_bank1: u8,
    pub prg_bank: u8,
}

/// The mirroring selected by the low two bits of the control register.
pub open spec fn mmc1_mirroring(val: u8) -> Mirroring {
    if val & 0b11 == 0 {
        Mirroring::OneScreenLowerBank
    } else if val & 0b11 == 1 {
        Mirroring::OneScreenUpperBank
    } else if val & 0b11 == 2 {
        Mirroring::Vertical
    } else {
        Mirroring::Horizontal
    }
}

/// Offset into CHR ROM of a PPU address below $2000: one 8 KiB bank (mode
/// 0, low bit of bank 0 ignored) or two independent 4 KiB banks (mode 1).
pub open spec fn mmc1_chr_offset(m: MMC1, addr: u16) -> int {
    (addr % 0x1000) + if m.chr_mode == 0 {
        if addr < 0x1000 {
            (m.chr_bank0 & 0xFE) * 0x1000
        } else {
            (m.chr_bank0 | 1) * 0x1000
        }
    } else if addr < 0x1000 {
        m.chr_bank0 * 0x1000
    } else {
        m.chr_bank1 * 0x1000
    }
}

/// The 16 KiB PRG bank mapped at $8000 (`high` false) or at $C000.
pub open spec fn mmc1_prg_bank(m: MMC1, cart: Cart, high: bool) -> int {
    if !high {
        if m.prg_mode <= 1 {
            (m.prg_bank & 0xFE) as int
        } else if m.prg_mode == 2 {
            0
        } else {
            m.prg_bank as int
        }
    } else {
        if m.prg_mode <= 1 {
            (m.prg_bank | 1) as int
        } else if m.prg_mode == 2 {
            m.prg_bank as int
        } else {
            cart.prg_rom_size - 1
        }
    }
}

/// Where in the cartridge image a PRG ROM address lands.
pub open spec fn mmc1_prg_index(m: MMC1, cart: Cart, addr: u16) -> int {
    cart.prg_rom_start + mmc1_prg_bank(m, cart, addr >= 0xC000) * 0x4000 + (addr - 0x8000) % 0x4000
}

/// What a read of MMC1 gives.
pub open spec fn mmc1_read(m: MMC1, cart: Cart, addr: u16) -> u8 {
    if addr <= 0x1FFF {
        if cart.chr_rom_size == 0 {
            m.chr_ram@[addr as int]
        } else {
            cart.bytes@[cart.chr_rom_start + mmc1_chr_offset(m, addr)]
        }
    } else if 0x6000 <= addr <= 0x7FFF {
        m.prg_ram@[addr - 0x6000]
    } else {
        cart.bytes@[mmc1_prg_index(m, cart, addr)]
    }
}

/// The mapper after its control register is loaded.
pub open spec fn mmc1_control_written(m: MMC1, val: u8) -> MMC1 {
    MMC1 { control: val, prg_mode: (val >> 2) & 0b11, chr_mode: (val >> 4) & 1, ..m }
}

/// The mapper after a write to its serial port ($8000-$FFFF): bit 7
/// resets the shift register and locks the upper PRG bank; otherwise bit 0
/// is shifted in, and on the fifth write the five bits go to the register
/// the address selects.
pub open spec fn mmc1_serial_write(m: MMC1, addr: u16, val: u8) -> MMC1 {
    if val & 0x80 != 0 {
        mmc1_control_written(MMC1 { shift_reg: 0b10000, ..m }, m.control | 0x0C)
    } else {
        let done = m.shift_reg & 1 == 1;
        let sr = ((m.shift_reg >> 1) | ((val & 1) << 4)) & 0b11111;
        if !done {
            MMC1 { shift_reg: sr, ..m }
        } else if addr <= 0x9FFF {
            MMC1 { shift_reg: 0b10000, ..mmc1_control_written(m, sr) }
        } else if addr <= 0xBFFF {
            MMC1 { shift_reg: 0b10000, chr_bank0: sr & 0b11111, ..m }
        } else if addr <= 0xDFFF {
            MMC1 { shift_reg: 0b10000, chr_bank1: sr & 0b11111, ..m }
        } else {
            MMC1 { shift_reg: 0b10000, prg_bank: sr & 0b1111, ..m }
        }
    }
}

/// The value a write to the serial port loads into the control register,
/// if it loads one.
pub open spec fn mmc1_serial_control(m: MMC1, addr: u16, val: u8) -> Option<u8> {
    if val & 0x80 != 0 {
        Some(m.control | 0x0C)
    } else if m.shift_reg & 1 == 1 && addr <= 0x9FFF {
        Some(((m.shift_reg >> 1) | ((val & 1) << 4)) & 0b11111)
    } else {
        None
    }
}

/// MMC1 at power-on: shift register reset, the last PRG bank fixed at
/// $C000, its RAMs cleared.
pub open spec fn mmc1_fresh(m: MMC1) -> bool {
    &&& m.shift_reg == 0b10000
    &&& m.control == 0 && m.prg_mode == 3 && m.chr_mode == 0
    &&& m.chr_bank0 == 0 && m.chr_bank1 == 0 && m.prg_bank == 0
    &&& forall|i: int| 0 <= i < 0x2000 ==> m.prg_ram@[i] == 0 && m.chr_ram@[i] == 0
}

impl MMC1 {
    pub fn new() -> (m: MMC1)
        ensures
            m.inv(),
            mmc1_fresh(m),
    {
        MMC1 {
            prg_ram: [0; 0x2000],
            chr_ram: [0; 0x2000],
            shift_reg: 0b10000,
            control: 0,
            prg_mode: 3,  // https://forums.nesdev.org/viewtopic.php?t=6766
            chr_mode: 0,
            chr_bank0: 0,
            chr_bank1: 0,
            prg_bank: 0,
        }
    }

    fn chr_rom_offset(&self, _cart: &Cart, addr: u16) -> (o: usize)
        requires
            addr <= 0x1FFF,
        ensures
            o == mmc1_chr_offset(*self, addr),
    {
        let low = addr & 0xFFF;
        proof {
            lemma_u16_bits(addr);
        }
        if self.chr_mode == 0 {
            // switch 8 KB at a time
            let even: usize = (self.chr_bank0 & 0xFE) as usize;
            let odd: usize = (self.chr_bank0 | 1) as usize;
            (low as usize) + if addr <= 0x0FFF {
                even * 0x1000
            } else {
                odd * 0x1000
            }
        } else {
            // switch two separate 4 KB banks
            (low as usize) + if addr <= 0x0FFF {
                (self.chr_bank0 as usize) * 0x1000
            } else {
                (self.chr_bank1 as usize) * 0x1000
            }
        }
    }

    fn write_control(&mut self, cart: &mut Cart, val: u8)
        ensures
            *final(self) == mmc1_control_written(*old(self), val),
            *final(cart) == (Cart { mirroring: mmc1_mirroring(val), ..*old(cart) }),
    {
        self.control = val;
        // CPPMM
        self.prg_mode = (val >> 2) & 0b11;
        self.chr_mode = (val >> 4) & 1;
        let sel = val & 0b11;
        cart.mirroring = if sel == 0 {
            Mirroring::OneScreenLowerBank
        } else if sel == 1 {
            Mirroring::OneScreenUpperBank
        } else if sel == 2 {
            Mirroring::Vertical
        } else {
            Mirroring::Horizontal
        };
    }
}

impl Mapper for MMC1 {
    open spec fn inv(&self) -> bool {
        &&& self.prg_mode < 4
        &&& self.chr_mode < 2
        &&& self.chr_bank0 < 32
        &&& self.chr_bank1 < 32
        &&& self.prg_bank < 16
    }

    /// Reads outside the pattern tables, the work RAM and the PRG ROM are
    /// refused, and so are reads that would index past the cartridge image
    /// or a fixed last bank of an image without PRG ROM.
    open spec fn read_ok(&self, cart: &Cart, addr: u16) -> bool {
        &&& addr <= 0x1FFF || addr >= 0x6000
        &&& addr <= 0x1FFF && cart.chr_rom_size != 0 ==> cart.chr_rom_start + mmc1_chr_offset(
            *self,
            addr,
        ) < cart.bytes@.len()
        &&& addr >= 0xC000 && self.prg_mode == 3 ==> cart.prg_rom_size >= 1
        &&& addr >= 0x8000 ==> mmc1_prg_index(*self, *cart, addr) < cart.bytes@.len()
    }

    open spec fn write_ok(&self, cart: &Cart, addr: u16) -> bool {
        &&& addr <= 0x1FFF || addr >= 0x6000
        &&& addr <= 0x1FFF && cart.chr_rom_size != 0 ==> cart.chr_rom_start + mmc1_chr_offset(
            *self,
            addr,
        ) < cart.bytes@.len()
    }

    open spec fn read_value(&self, cart: &Cart, addr: u16) -> u8 {
        mmc1_read(*self, *cart, addr)
    }

    open spec fn written(
        &self,
        cart: &Cart,
        addr: u16,
        val: u8,
        after: &Self,
        cart_after: &Cart,
    ) -> bool {
        &&& addr <= 0x1FFF && cart_chr_ram(*cart) ==> *cart_after == *cart && *after == (MMC1 {
            chr_ram: after.chr_ram,
            ..*self
        }) && after.chr_ram@ == self.chr_ram@.update(addr as int, val)
        &&& addr <= 0x1FFF && !cart_chr_ram(*cart) ==> *after == *self && cart_after.bytes@
            == cart.bytes@.update(cart.chr_rom_start + mmc1_chr_offset(*self, addr), val)
            && *cart_after == (Cart { bytes: cart_after.bytes, ..*cart })
        &&& 0x6000 <= addr <= 0x7FFF ==> *cart_after == *cart && *after == (MMC1 {
            prg_ram: after.prg_ram,
            ..*self
        }) && after.prg_ram@ == self.prg_ram@.update(addr - 0x6000, val)
        &&& addr >= 0x8000 ==> *after == mmc1_serial_write(*self, addr, val)
        &&& addr >= 0x8000 ==> *cart_after == match mmc1_serial_control(*self, addr, val) {
            Some(c) => Cart { mirroring: mmc1_mirroring(c), ..*cart },
            None => *cart,
        }
    }

    open spec fn scanline_stepped(&self) -> Self {
        *self
    }

    open spec fn irq_raised(&self) -> bool {
        false
    }

    open spec fn irq_reported(&self) -> Self {
        *self
    }

    fn read(&mut self, cart: &mut Cart, addr: u16) -> (v: u8)
    {
        let _n = cart.bytes.len();
        if addr <= 0x1FFF {
            if cart.chr_rom_size == 0 {
                self.chr_ram[addr as usize]
            } else {
                let offset = self.chr_rom_offset(cart, addr);
                cart.bytes[cart.chr_rom_start + offset]
            }
        } else if addr >= 0x6000 && addr <= 0x7FFF {
            self.prg_ram[(addr - 0x6000) as usize]
        } else {
            let high = addr >= 0xC000;
            let bank: u8 = if self.prg_mode <= 1 {
                if high {
                    self.prg_bank | 1
                } else {
                    self.prg_bank & 0xFE
                }
            } else if self.prg_mode == 2 {
                if high {
                    self.prg_bank
                } else {
                    0
                }
            } else {
                if high {
                    cart.prg_rom_size - 1
                } else {
                    self.prg_bank
                }
            };
            let a = addr - 0x8000;
            let offset = a & 0x3fff;
            proof {
                lemma_u16_bits(a);
            }
            let index = cart.prg_rom_start + (bank as usize * 0x4000) + offset as usize;
            cart.bytes[index]
        }
    }

    fn write(&mut self, cart: &mut Cart, addr: u16, val: u8)
    {
        let _n = cart.bytes.len();
        if addr <= 0x1FFF {
            if cart.chr_rom_size == 0 {
                self.chr_ram[addr as usize] = val;
            } else {
                let offset = self.chr_rom_offset(cart, addr);
                let i = cart.chr_rom_start + offset;
                cart.bytes.set(i, val);
            }
        } else if addr >= 0x6000 && addr <= 0x7FFF {
            self.prg_ram[(addr - 0x6000) as usize] = val;
        } else {
            if val & 0x80 != 0 {
                // reset the shift register
                self.shift_reg = 0b10000;
                let c = self.control | 0x0C;
                self.write_control(cart, c);
                let ghost m = *self;
                assert(m.prg_mode < 4 && m.chr_mode < 2) by {
                    let c2 = c;
                    lemma_u8_bits(c2 >> 2);
                    lemma_u8_bits(c2 >> 4);
                }
            } else {
                let done = self.shift_reg & 1 == 1;
                let sr = self.shift_reg;
                self.shift_reg = ((self.shift_reg >> 1) | ((val & 1) << 4)) & 0b11111;
                let s = self.shift_reg;
                proof {
                    lemma_u8_bits(s);
                    lemma_u8_bits(s >> 2);
                    lemma_u8_bits(s >> 4);
                }
                if done {
                    if addr <= 0x9FFF {
                        self.write_control(cart, s);
                    } else if addr <= 0xBFFF {
                        self.chr_bank0 = s & 0b11111;
                    } else if addr <= 0xDFFF {
                        self.chr_bank1 = s & 0b11111;
                    } else {
                        self.prg_bank = s & 0b1111;
                    }
                    self.shift_reg = 0b10000;
                }
            }
        }
    }

    fn step_scanline(&mut self) {
    }

    fn is_asserting_irq(&mut self) -> (b: bool) {
        false
    }
}

/// The cartridge carries CHR RAM (no CHR ROM banks).
pub open spec fn cart_chr_ram(cart: Cart) -> bool {
    cart.chr_rom_size == 0
}

/// Five writes to the serial port, after a reset and with bit 7 clear,
/// load their bits 0 (first write lowest) into the register the last
/// write's address selects; here, the PRG bank register.
pub proof fn law_mmc1_serial_load(m: MMC1, v0: u8, v1: u8, v2: u8, v3: u8, v4: u8, addr: u16)
    requires
        m.shift_reg == 0b10000,
        v0 & 0x80 == 0 && v1 & 0x80 == 0 && v2 & 0x80 == 0 && v3 & 0x80 == 0 && v4 & 0x80 == 0,
        0xE000 <= addr,
    ensures
        ({
            let m1 = mmc1_serial_write(m, 0x8000, v0);
            let m2 = mmc1_serial_write(m1, 0x8000, v1);
            let m3 = mmc1_serial_write(m2, 0x8000, v2);
            let m4 = mmc1_serial_write(m3, 0x8000, v3);
            let m5 = mmc1_serial_write(m4, addr, v4);
            &&& m5.prg_bank == ((v0 & 1) | (v1 & 1) << 1 | (v2 & 1) << 2 | (v3 & 1) << 3) as u8
            &&& m5.shift_reg == 0b10000
        }),
{
    let s0 = m.shift_reg;
    let s1 = ((s0 >> 1) | ((v0 & 1) << 4)) & 0b11111;
    let s2 = ((s1 >> 1) | ((v1 & 1) << 4)) & 0b11111;
    let s3 = ((s2 >> 1) | ((v2 & 1) << 4)) & 0b11111;
    let s4 = ((s3 >> 1) | ((v3 & 1) << 4)) & 0b11111;
    let s5 = ((s4 >> 1) | ((v4 & 1) << 4)) & 0b11111;
    assert(s0 & 1 != 1 && s1 & 1 != 1 && s2 & 1 != 1 && s3 & 1 != 1 && s4 & 1 == 1 && s5 & 0b1111
        == ((v0 & 1) | (v1 & 1) << 1 | (v2 & 1) << 2 | (v3 & 1) << 3)) by (bit_vector)
        requires
            s0 == 0b10000,
            s1 == ((s0 >> 1) | ((v0 & 1) << 4)) & 0b11111,
            s2 == ((s1 >> 1) | ((v1 & 1) << 4)) & 0b11111,
            s3 == ((s2 >> 1) | ((v2 & 1) << 4)) & 0b11111,
            s4 == ((s3 >> 1) | ((v3 & 1) << 4)) & 0b11111,
            s5 == ((s4 >> 1) | ((v4 & 1) << 4)) & 0b11111,
    ;
}


/// The bytes an MMC1 saves: its two RAMs, then its registers.
pub open spec fn mmc1_bytes(m: MMC1) -> Seq<u8> {
    m.prg_ram@ + m.chr_ram@ + seq![
        m.shift_reg,
        m.control,
        m.prg_mode,
        m.chr_mode,
        m.chr_bank0,
        m.chr_bank1,
        m.prg_bank,
    ]
}

/// Where loading an MMC1 leaves the cursor of section `s`: a RAM that does
/// not fit is not read, a register that does not fit ends the data.
pub open spec fn mmc1_cursor(s: Section) -> usize {
    if !fits(s, 0x2000) {
        s.data.read_index
    } else if !fits(s, 0x4000) {
        (s.data.read_index + 0x2000) as usize
    } else {
        cursor_after(s, 0x4007)
    }
}

impl Save for MMC1 {
    /// A child section "MMC1" holding the mapper's bytes.
    open spec fn saved(&self, before: Section, after: Section) -> bool {
        child_appended(before, after, "MMC1"@, mmc1_bytes(*self))
    }

    /// Each field is read back in turn from the section "MMC1" as long as
    /// its bytes are there.
    open spec fn loaded(
        &self,
        before: Section,
        r: Result<(), SaveStateError>,
        value: MMC1,
        after: Section,
    ) -> bool {
        if !contains_named(before, "MMC1"@) {
            missing(before, "MMC1"@, r, after) && value == *self
        } else {
            let s = found(before, "MMC1"@);
            let b = s.data.data@;
            let i = s.data.read_index as int;
            &&& value.prg_ram@ == if fits(s, 0x2000) { b.subrange(i, i + 0x2000) } else { self.prg_ram@ }
            &&& value.chr_ram@ == if fits(s, 0x4000) {
                b.subrange(i + 0x2000, i + 0x4000)
            } else {
                self.chr_ram@
            }
            &&& value.shift_reg == if fits(s, 0x4001) { byte_at(s, 0x4000) } else { self.shift_reg }
            &&& value.control == if fits(s, 0x4002) { byte_at(s, 0x4001) } else { self.control }
            &&& value.prg_mode == if fits(s, 0x4003) { byte_at(s, 0x4002) } else { self.prg_mode }
            &&& value.chr_mode == if fits(s, 0x4004) { byte_at(s, 0x4003) } else { self.chr_mode }
            &&& value.chr_bank0 == if fits(s, 0x4005) { byte_at(s, 0x4004) } else { self.chr_bank0 }
            &&& value.chr_bank1 == if fits(s, 0x4006) { byte_at(s, 0x4005) } else { self.chr_bank1 }
            &&& value.prg_bank == if fits(s, 0x4007) { byte_at(s, 0x4006) } else { self.prg_bank }
            &&& read_from(before, "MMC1"@, 0x4007, r, after, mmc1_cursor(s))
        }
    }

    fn save(&self, parent: &mut Section) {
        proof {
            reveal_strlit("MMC1");
        }
        let ghost before = *parent;
        let s = parent.create_child("MMC1");
        s.data.write_slice(&self.prg_ram);
        s.data.write_slice(&self.chr_ram);
        s.data.write_u8(self.shift_reg);
        s.data.write_u8(self.control);
        s.data.write_u8(self.prg_mode);
        s.data.write_u8(self.chr_mode);
        s.data.write_u8(self.chr_bank0);
        s.data.write_u8(self.chr_bank1);
        s.data.write_u8(self.prg_bank);
        assert(s.data.data@ == mmc1_bytes(*self));
        assert(parent.children@.drop_last() == before.children@);
    }

    fn load(&mut self, parent: &mut Section) -> (r: Result<(), SaveStateError>) {
        let s = match parent.get("MMC1") {
            Ok(s) => s,
            Err(e) => return Err(e),
        };
        match s.data.read_slice(&mut self.prg_ram) {
            Ok(()) => {},
            Err(e) => return Err(e),
        }
        match s.data.read_slice(&mut self.chr_ram) {
            Ok(()) => {},
            Err(e) => return Err(e),
        }
        self.shift_reg = match s.data.read_u8() {
            Ok(v) => v,
            Err(e) => return Err(e),
        };
        self.control = match s.data.read_u8() {
            Ok(v) => v,
            Err(e) => return Err(e),
        };
        self.prg_mode = match s.data.read_u8() {
            Ok(v) => v,
            Err(e) => return Err(e),
        };
        self.chr_mode = match s.data.read_u8() {
            Ok(v) => v,
            Err(e) => return Err(e),
        };
        self.chr_bank0 = match s.data.read_u8() {
            Ok(v) => v,
            Err(e) => return Err(e),
        };
        self.chr_bank1 = match s.data.read_u8() {
            Ok(v) => v,
            Err(e) => return Err(e),
        };
        self.prg_bank = match s.data.read_u8() {
            Ok(v) => v,
            Err(e) => return Err(e),
        };
        Ok(())
    }
}

/// Loading an MMC1 from what saving one appended gives it back, where no
/// section of that name came before.
pub proof fn law_mmc1_save_load(
    t: MMC1,
    u: MMC1,
    p: Section,
    q: Section,
    r: Result<(), SaveStateError>,
    v: MMC1,
    q2: Section,
)
    requires
        !contains_named(p, "MMC1"@),
        t.saved(p, q),
        u.loaded(q, r, v, q2),
    ensures
        r is Ok,
        v == t,
{
    let b = mmc1_bytes(t);
    lemma_found_appended(p, q, "MMC1"@, b);
    assert(b.subrange(0, 0x2000) == t.prg_ram@);
    assert(b.subrange(0x2000, 0x4000) == t.chr_ram@);
    assert(v.prg_ram =~= t.prg_ram);
    assert(v.chr_ram =~= t.chr_ram);
}


proof fn lemma_bank_pair(b: u8)
    by (bit_vector)
    ensures
        b & 0xFE == 2 * (b / 2),
        b | 1 == 2 * (b / 2) + 1,
{
}

/// MMC1's PRG banking, for reads of $8000-$FFFF: in modes 0 and 1 one
/// 32 KiB bank (the bank number's low bit ignored) covers the whole range;
/// in mode 2 the first 16 KiB bank is fixed at $8000 and the selected one
/// is at $C000; in mode 3 the selected bank is at $8000 and the last bank
/// is fixed at $C000. A read gives the cartridge byte there.
pub proof fn law_mmc1_prg_banking(m: MMC1, cart: Cart, addr: u16)
    requires
        0x8000 <= addr,
        m.prg_mode <= 3,
    ensures
        m.prg_mode <= 1 ==> mmc1_prg_index(m, cart, addr) == cart.prg_rom_start + (m.prg_bank / 2)
            * 0x8000 + (addr - 0x8000),
        m.prg_mode == 2 && addr < 0xC000 ==> mmc1_prg_index(m, cart, addr) == cart.prg_rom_start
            + (addr - 0x8000),
        m.prg_mode == 2 && addr >= 0xC000 ==> mmc1_prg_index(m, cart, addr) == cart.prg_rom_start
            + m.prg_bank * 0x4000 + (addr - 0xC000),
        m.prg_mode == 3 && addr < 0xC000 ==> mmc1_prg_index(m, cart, addr) == cart.prg_rom_start
            + m.prg_bank * 0x4000 + (addr - 0x8000),
        m.prg_mode == 3 && addr >= 0xC000 ==> mmc1_prg_index(m, cart, addr) == cart.prg_rom_start
            + (cart.prg_rom_size - 1) * 0x4000 + (addr - 0xC000),
        mmc1_read(m, cart, addr) == cart.bytes@[mmc1_prg_index(m, cart, addr)],
{
    lemma_bank_pair(m.prg_bank);
}


/// MMC1's CHR banking, for PPU reads below $2000: in mode 0 one 8 KiB
/// bank (the bank number's low bit ignored) covers the whole range; in
/// mode 1 two independent 4 KiB banks sit at $0000 and $1000.
pub proof fn law_mmc1_chr_banking(m: MMC1, addr: u16)
    requires
        addr <= 0x1FFF,
    ensures
        m.chr_mode == 0 ==> mmc1_chr_offset(m, addr) == (m.chr_bank0 / 2) * 0x2000 + addr,
        m.chr_mode != 0 && addr < 0x1000 ==> mmc1_chr_offset(m, addr) == m.chr_bank0 * 0x1000 + addr,
        m.chr_mode != 0 && addr >= 0x1000 ==> mmc1_chr_offset(m, addr) == m.chr_bank1 * 0x1000 + (addr
            - 0x1000),
{
    lemma_bank_pair(m.chr_bank0);
}


proof fn lemma_control_bits(c: u8)
    by (bit_vector)
    ensures
        (c >> 2u8) & 0b11u8 == (c / 4) % 4,
        (c >> 4u8) & 1u8 == (c / 16) % 2,
        ((c | 0x0Cu8) >> 2u8) & 0b11u8 == 3,
{
}

/// The control register: bits 2-3 pick the PRG mode and bit 4 the CHR
/// mode. A write with bit 7 set resets the shift register and selects PRG
/// mode 3, so that afterwards reads of $C000-$FFFF land in the last PRG
/// bank whatever the bank register holds.
pub proof fn law_mmc1_control(m: MMC1, cart: Cart, c: u8, addr: u16, val: u8, at: u16)
    ensures
        mmc1_control_written(m, c).prg_mode == (c / 4) % 4,
        mmc1_control_written(m, c).chr_mode == (c / 16) % 2,
        val & 0x80 != 0 && 0xC000 <= at ==> mmc1_serial_write(m, addr, val).shift_reg == 0b10000
            && mmc1_prg_index(mmc1_serial_write(m, addr, val), cart, at) == cart.prg_rom_start + (
        cart.prg_rom_size - 1) * 0x4000 + (at - 0xC000),
{
    lemma_control_bits(c);
    lemma_control_bits(m.control);
}

} // verus!
