use vstd::prelude::*;
use crate::bits::{lemma_u16_bits, lemma_u8_bits};
use crate::cpu::rom::{Cart, Mirroring};
use super::Mapper;
use crate::savestate::{
    be_u32_at, bool_byte, byte_at, child_appended, contains_named, cursor_after, fits, found,
    lemma_found_appended, lemma_read_back_u32s, missing, read_from, u32s_be_bytes, Save,
    SaveStateError, Section,
};

verus! {

/// Mapper 4: eight bank registers selected through $8000/$8001, 1 KiB and
/// 2 KiB CHR banks, 8 KiB PRG banks, and a scanline counter that raises an
/// interrupt.
#[allow(clippy::upper_case_acronyms)]
pub struct MMC3 {
    pub registers: [u8; 8],
    pub reg: u8,
    pub prg_mode: u8,
    pub chr_mode: u8,
    pub prg_ram: [u8; 0x2000],
    pub prg_offsets: [u32; 4],
    pub chr_offsets: [u32; 8],
    pub irq_enabled: bool,
    pub irq_reload: u8,
    pub irq_counter: u8,
    pub irq_asserted: bool,
}

/// The eight 1 KiB CHR windows' offsets into CHR ROM: registers 0 and 1
/// select 2 KiB banks (low bit ignored), registers 2 to 5 select 1 KiB
/// banks, and `chr_mode` swaps the two halves of the pattern tables.
pub open spec fn mmc3_chr_offsets(r: Seq<u8>, chr_mode: u8) -> Seq<u32> {
    let lo0 = ((r[0] & 0xFE) * 0x400) as u32;
    let hi0 = ((r[0] | 1) * 0x400) as u32;
    let lo1 = ((r[1] & 0xFE) * 0x400) as u32;
    let hi1 = ((r[1] | 1) * 0x400) as u32;
    let b2 = (r[2] * 0x400) as u32;
    let b3 = (r[3] * 0x400) as u32;
    let b4 = (r[4] * 0x400) as u32;
    let b5 = (r[5] * 0x400) as u32;
    if chr_mode == 0 {
        seq![lo0, hi0, lo1, hi1, b2, b3, b4, b5]
    } else {
        seq![b2, b3, b4, b5, lo0, hi0, lo1, hi1]
    }
}

/// The four 8 KiB PRG windows' offsets into PRG ROM: register 6 selects the
/// bank at $8000 (or at $C000 when `prg_mode` is set, the second-to-last
/// bank taking the other place), register 7 the bank at $A000, and the last
/// bank sits at $E000.
pub open spec fn mmc3_prg_offsets(r: Seq<u8>, prg_mode: u8, prg_pages: int) -> Seq<u32> {
    let switched = (r[6] * 0x2000) as u32;
    let second_last = ((prg_pages - 2) * 0x2000) as u32;
    seq![
        if prg_mode == 0 { switched } else { second_last },
        (r[7] * 0x2000) as u32,
        if prg_mode == 0 { second_last } else { switched },
        ((prg_pages - 1) * 0x2000) as u32,
    ]
}

/// Where in the cartridge image a PPU address below $2000 lands.
pub open spec fn mmc3_chr_index(m: MMC3, cart: Cart, addr: u16) -> int {
    cart.chr_rom_start + m.chr_offsets@[(addr / 0x400) as int] + addr % 0x400
}

/// Where in the cartridge image a CPU address at or above $8000 lands.
pub open spec fn mmc3_prg_index(m: MMC3, cart: Cart, addr: u16) -> int {
    cart.prg_rom_start + m.prg_offsets@[(addr - 0x8000) / 0x2000] + addr % 0x2000
}

/// What a read of MMC3 gives.
pub open spec fn mmc3_read(m: MMC3, cart: Cart, addr: u16) -> u8 {
    if addr <= 0x1FFF {
        cart.bytes@[mmc3_chr_index(m, cart, addr)]
    } else if 0x6000 <= addr <= 0x7FFF {
        m.prg_ram@[addr - 0x6000]
    } else {
        cart.bytes@[mmc3_prg_index(m, cart, addr)]
    }
}

/// The mapper after a write that changes none of its bank arrays: bank
/// select ($8000, even), IRQ latch ($C000, even), IRQ reload ($C001, odd),
/// IRQ disable ($E000, even) and enable ($E001, odd).
pub open spec fn mmc3_control_written(m: MMC3, addr: u16, val: u8) -> MMC3 {
    if 0x8000 <= addr <= 0x9FFF && addr % 2 == 0 {
        MMC3 { reg: val & 0b111, prg_mode: (val >> 6) & 1, chr_mode: (val >> 7) & 1, ..m }
    } else if 0xC000 <= addr <= 0xDFFF {
        if addr % 2 == 0 {
            MMC3 { irq_reload: val, ..m }
        } else {
            MMC3 { irq_counter: 0, ..m }
        }
    } else if addr >= 0xE000 {
        MMC3 {
            irq_enabled: addr % 2 == 1,
            irq_asserted: if addr % 2 == 1 { m.irq_asserted } else { false },
            ..m
        }
    } else {
        m
    }
}

/// The value a bank data write ($8001, odd) stores in the selected
/// register: PRG bank numbers wrap at the number of 8 KiB PRG pages.
pub open spec fn mmc3_bank_value(reg: u8, val: u8, prg_pages: int) -> u8 {
    if reg <= 5 {
        val
    } else {
        (val as int % prg_pages) as u8
    }
}

/// The mirroring a write to $A000 (even) selects.
pub open spec fn mmc3_mirroring(val: u8) -> Mirroring {
    if val % 2 == 0 {
        Mirroring::Vertical
    } else {
        Mirroring::Horizontal
    }
}

/// The mapper after the PPU finishes a scanline: the counter reloads when
/// it is zero and counts down otherwise, and reaching zero while enabled
/// raises the interrupt.
pub open spec fn mmc3_scanline_stepped(m: MMC3) -> MMC3 {
    let counter = if m.irq_counter == 0 { m.irq_reload } else { (m.irq_counter - 1) as u8 };
    MMC3 {
        irq_counter: counter,
        irq_asserted: if counter == 0 && m.irq_enabled { true } else { m.irq_asserted },
        ..m
    }
}

/// The mapper after `n` scanlines.
pub open spec fn mmc3_scanlines(m: MMC3, n: nat) -> MMC3
    decreases n,
{
    if n == 0 {
        m
    } else {
        mmc3_scanline_stepped(mmc3_scanlines(m, (n - 1) as nat))
    }
}

/// MMC3 at power-on for a cartridge of `prg_rom_size` 16 KiB PRG banks:
/// registers cleared, the first two 8 KiB PRG pages at $8000 and $A000 and
/// the last two at $C000 and $E000, the interrupt off.
pub open spec fn mmc3_fresh(m: MMC3, prg_rom_size: u8) -> bool {
    &&& m.registers@ == seq![0u8, 0, 0, 0, 0, 0, 0, 0]
    &&& m.reg == 0 && m.prg_mode == 0 && m.chr_mode == 0
    &&& forall|i: int| 0 <= i < 0x2000 ==> m.prg_ram@[i] == 0
    &&& m.prg_offsets@ == seq![
        0u32,
        0x2000,
        ((prg_rom_size * 2 - 2) * 0x2000) as u32,
        ((prg_rom_size * 2 - 1) * 0x2000) as u32,
    ]
    &&& m.chr_offsets@ == seq![0u32, 0, 0, 0, 0, 0, 0, 0]
    &&& !m.irq_enabled && m.irq_reload == 0 && m.irq_counter == 0 && !m.irq_asserted
}

impl MMC3 {
    /// The mapper at power-on: the last two PRG banks at $C000 and $E000.
    pub fn new(cart: &Cart) -> (m: MMC3)
        requires
            cart.prg_rom_size >= 1,
        ensures
            m.inv(),
            mmc3_fresh(m, cart.prg_rom_size),
    {
        let m = MMC3 {
            registers: [0; 8],
            reg: 0,
            prg_mode: 0,
            chr_mode: 0,
            prg_ram: [0; 0x2000],
            prg_offsets: [
                0,
                0x2000,
                (cart.prg_rom_size as u32 * 2 - 2) * 0x2000,
                (cart.prg_rom_size as u32 * 2 - 1) * 0x2000,
            ],
            chr_offsets: [0; 8],
            irq_enabled: false,
            irq_reload: 0,
            irq_counter: 0,
            irq_asserted: false,
        };
        assert(m.registers@ =~= seq![0u8, 0, 0, 0, 0, 0, 0, 0]);
        assert(m.chr_offsets@ =~= seq![0u32, 0, 0, 0, 0, 0, 0, 0]);
        m
    }

    /// Stores a bank number in the selected register and recomputes the
    /// CHR and PRG windows.
    fn write_bank_data(&mut self, prg_rom_size: u8, val: u8)
        requires
            old(self).inv(),
            1 <= prg_rom_size <= 127,
        ensures
            final(self).registers@ == old(self).registers@.update(
                old(self).reg as int,
                mmc3_bank_value(old(self).reg, val, prg_rom_size * 2),
            ),
            final(self).chr_offsets@ == mmc3_chr_offsets(
                final(self).registers@,
                old(self).chr_mode,
            ),
            final(self).prg_offsets@ == mmc3_prg_offsets(
                final(self).registers@,
                old(self).prg_mode,
                prg_rom_size * 2,
            ),
            *final(self) == (MMC3 {
                registers: final(self).registers,
                chr_offsets: final(self).chr_offsets,
                prg_offsets: final(self).prg_offsets,
                ..*old(self)
            }),
    {
        let prg_pages = prg_rom_size * 2;
        let v = if self.reg <= 5 {
            val
        } else {
            val % prg_pages
        };
        self.registers[self.reg as usize] = v;
        let r = self.registers;

        if self.chr_mode == 0 {
            self.chr_offsets[0] = (r[0] & 0xFE) as u32 * 0x400;
            self.chr_offsets[1] = (r[0] | 1) as u32 * 0x400;
            self.chr_offsets[2] = (r[1] & 0xFE) as u32 * 0x400;
            self.chr_offsets[3] = (r[1] | 1) as u32 * 0x400;
            self.chr_offsets[4] = (r[2]) as u32 * 0x400;
            self.chr_offsets[5] = (r[3]) as u32 * 0x400;
            self.chr_offsets[6] = (r[4]) as u32 * 0x400;
            self.chr_offsets[7] = (r[5]) as u32 * 0x400;
        } else {
            self.chr_offsets[0] = (r[2]) as u32 * 0x400;
            self.chr_offsets[1] = (r[3]) as u32 * 0x400;
            self.chr_offsets[2] = (r[4]) as u32 * 0x400;
            self.chr_offsets[3] = (r[5]) as u32 * 0x400;
            self.chr_offsets[4] = (r[0] & 0xFE) as u32 * 0x400;
            self.chr_offsets[5] = (r[0] | 1) as u32 * 0x400;
            self.chr_offsets[6] = (r[1] & 0xFE) as u32 * 0x400;
            self.chr_offsets[7] = (r[1] | 1) as u32 * 0x400;
        }

        if self.prg_mode == 0 {
            self.prg_offsets[0] = r[6] as u32 * 0x2000;
            self.prg_offsets[2] = (prg_pages - 2) as u32 * 0x2000;
        } else {
            self.prg_offsets[0] = (prg_pages - 2) as u32 * 0x2000;
            self.prg_offsets[2] = r[6] as u32 * 0x2000;
        }

        self.prg_offsets[1] = r[7] as u32 * 0x2000;
        self.prg_offsets[3] = (prg_pages - 1) as u32 * 0x2000;
        assert(self.chr_offsets@ =~= mmc3_chr_offsets(r@, self.chr_mode));
        assert(self.prg_offsets@ =~= mmc3_prg_offsets(r@, self.prg_mode, prg_pages as int));
    }
}

impl Mapper for MMC3 {
    open spec fn inv(&self) -> bool {
        &&& self.reg < 8
        &&& self.prg_mode < 2
        &&& self.chr_mode < 2
    }

    /// Reads between the pattern tables and the work RAM are refused, and
    /// so are reads that would index past the cartridge image.
    open spec fn read_ok(&self, cart: &Cart, addr: u16) -> bool {
        &&& addr <= 0x1FFF || addr >= 0x6000
        &&& addr <= 0x1FFF ==> mmc3_chr_index(*self, *cart, addr) < cart.bytes@.len()
        &&& addr >= 0x8000 ==> mmc3_prg_index(*self, *cart, addr) < cart.bytes@.len()
    }

    /// A bank data write needs between 1 and 127 PRG ROM banks: the number
    /// of 8 KiB pages must fit in a byte and leave two fixed banks.
    open spec fn write_ok(&self, cart: &Cart, addr: u16) -> bool {
        0x8000 <= addr <= 0x9FFF && addr % 2 == 1 ==> 1 <= cart.prg_rom_size <= 127
    }

    open spec fn read_value(&self, cart: &Cart, addr: u16) -> u8 {
        mmc3_read(*self, *cart, addr)
    }

    open spec fn written(
        &self,
        cart: &Cart,
        addr: u16,
        val: u8,
        after: &Self,
        cart_after: &Cart,
    ) -> bool {
        &&& 0x6000 <= addr <= 0x7FFF ==> *cart_after == *cart && *after == (MMC3 {
            prg_ram: after.prg_ram,
            ..*self
        }) && after.prg_ram@ == self.prg_ram@.update(addr - 0x6000, val)
        &&& 0x8000 <= addr <= 0x9FFF && addr % 2 == 1 ==> *cart_after == *cart
            && after.registers@ == self.registers@.update(
            self.reg as int,
            mmc3_bank_value(self.reg, val, cart.prg_rom_size * 2),
        ) && after.chr_offsets@ == mmc3_chr_offsets(after.registers@, self.chr_mode)
            && after.prg_offsets@ == mmc3_prg_offsets(
            after.registers@,
            self.prg_mode,
            cart.prg_rom_size * 2,
        ) && *after == (MMC3 {
            registers: after.registers,
            chr_offsets: after.chr_offsets,
            prg_offsets: after.prg_offsets,
            ..*self
        })
        &&& 0xA000 <= addr <= 0xBFFF ==> *after == *self && *cart_after == (if addr % 2 == 0 {
            Cart { mirroring: mmc3_mirroring(val), ..*cart }
        } else {
            *cart
        })
        &&& !(0x6000 <= addr <= 0x7FFF) && !(0x8000 <= addr <= 0x9FFF && addr % 2 == 1) && !(
        0xA000 <= addr <= 0xBFFF) ==> *cart_after == *cart && *after == mmc3_control_written(
            *self,
            addr,
            val,
        )
    }

    open spec fn scanline_stepped(&self) -> Self {
        mmc3_scanline_stepped(*self)
    }

    open spec fn irq_raised(&self) -> bool {
        self.irq_asserted
    }

    open spec fn irq_reported(&self) -> Self {
        MMC3 { irq_asserted: false, ..*self }
    }

    fn read(&mut self, cart: &mut Cart, addr: u16) -> (v: u8)
    {
        let _n = cart.bytes.len();
        if addr <= 0x1FFF {
            let idx = (addr / 0x0400) as usize;
            let low = addr & 0x3FF;
            proof {
                lemma_u16_bits(addr);
            }
            let offset = self.chr_offsets[idx] as usize + low as usize;
            cart.bytes[cart.chr_rom_start + offset]
        } else if addr <= 0x7FFF {
            self.prg_ram[(addr - 0x6000) as usize]
        } else {
            let idx = ((addr - 0x8000) / 0x2000) as usize;
            let low = addr & 0x1FFF;
            proof {
                lemma_u16_bits(addr);
            }
            let offset = self.prg_offsets[idx] as usize + low as usize;
            cart.bytes[cart.prg_rom_start + offset]
        }
    }

    fn write(&mut self, cart: &mut Cart, addr: u16, val: u8)
    {
        let odd = addr & 1 == 1;
        proof {
            lemma_u16_bits(addr);
        }
        if addr >= 0x6000 && addr <= 0x7FFF {
            self.prg_ram[(addr - 0x6000) as usize] = val;
        } else if addr >= 0x8000 && addr <= 0x9FFF {
            if !odd {
                self.reg = val & 0b111;
                self.prg_mode = (val >> 6) & 1;
                self.chr_mode = (val >> 7) & 1;
                proof {
                    lemma_u8_bits(val);
                    lemma_u8_bits(val >> 6);
                    lemma_u8_bits(val >> 7);
                }
            } else {
                self.write_bank_data(cart.prg_rom_size, val);
            }
        } else if addr >= 0xA000 && addr <= 0xBFFF {
            if !odd {
                let even_val = val & 1 == 0;
                proof {
                    lemma_u8_bits(val);
                }
                cart.mirroring = if even_val {
                    Mirroring::Vertical
                } else {
                    Mirroring::Horizontal
                };
            }
        } else if addr >= 0xC000 && addr <= 0xDFFF {
            if !odd {
                self.irq_reload = val;
            } else {
                self.irq_counter = 0;
            }
        } else if addr >= 0xE000 {
            self.irq_enabled = odd;

            if !self.irq_enabled {
                self.irq_asserted = false;
            }
        }
    }

    fn is_asserting_irq(&mut self) -> (b: bool) {
        let result = self.irq_asserted;
        self.irq_asserted = false;

        result
    }

    fn step_scanline(&mut self) {
        if self.irq_counter == 0 {
            self.irq_counter = self.irq_reload;
        } else {
            self.irq_counter -= 1;
        }

        if self.irq_counter == 0 && self.irq_enabled {
            self.irq_asserted = true;
        }
    }
}

/// A byte written to the work RAM at $6000-$7FFF is what a later read of
/// that address gives.
pub proof fn law_mmc3_prg_ram_roundtrip(m: MMC3, cart: Cart, addr: u16, val: u8, m2: MMC3)
    requires
        0x6000 <= addr <= 0x7FFF,
        m2 == (MMC3 { prg_ram: m2.prg_ram, ..m }),
        m2.prg_ram@ == m.prg_ram@.update(addr - 0x6000, val),
    ensures
        mmc3_read(m2, cart, addr) == val,
{
}

/// Once the counter has been cleared, with the interrupt enabled and a
/// reload value `n` above zero, the interrupt is raised exactly at the
/// scanline after the reload, `n + 1` scanlines on, and not before.
pub proof fn law_mmc3_irq_countdown(m: MMC3, k: nat)
    requires
        m.irq_counter == 0,
        m.irq_reload > 0,
        m.irq_enabled,
        !m.irq_asserted,
        k <= m.irq_reload + 1,
    ensures
        k >= 1 ==> mmc3_scanlines(m, k).irq_counter == m.irq_reload - (k - 1),
        mmc3_scanlines(m, k).irq_asserted == (k == m.irq_reload + 1),
        mmc3_scanlines(m, k).irq_enabled && mmc3_scanlines(m, k).irq_reload == m.irq_reload,
    decreases k,
{
    if k > 0 {
        law_mmc3_irq_countdown(m, (k - 1) as nat);
    }
}

/// A write to $E000 (even) disables the interrupt and acknowledges a
/// pending one; no scanline raises it again until it is re-enabled.
pub proof fn law_mmc3_irq_disable(m: MMC3, addr: u16, val: u8, k: nat)
    requires
        0xE000 <= addr,
        addr % 2 == 0,
    ensures
        !mmc3_control_written(m, addr, val).irq_enabled,
        !mmc3_scanlines(mmc3_control_written(m, addr, val), k).irq_asserted,
        !mmc3_scanlines(mmc3_control_written(m, addr, val), k).irq_enabled,
    decreases k,
{
    if k > 0 {
        law_mmc3_irq_disable(m, addr, val, (k - 1) as nat);
    }
}


/// The bytes an MMC3 saves: the bank registers, the selection and modes,
/// the work RAM, the bank offsets (big-endian) and the interrupt state.
pub open spec fn mmc3_bytes(m: MMC3) -> Seq<u8> {
    m.registers@ + seq![m.reg, m.prg_mode, m.chr_mode] + m.prg_ram@ + u32s_be_bytes(m.prg_offsets@)
        + u32s_be_bytes(m.chr_offsets@) + seq![
        bool_byte(m.irq_enabled),
        m.irq_reload,
        m.irq_counter,
        bool_byte(m.irq_asserted),
    ]
}

/// Where loading an MMC3 leaves the cursor of section `s`: an array that
/// does not fit is not read, a register that does not fit ends the data.
pub open spec fn mmc3_cursor(s: Section) -> usize {
    let i = s.data.read_index;
    if !fits(s, 8) {
        i
    } else if !fits(s, 11) {
        cursor_after(s, 11)
    } else if !fits(s, 0x200B) {
        (i + 11) as usize
    } else if !fits(s, 0x201B) {
        (i + 0x200B) as usize
    } else if !fits(s, 0x203B) {
        (i + 0x201B) as usize
    } else {
        cursor_after(s, 0x203F)
    }
}

impl Save for MMC3 {
    /// A child section "MMC3" holding the mapper's bytes.
    open spec fn saved(&self, before: Section, after: Section) -> bool {
        child_appended(before, after, "MMC3"@, mmc3_bytes(*self))
    }

    /// Each field is read back in turn from the section "MMC3" as long as
    /// its bytes are there.
    open spec fn loaded(
        &self,
        before: Section,
        r: Result<(), SaveStateError>,
        value: MMC3,
        after: Section,
    ) -> bool {
        if !contains_named(before, "MMC3"@) {
            missing(before, "MMC3"@, r, after) && value == *self
        } else {
            let s = found(before, "MMC3"@);
            let b = s.data.data@;
            let i = s.data.read_index as int;
            &&& value.registers@ == if fits(s, 8) { b.subrange(i, i + 8) } else { self.registers@ }
            &&& value.reg == if fits(s, 9) { byte_at(s, 8) } else { self.reg }
            &&& value.prg_mode == if fits(s, 10) { byte_at(s, 9) } else { self.prg_mode }
            &&& value.chr_mode == if fits(s, 11) { byte_at(s, 10) } else { self.chr_mode }
            &&& value.prg_ram@ == if fits(s, 0x200B) {
                b.subrange(i + 11, i + 0x200B)
            } else {
                self.prg_ram@
            }
            &&& value.prg_offsets@ == if fits(s, 0x201B) {
                Seq::new(4, |k: int| be_u32_at(b, i + 0x200B + 4 * k))
            } else {
                self.prg_offsets@
            }
            &&& value.chr_offsets@ == if fits(s, 0x203B) {
                Seq::new(8, |k: int| be_u32_at(b, i + 0x201B + 4 * k))
            } else {
                self.chr_offsets@
            }
            &&& value.irq_enabled == if fits(s, 0x203C) { byte_at(s, 0x203B) != 0 } else { self.irq_enabled }
            &&& value.irq_reload == if fits(s, 0x203D) { byte_at(s, 0x203C) } else { self.irq_reload }
            &&& value.irq_counter == if fits(s, 0x203E) { byte_at(s, 0x203D) } else { self.irq_counter }
            &&& value.irq_asserted == if fits(s, 0x203F) {
                byte_at(s, 0x203E) != 0
            } else {
                self.irq_asserted
            }
            &&& read_from(before, "MMC3"@, 0x203F, r, after, mmc3_cursor(s))
        }
    }

    fn save(&self, parent: &mut Section) {
        proof {
            reveal_strlit("MMC3");
        }
        let ghost before = *parent;
        let s = parent.create_child("MMC3");
        s.data.write_slice(&self.registers);
        s.data.write_u8(self.reg);
        s.data.write_u8(self.prg_mode);
        s.data.write_u8(self.chr_mode);
        s.data.write_slice(&self.prg_ram);
        s.data.write_u32_slice(&self.prg_offsets);
        s.data.write_u32_slice(&self.chr_offsets);
        s.data.write_bool(self.irq_enabled);
        s.data.write_u8(self.irq_reload);
        s.data.write_u8(self.irq_counter);
        s.data.write_bool(self.irq_asserted);
        assert(s.data.data@ == mmc3_bytes(*self));
        assert(parent.children@.drop_last() == before.children@);
    }

    fn load(&mut self, parent: &mut Section) -> (r: Result<(), SaveStateError>) {
        let s = match parent.get("MMC3") {
            Ok(s) => s,
            Err(e) => return Err(e),
        };
        match s.data.read_slice(&mut self.registers) {
            Ok(()) => {},
            Err(e) => return Err(e),
        }
        self.reg = match s.data.read_u8() {
            Ok(v) => v,
            Err(e) => return Err(e),
        };
        self.prg_mode = match s.data.read_u8() {
            Ok(v) => v,
            Err(e) => return Err(e),
        };
        self.chr_mode = match s.data.read_u8() {
            Ok(v) => v,
            Err(e) => return Err(e),
        };
        match s.data.read_slice(&mut self.prg_ram) {
            Ok(()) => {},
            Err(e) => return Err(e),
        }
        match s.data.read_u32_slice(&mut self.prg_offsets) {
            Ok(()) => {},
            Err(e) => return Err(e),
        }
        match s.data.read_u32_slice(&mut self.chr_offsets) {
            Ok(()) => {},
            Err(e) => return Err(e),
        }
        self.irq_enabled = match s.data.read_bool() {
            Ok(v) => v,
            Err(e) => return Err(e),
        };
        self.irq_reload = match s.data.read_u8() {
            Ok(v) => v,
            Err(e) => return Err(e),
        };
        self.irq_counter = match s.data.read_u8() {
            Ok(v) => v,
            Err(e) => return Err(e),
        };
        self.irq_asserted = match s.data.read_bool() {
            Ok(v) => v,
            Err(e) => return Err(e),
        };
        Ok(())
    }
}

/// Where each field of an MMC3 stands in the bytes it saves.
proof fn lemma_mmc3_bytes(t: MMC3)
    ensures
        ({
            let b = mmc3_bytes(t);
            &&& b.len() == 0x203F
            &&& b.subrange(0, 8) == t.registers@
            &&& b[8] == t.reg && b[9] == t.prg_mode && b[10] == t.chr_mode
            &&& b.subrange(11, 0x200B) == t.prg_ram@
            &&& Seq::new(4, |k: int| be_u32_at(b, 0x200B + 4 * k)) == t.prg_offsets@
            &&& Seq::new(8, |k: int| be_u32_at(b, 0x201B + 4 * k)) == t.chr_offsets@
            &&& b[0x203B] == bool_byte(t.irq_enabled) && b[0x203C] == t.irq_reload
            &&& b[0x203D] == t.irq_counter && b[0x203E] == bool_byte(t.irq_asserted)
        }),
{
    let b = mmc3_bytes(t);
    let head = t.registers@ + seq![t.reg, t.prg_mode, t.chr_mode] + t.prg_ram@;
    let po = u32s_be_bytes(t.prg_offsets@);
    let co = u32s_be_bytes(t.chr_offsets@);
    let tail = seq![bool_byte(t.irq_enabled), t.irq_reload, t.irq_counter, bool_byte(t.irq_asserted)];
    lemma_read_back_u32s(head, t.prg_offsets@, co + tail);
    lemma_read_back_u32s(head + po, t.chr_offsets@, tail);
    assert(b == head + po + co + tail);
    assert(head + po + co + tail == head + po + (co + tail));
    assert(b.subrange(0, 8) == t.registers@);
    assert(b.subrange(11, 0x200B) == t.prg_ram@);
    assert(Seq::new(4, |k: int| be_u32_at(b, 0x200B + 4 * k)) =~= t.prg_offsets@) by {
        assert forall|k: int| 0 <= k < 4 implies be_u32_at(b, 0x200B + 4 * k) == t.prg_offsets@[k] by {
            assert(be_u32_at(head + po + (co + tail), head.len() + 4 * k) == t.prg_offsets@[k]);
        }
    }
    assert(Seq::new(8, |k: int| be_u32_at(b, 0x201B + 4 * k)) =~= t.chr_offsets@) by {
        assert forall|k: int| 0 <= k < 8 implies be_u32_at(b, 0x201B + 4 * k) == t.chr_offsets@[k] by {
            assert(be_u32_at(head + po + co + tail, (head + po).len() + 4 * k) == t.chr_offsets@[k]);
        }
    }
}

/// Loading an MMC3 from what saving one appended gives it back, where no
/// section of that name came before.
pub proof fn law_mmc3_save_load(
    t: MMC3,
    u: MMC3,
    p: Section,
    q: Section,
    r: Result<(), SaveStateError>,
    v: MMC3,
    q2: Section,
)
    requires
        !contains_named(p, "MMC3"@),
        t.saved(p, q),
        u.loaded(q, r, v, q2),
    ensures
        r is Ok,
        v == t,
{
    let b = mmc3_bytes(t);
    lemma_found_appended(p, q, "MMC3"@, b);
    lemma_mmc3_bytes(t);
    let s = found(q, "MMC3"@);
    assert(s.data.data@ == b && s.data.read_index == 0);
    assert(v.registers =~= t.registers);
    assert(v.prg_ram =~= t.prg_ram);
    assert(v.prg_offsets =~= t.prg_offsets);
    assert(v.chr_offsets =~= t.chr_offsets);
}

} // verus!
