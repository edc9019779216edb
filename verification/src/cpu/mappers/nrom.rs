use vstd::prelude::*;
use crate::bits::lemma_u16_bits;
use crate::cpu::rom::Cart;
use super::Mapper;
use crate::savestate::{
    child_appended, contains_named, fits, found, lemma_found_appended, missing, read_from, Save,
    SaveStateError, Section,
};

verus! {

/// Mapper 0: fixed 16 KiB or 32 KiB of PRG ROM, 8 KiB of CHR ROM, and
/// 2 KiB of work RAM at $6000.
#[allow(clippy::upper_case_acronyms)]
pub struct NROM {
    pub ram: [u8; 2048],
}

/// Where in the cartridge image a PRG ROM address ($8000-$FFFF) lands: a
/// single 16 KiB bank is mirrored into both halves.
pub open spec fn nrom_prg_index(cart: Cart, addr: u16) -> int {
    let a = addr - 0x8000;
    cart.prg_rom_start + if cart.prg_rom_size == 1 && a >= 0x4000 {
        a - 0x4000
    } else {
        a
    }
}

/// What a read of NROM gives.
pub open spec fn nrom_read(m: NROM, cart: Cart, addr: u16) -> u8 {
    if addr <= 0x1FFF {
        cart.bytes@[cart.chr_rom_start + addr]
    } else if 0x6000 <= addr <= 0x7FFF {
        m.ram@[((addr - 0x6000) as u16 & 0x7FF) as int]
    } else if addr >= 0x8000 {
        cart.bytes@[nrom_prg_index(cart, addr)]
    } else {
        0
    }
}

/// NROM at power-on: its work RAM cleared.
pub open spec fn nrom_fresh(m: NROM) -> bool {
    forall|i: int| 0 <= i < 2048 ==> m.ram@[i] == 0
}

impl NROM {
    pub fn new() -> (m: NROM)
        ensures
            nrom_fresh(m),
    {
        NROM { ram: [0; 2048] }
    }
}

#[inline]
fn mirrored_addr(cart: &Cart, addr: u16) -> (i: usize)
    requires
        addr >= 0x8000,
        nrom_prg_index(*cart, addr) < cart.bytes@.len(),
    ensures
        i == nrom_prg_index(*cart, addr),
{
    let _n = cart.bytes.len();
    let mut prg_rom_addr = addr as usize - 0x8000;
    if cart.prg_rom_size == 1 && prg_rom_addr >= 0x4000 {
        prg_rom_addr -= 0x4000;
    }
    cart.prg_rom_start + prg_rom_addr
}

impl Mapper for NROM {
    open spec fn inv(&self) -> bool {
        true
    }

    open spec fn read_ok(&self, cart: &Cart, addr: u16) -> bool {
        &&& addr <= 0x1FFF ==> cart.chr_rom_start + addr < cart.bytes@.len()
        &&& addr >= 0x8000 ==> nrom_prg_index(*cart, addr) < cart.bytes@.len()
    }

    /// Writes to the upper three quarters of the RAM window index past the
    /// 2 KiB of RAM and are refused.
    open spec fn write_ok(&self, cart: &Cart, addr: u16) -> bool {
        !(0x6800 <= addr <= 0x7FFF)
    }

    open spec fn read_value(&self, cart: &Cart, addr: u16) -> u8 {
        nrom_read(*self, *cart, addr)
    }

    /// Only the work RAM is writable; writes elsewhere are ignored.
    open spec fn written(
        &self,
        cart: &Cart,
        addr: u16,
        val: u8,
        after: &Self,
        cart_after: &Cart,
    ) -> bool {
        &&& *cart_after == *cart
        &&& 0x6000 <= addr < 0x6800 ==> after.ram@ == self.ram@.update(addr - 0x6000, val)
        &&& !(0x6000 <= addr < 0x6800) ==> *after == *self
    }

    open spec fn scanline_stepped(&self) -> Self {
        *self
    }

    open spec fn irq_raised(&self) -> bool {
        false
    }

    open spec fn irq_reported(&self) -> Self {
        *self
    }

    fn read(&mut self, cart: &mut Cart, addr: u16) -> (v: u8) {
        let _n = cart.bytes.len();
        match addr {
            0x0000..=0x1FFF => {
                let addr = cart.chr_rom_start + addr as usize;
                cart.bytes[addr]
            },
            0x6000..=0x7FFF => {
                let off = addr - 0x6000;
                proof {
                    lemma_u16_bits(off);
                }
                self.ram[(off & 0x7FF) as usize]
            },
            0x8000..=0xFFFF => {
                let addr = mirrored_addr(cart, addr);
                cart.bytes[addr]
            },
            _ => 0,
        }
    }

    fn write(&mut self, cart: &mut Cart, addr: u16, val: u8) {
        match addr {
            0x0000..=0x1FFF => {},
            0x6000..=0x7FFF => {
                self.ram[(addr - 0x6000) as usize] = val;
            },
            _ => {},
        }
    }

    fn step_scanline(&mut self) {
    }

    fn is_asserting_irq(&mut self) -> (b: bool) {
        false
    }
}


impl Save for NROM {
    /// A child section "NROM" holding the work RAM.
    open spec fn saved(&self, before: Section, after: Section) -> bool {
        child_appended(before, after, "NROM"@, self.ram@)
    }

    /// The work RAM is read back from the section "NROM" if all of it is
    /// there, and left as it was otherwise.
    open spec fn loaded(
        &self,
        before: Section,
        r: Result<(), SaveStateError>,
        value: NROM,
        after: Section,
    ) -> bool {
        if !contains_named(before, "NROM"@) {
            missing(before, "NROM"@, r, after) && value == *self
        } else {
            let s = found(before, "NROM"@);
            let i = s.data.read_index as int;
            &&& value.ram@ == if fits(s, 2048) { s.data.data@.subrange(i, i + 2048) } else { self.ram@ }
            &&& read_from(
                before,
                "NROM"@,
                2048,
                r,
                after,
                if fits(s, 2048) { (i + 2048) as usize } else { s.data.read_index },
            )
        }
    }

    fn save(&self, parent: &mut Section) {
        proof {
            reveal_strlit("NROM");
        }
        let ghost before = *parent;
        let s = parent.create_child("NROM");
        s.data.write_slice(&self.ram);
        assert(s.data.data@ == self.ram@);
        assert(parent.children@.drop_last() == before.children@);
    }

    fn load(&mut self, parent: &mut Section) -> (r: Result<(), SaveStateError>) {
        let s = match parent.get("NROM") {
            Ok(s) => s,
            Err(e) => return Err(e),
        };
        match s.data.read_slice(&mut self.ram) {
            Ok(()) => {},
            Err(e) => return Err(e),
        }
        Ok(())
    }
}

/// Loading an NROM from what saving one appended gives it back, where no
/// section of that name came before.
pub proof fn law_nrom_save_load(
    t: NROM,
    u: NROM,
    p: Section,
    q: Section,
    r: Result<(), SaveStateError>,
    v: NROM,
    q2: Section,
)
    requires
        !contains_named(p, "NROM"@),
        t.saved(p, q),
        u.loaded(q, r, v, q2),
    ensures
        r is Ok,
        v == t,
{
    lemma_found_appended(p, q, "NROM"@, t.ram@);
    assert(t.ram@.subrange(0, 2048) == t.ram@);
    assert(v.ram =~= t.ram);
}

} // verus!
