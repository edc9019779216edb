use vstd::prelude::*;
use crate::bits::{lemma_u16_bits, lemma_u8_bits};
use crate::cpu::rom::Cart;
use super::Mapper;

verus! {

/// Mapper 2: a switchable 16 KiB PRG bank at $8000, the last bank fixed at
/// $C000.
#[allow(clippy::upper_case_acronyms)]
pub struct UNROM {
    pub prg_ram: [u8; 2048],
    pub chr_ram: [u8; 0x2000],
    pub bank: u8,
}

/// Where in the cartridge image a PRG ROM address lands.
pub open spec fn unrom_prg_index(m: UNROM, cart: Cart, addr: u16) -> int {
    cart.prg_rom_start + (if addr <= 0xBFFF {
        m.bank as int
    } else {
        cart.prg_rom_size - 1
    }) * 0x4000 + addr % 0x4000
}

/// What a read of UNROM gives.
pub open spec fn unrom_read(m: UNROM, cart: Cart, addr: u16) -> u8 {
    if addr <= 0x1FFF {
        if cart.chr_rom_size == 0 {
            m.chr_ram@[addr as int]
        } else {
            cart.bytes@[cart.chr_rom_start + addr]
        }
    } else if 0x6000 <= addr <= 0x7FFF {
        m.prg_ram@[(addr - 0x6000) % 0x800]
    } else if addr >= 0x8000 {
        cart.bytes@[unrom_prg_index(m, cart, addr)]
    } else {
        0
    }
}

/// UNROM at power-on: bank 0 selected, its RAMs cleared.
pub open spec fn unrom_fresh(m: UNROM) -> bool {
    &&& m.bank == 0
    &&& forall|i: int| 0 <= i < 2048 ==> m.prg_ram@[i] == 0
    &&& forall|i: int| 0 <= i < 0x2000 ==> m.chr_ram@[i] == 0
}

impl UNROM {
    pub fn new() -> (m: UNROM)
        ensures
            m.inv(),
            unrom_fresh(m),
    {
        UNROM { prg_ram: [0; 2048], chr_ram: [0; 0x2000], bank: 0 }
    }
}

impl Mapper for UNROM {
    open spec fn inv(&self) -> bool {
        self.bank < 16
    }

    open spec fn read_ok(&self, cart: &Cart, addr: u16) -> bool {
        &&& addr <= 0x1FFF && cart.chr_rom_size != 0 ==> cart.chr_rom_start + addr
            < cart.bytes@.len()
        &&& addr >= 0xC000 ==> cart.prg_rom_size >= 1
        &&& addr >= 0x8000 ==> unrom_prg_index(*self, *cart, addr) < cart.bytes@.len()
    }

    /// Writes to the upper three quarters of the RAM window index past the
    /// 2 KiB of RAM and are refused.
    open spec fn write_ok(&self, cart: &Cart, addr: u16) -> bool {
        &&& addr <= 0x1FFF && cart.chr_rom_size != 0 ==> cart.chr_rom_start + addr
            < cart.bytes@.len()
        &&& !(0x6800 <= addr <= 0x7FFF)
    }

    open spec fn read_value(&self, cart: &Cart, addr: u16) -> u8 {
        unrom_read(*self, *cart, addr)
    }

    open spec fn written(
        &self,
        cart: &Cart,
        addr: u16,
        val: u8,
        after: &Self,
        cart_after: &Cart,
    ) -> bool {
        &&& addr <= 0x1FFF && cart.chr_rom_size == 0 ==> *cart_after == *cart
            && after.chr_ram@ == self.chr_ram@.update(addr as int, val) && after.prg_ram
            == self.prg_ram && after.bank == self.bank
        &&& addr <= 0x1FFF && cart.chr_rom_size != 0 ==> *after == *self && cart_after.bytes@
            == cart.bytes@.update(cart.chr_rom_start + addr, val) && *cart_after == (Cart {
            bytes: cart_after.bytes,
            ..*cart
        })
        &&& 0x6000 <= addr < 0x6800 ==> *cart_after == *cart && after.prg_ram@
            == self.prg_ram@.update(addr - 0x6000, val) && after.chr_ram == self.chr_ram
            && after.bank == self.bank
        &&& addr >= 0x8000 ==> *cart_after == *cart && *after == (UNROM {
            bank: val & 0b1111,
            ..*self
        })
        &&& 0x2000 <= addr < 0x6000 ==> *cart_after == *cart && *after == *self
    }

    open spec fn scanline_stepped(&self) -> Self {
        *self
    }

    open spec fn irq_raised(&self) -> bool {
        false
    }

    open spec fn irq_reported(&self) -> Self {
        *self
    }

    fn read(&mut self, cart: &mut Cart, addr: u16) -> (v: u8)
    {
        let _n = cart.bytes.len();
        match addr {
            0x0000..=0x1FFF => {
                if cart.chr_rom_size == 0 {
                    self.chr_ram[addr as usize]
                } else {
                    let low = addr & 0x1fff;
                    proof {
                        lemma_u16_bits(addr);
                    }
                    let addr = cart.chr_rom_start + low as usize;
                    cart.bytes[addr]
                }
            },
            0x6000..=0x7FFF => {
                let off = addr - 0x6000;
                proof {
                    lemma_u16_bits(off);
                }
                self.prg_ram[(off & 0x7FF) as usize]
            },
            0x8000..=0xBFFF => {
                let low = addr & 0x3FFF;
                proof {
                    lemma_u16_bits(addr);
                }
                let addr = cart.prg_rom_start + ((self.bank as usize) * 0x4000) + low as usize;
                cart.bytes[addr]
            },
            0xC000..=0xFFFF => {
                let low = addr & 0x3FFF;
                proof {
                    lemma_u16_bits(addr);
                }
                let addr = cart.prg_rom_start + (cart.prg_rom_size as usize - 1) * 0x4000
                    + low as usize;
                cart.bytes[addr]
            },
            _ => 0,
        }
    }

    fn write(&mut self, cart: &mut Cart, addr: u16, val: u8)
    {
        let _n = cart.bytes.len();
        match addr {
            0x0000..=0x1FFF => {
                if cart.chr_rom_size == 0 {
                    self.chr_ram[addr as usize] = val;
                } else {
                    let low = addr & 0x1fff;
                    proof {
                        lemma_u16_bits(addr);
                    }
                    let addr = cart.chr_rom_start + low as usize;
                    cart.bytes.set(addr, val);
                }
            },
            0x6000..=0x7FFF => {
                self.prg_ram[(addr - 0x6000) as usize] = val;
            },
            0x8000..=0xFFFF => {
                proof {
                    lemma_u8_bits(val);
                }
                self.bank = val & 0b1111;
            },
            _ => {},
        }
    }

    fn step_scanline(&mut self) {
    }

    fn is_asserting_irq(&mut self) -> (b: bool) {
        false
    }
}

} // verus!
