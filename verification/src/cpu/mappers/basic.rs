use vstd::prelude::*;
use crate::cpu::memory::Memory;
use crate::cpu::rom::ROM;

verus! {

/// A flat memory: the address indexes the cartridge image directly, for
/// reading and for writing.
#[allow(clippy::upper_case_acronyms)]
pub struct Basic {
    pub rom: ROM,
}

impl Memory for Basic {
    /// The address lies within the image.
    open spec fn readable(&self, addr: u16) -> bool {
        addr < self.rom.cart.bytes@.len()
    }

    open spec fn writable(&self, addr: u16, val: u8) -> bool {
        addr < self.rom.cart.bytes@.len()
    }

    open spec fn peek(&self, addr: u16) -> u8 {
        self.rom.cart.bytes@[addr as int]
    }

    /// Reads have no side effect.
    open spec fn after_read(&self, addr: u16) -> Basic {
        *self
    }

    /// The byte of the image at the address is replaced, nothing else.
    open spec fn written(&self, addr: u16, val: u8, after: &Basic) -> bool {
        &&& after.rom.cart.bytes@ == self.rom.cart.bytes@.update(addr as int, val)
        &&& after.rom.cart.hash == self.rom.cart.hash
        &&& after.rom.cart.prg_rom_size == self.rom.cart.prg_rom_size
        &&& after.rom.cart.chr_rom_size == self.rom.cart.chr_rom_size
        &&& after.rom.cart.mirroring == self.rom.cart.mirroring
        &&& after.rom.cart.mapper_id == self.rom.cart.mapper_id
        &&& after.rom.cart.battery == self.rom.cart.battery
        &&& after.rom.cart.trainer == self.rom.cart.trainer
        &&& after.rom.cart.prg_rom_start == self.rom.cart.prg_rom_start
        &&& after.rom.cart.chr_rom_start == self.rom.cart.chr_rom_start
        &&& after.rom.mapper == self.rom.mapper
    }

    fn read_byte(&mut self, addr: u16) -> (v: u8) {
        self.rom.cart.bytes[addr as usize]
    }

    fn write_byte(&mut self, addr: u16, val: u8) {
        self.rom.cart.bytes.set(addr as usize, val);
    }
}

} // verus!
