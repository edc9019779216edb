pub mod basic;
pub mod mmc1;
pub mod mmc3;
pub mod nrom;
pub mod unrom;

use vstd::prelude::*;
use super::rom::Cart;
use self::mmc1::MMC1;
use self::mmc3::MMC3;
use self::nrom::NROM;
use self::unrom::UNROM;

verus! {

/// The address of byte `i` of tile `nth` of the pattern table at `base`
/// (the tile offset taken modulo 2^16).
pub open spec fn tile_addr(base: u16, nth: usize, i: int) -> u16 {
    (base + (nth * 16) % 0x1_0000 + i) as u16
}

/// A cartridge mapper: routes CPU and PPU accesses to the cartridge's memory
/// and to the mapper's own registers and RAM.
pub trait Mapper: Sized {
    /// The mapper's own state is consistent.
    spec fn inv(&self) -> bool;

    /// A read of `addr` neither indexes out of the cartridge nor hits an
    /// address the mapper refuses.
    spec fn read_ok(&self, cart: &Cart, addr: u16) -> bool;

    /// A write to `addr` neither indexes out of the cartridge nor hits an
    /// address the mapper refuses.
    spec fn write_ok(&self, cart: &Cart, addr: u16) -> bool;

    /// The byte a read of `addr` gives.
    spec fn read_value(&self, cart: &Cart, addr: u16) -> u8;

    /// `after` and `cart_after` are the mapper and the cartridge once `val`
    /// has been written to `addr`.
    spec fn written(&self, cart: &Cart, addr: u16, val: u8, after: &Self, cart_after: &Cart) -> bool;

    /// The mapper once the PPU has finished a scanline.
    spec fn scanline_stepped(&self) -> Self;

    /// The mapper is raising its interrupt line.
    spec fn irq_raised(&self) -> bool;

    /// The mapper once its interrupt has been reported.
    spec fn irq_reported(&self) -> Self;

    fn read(&mut self, cart: &mut Cart, addr: u16) -> (v: u8)
        requires
            old(self).inv(),
            old(self).read_ok(&*old(cart), addr),
        ensures
            final(self).inv(),
            v == old(self).read_value(&*old(cart), addr),
            *final(self) == *old(self),
            *final(cart) == *old(cart),
    ;

    fn write(&mut self, cart: &mut Cart, addr: u16, val: u8)
        requires
            old(self).inv(),
            old(self).write_ok(&*old(cart), addr),
        ensures
            final(self).inv(),
            old(self).written(&*old(cart), addr, val, &*final(self), &*final(cart)),
    ;

    /// Reads the 16 bytes of tile `nth` of the pattern table at
    /// `chr_bank_offset` into `buffer`.
    fn get_tile(&mut self, cart: &mut Cart, chr_bank_offset: u16, nth: usize, buffer: &mut [u8; 16])
        requires
            old(self).inv(),
            nth * 16 <= usize::MAX,
            chr_bank_offset + (nth * 16) % 0x1_0000 + 15 <= 0xFFFF,
            forall|i: int|
                0 <= i < 16 ==> old(self).read_ok(&*old(cart), #[trigger] tile_addr(chr_bank_offset, nth, i)),
        ensures
            *final(self) == *old(self),
            *final(cart) == *old(cart),
            forall|i: int|
                0 <= i < 16 ==> #[trigger] final(buffer)@[i] == old(self).read_value(
                    &*old(cart),
                    tile_addr(chr_bank_offset, nth, i),
                ),
    {
        let t: usize = nth * 16;
        let tt: u16 = t as u16;
        assert(tt == t % 0x1_0000) by (bit_vector)
            requires
                tt == t as u16,
        ;
        let offset = chr_bank_offset + tt;
        let mut i: usize = 0;
        while i < 16
            invariant
                i <= 16,
                self.inv(),
                *self == *old(self),
                *cart == *old(cart),
                offset == chr_bank_offset + (nth * 16) % 0x1_0000,
                offset + 15 <= 0xFFFF,
                forall|k: int|
                    0 <= k < 16 ==> old(self).read_ok(&*old(cart), #[trigger] tile_addr(chr_bank_offset, nth, k)),
                forall|k: int|
                    0 <= k < i ==> #[trigger] buffer@[k] == old(self).read_value(
                        &*old(cart),
                        tile_addr(chr_bank_offset, nth, k),
                    ),
            decreases 16 - i,
        {
            assert(tile_addr(chr_bank_offset, nth, i as int) == offset + i);
            let v = self.read(cart, offset + i as u16);
            buffer[i] = v;
            i += 1;
        }
    }

    /// Clocked once per visible scanline while rendering.
    fn step_scanline(&mut self)
        requires
            old(self).inv(),
        ensures
            final(self).inv(),
            *final(self) == old(self).scanline_stepped(),
    ;

    /// Reports, and acknowledges, the mapper's interrupt.
    fn is_asserting_irq(&mut self) -> (b: bool)
        requires
            old(self).inv(),
        ensures
            final(self).inv(),
            b == old(self).irq_raised(),
            *final(self) == old(self).irq_reported(),
    ;
}

/// The mapper a cartridge uses, among those this emulator implements.
pub enum AnyMapper {
    Nrom(NROM),
    Mmc1(MMC1),
    Unrom(UNROM),
    Mmc3(MMC3),
}

impl Mapper for AnyMapper {
    open spec fn inv(&self) -> bool {
        match self {
            AnyMapper::Nrom(m) => m.inv(),
            AnyMapper::Mmc1(m) => m.inv(),
            AnyMapper::Unrom(m) => m.inv(),
            AnyMapper::Mmc3(m) => m.inv(),
        }
    }

    open spec fn read_ok(&self, cart: &Cart, addr: u16) -> bool {
        match self {
            AnyMapper::Nrom(m) => m.read_ok(cart, addr),
            AnyMapper::Mmc1(m) => m.read_ok(cart, addr),
            AnyMapper::Unrom(m) => m.read_ok(cart, addr),
            AnyMapper::Mmc3(m) => m.read_ok(cart, addr),
        }
    }

    open spec fn write_ok(&self, cart: &Cart, addr: u16) -> bool {
        match self {
            AnyMapper::Nrom(m) => m.write_ok(cart, addr),
            AnyMapper::Mmc1(m) => m.write_ok(cart, addr),
            AnyMapper::Unrom(m) => m.write_ok(cart, addr),
            AnyMapper::Mmc3(m) => m.write_ok(cart, addr),
        }
    }

    open spec fn read_value(&self, cart: &Cart, addr: u16) -> u8 {
        match self {
            AnyMapper::Nrom(m) => m.read_value(cart, addr),
            AnyMapper::Mmc1(m) => m.read_value(cart, addr),
            AnyMapper::Unrom(m) => m.read_value(cart, addr),
            AnyMapper::Mmc3(m) => m.read_value(cart, addr),
        }
    }

    open spec fn written(
        &self,
        cart: &Cart,
        addr: u16,
        val: u8,
        after: &Self,
        cart_after: &Cart,
    ) -> bool {
        match (self, after) {
            (AnyMapper::Nrom(m), AnyMapper::Nrom(m2)) => m.written(cart, addr, val, m2, cart_after),
            (AnyMapper::Mmc1(m), AnyMapper::Mmc1(m2)) => m.written(cart, addr, val, m2, cart_after),
            (AnyMapper::Unrom(m), AnyMapper::Unrom(m2)) => m.written(
                cart,
                addr,
                val,
                m2,
                cart_after,
            ),
            (AnyMapper::Mmc3(m), AnyMapper::Mmc3(m2)) => m.written(cart, addr, val, m2, cart_after),
            _ => false,
        }
    }

    open spec fn scanline_stepped(&self) -> Self {
        match self {
            AnyMapper::Nrom(m) => AnyMapper::Nrom(m.scanline_stepped()),
            AnyMapper::Mmc1(m) => AnyMapper::Mmc1(m.scanline_stepped()),
            AnyMapper::Unrom(m) => AnyMapper::Unrom(m.scanline_stepped()),
            AnyMapper::Mmc3(m) => AnyMapper::Mmc3(m.scanline_stepped()),
        }
    }

    open spec fn irq_raised(&self) -> bool {
        match self {
            AnyMapper::Nrom(m) => m.irq_raised(),
            AnyMapper::Mmc1(m) => m.irq_raised(),
            AnyMapper::Unrom(m) => m.irq_raised(),
            AnyMapper::Mmc3(m) => m.irq_raised(),
        }
    }

    open spec fn irq_reported(&self) -> Self {
        match self {
            AnyMapper::Nrom(m) => AnyMapper::Nrom(m.irq_reported()),
            AnyMapper::Mmc1(m) => AnyMapper::Mmc1(m.irq_reported()),
            AnyMapper::Unrom(m) => AnyMapper::Unrom(m.irq_reported()),
            AnyMapper::Mmc3(m) => AnyMapper::Mmc3(m.irq_reported()),
        }
    }

    fn read(&mut self, cart: &mut Cart, addr: u16) -> (v: u8) {
        match self {
            AnyMapper::Nrom(m) => m.read(cart, addr),
            AnyMapper::Mmc1(m) => m.read(cart, addr),
            AnyMapper::Unrom(m) => m.read(cart, addr),
            AnyMapper::Mmc3(m) => m.read(cart, addr),
        }
    }

    fn write(&mut self, cart: &mut Cart, addr: u16, val: u8) {
        match self {
            AnyMapper::Nrom(m) => m.write(cart, addr, val),
            AnyMapper::Mmc1(m) => m.write(cart, addr, val),
            AnyMapper::Unrom(m) => m.write(cart, addr, val),
            AnyMapper::Mmc3(m) => m.write(cart, addr, val),
        }
    }

    fn step_scanline(&mut self) {
        match self {
            AnyMapper::Nrom(m) => m.step_scanline(),
            AnyMapper::Mmc1(m) => m.step_scanline(),
            AnyMapper::Unrom(m) => m.step_scanline(),
            AnyMapper::Mmc3(m) => m.step_scanline(),
        }
    }

    fn is_asserting_irq(&mut self) -> (b: bool) {
        match self {
            AnyMapper::Nrom(m) => m.is_asserting_irq(),
            AnyMapper::Mmc1(m) => m.is_asserting_irq(),
            AnyMapper::Unrom(m) => m.is_asserting_irq(),
            AnyMapper::Mmc3(m) => m.is_asserting_irq(),
        }
    }
}

} // verus!
