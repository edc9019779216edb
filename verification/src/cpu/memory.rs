use vstd::prelude::*;

verus! {

/// Something the CPU reads and writes a byte at a time, where reads may
/// have side effects (device registers).
pub trait Memory: Sized {
    /// A read of `addr` stays within the memory behind it.
    spec fn readable(&self, addr: u16) -> bool;

    /// A write of `val` to `addr` stays within the memory behind it.
    spec fn writable(&self, addr: u16, val: u8) -> bool;

    /// The byte a read of `addr` returns.
    spec fn peek(&self, addr: u16) -> u8;

    /// The memory after a read of `addr`.
    spec fn after_read(&self, addr: u16) -> Self;

    /// `after` is the memory after `val` is written to `addr`.
    spec fn written(&self, addr: u16, val: u8, after: &Self) -> bool;

    fn read_byte(&mut self, addr: u16) -> (v: u8)
        requires
            old(self).readable(addr),
        ensures
            v == old(self).peek(addr),
            *final(self) == old(self).after_read(addr),
    ;

    fn write_byte(&mut self, addr: u16, val: u8)
        requires
            old(self).writable(addr, val),
        ensures
            old(self).written(addr, val, &*final(self)),
    ;

    /// Reads a little-endian word, high byte first.
    fn read_word(&mut self, addr: u16) -> (w: u16)
        requires
            addr < 0xFFFF,
            old(self).readable((addr + 1) as u16),
            old(self).after_read((addr + 1) as u16).readable(addr),
        ensures
            w == old(self).after_read((addr + 1) as u16).peek(addr) + 256 * old(self).peek(
                (addr + 1) as u16,
            ),
            *final(self) == old(self).after_read((addr + 1) as u16).after_read(addr),
    {
        let high = self.read_byte(addr + 1) as u16;
        let low = self.read_byte(addr) as u16;
        proof {
            crate::bits::lemma_join16(high, low);
        }
        (high << 8) | low
    }

    /// Writes a little-endian word, low byte first.
    fn write_word(&mut self, addr: u16, val: u16)
        requires
            addr < 0xFFFF,
            old(self).writable(addr, (val % 256) as u8),
            forall|m: Self|
                #[trigger] old(self).written(addr, (val % 256) as u8, &m) ==> m.writable(
                    (addr + 1) as u16,
                    (val / 256) as u8,
                ),
        ensures
            exists|m: Self|
                #[trigger] old(self).written(addr, (val % 256) as u8, &m) && m.written(
                    (addr + 1) as u16,
                    (val / 256) as u8,
                    &*final(self),
                ),
    {
        proof {
            crate::bits::lemma_u16_bits(val);
        }
        self.write_byte(addr, (val & 0xff) as u8);
        let ghost m = *self;
        self.write_byte(addr + 1, (val >> 8) as u8);
        assert(m.written((addr + 1) as u16, (val / 256) as u8, &*self));
    }
}

} // verus!
