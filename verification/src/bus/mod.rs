pub mod controller;

use vstd::prelude::*;
use crate::apu::{apu_power_on, apu_stepped, apu_written, APU};
use crate::bits::lemma_u16_bits;
use crate::cpu::mappers::Mapper;
use crate::cpu::memory::Memory;
use crate::ppu::screen::Screen;
use crate::ppu::timing::{frame_stepped, ppu_stepped, step_accesses_ok};
use crate::ppu::{ppu_power_on, ppu_wf, register_read, register_read_ok, register_read_value, register_write_ok,
    register_written, PPU};
use self::controller::{joypad_read, Joypad};

verus! {

/// The console's 2 KiB of work RAM, mirrored four times over $0000-$1FFF.
#[allow(clippy::upper_case_acronyms)]
pub struct RAM(pub [u8; 0x800]);

impl RAM {
    fn mirrored_addr(addr: u16) -> (a: u16)
        ensures
            a == addr % 0x800,
    {
        proof {
            lemma_u16_bits(addr);
        }
        addr & 0b0000_0111_1111_1111
    }
}

impl Memory for RAM {
    open spec fn readable(&self, addr: u16) -> bool {
        true
    }

    open spec fn writable(&self, addr: u16, val: u8) -> bool {
        true
    }

    open spec fn peek(&self, addr: u16) -> u8 {
        self.0@[(addr % 0x800) as int]
    }

    open spec fn after_read(&self, addr: u16) -> Self {
        *self
    }

    open spec fn written(&self, addr: u16, val: u8, after: &Self) -> bool {
        after.0@ == self.0@.update((addr % 0x800) as int, val)
    }

    fn read_byte(&mut self, addr: u16) -> (v: u8) {
        self.0[RAM::mirrored_addr(addr) as usize]
    }

    fn write_byte(&mut self, addr: u16, val: u8) {
        self.0[RAM::mirrored_addr(addr) as usize] = val;
    }
}

/// The interrupt the CPU sees at the start of an instruction.
pub enum Interrupt {
    Idle,
    Nmi,
    Irq,
}

/// The CPU's address space: RAM, the PPU and APU registers, the joypads
/// and the cartridge.
pub struct Bus {
    pub ram: RAM,
    pub ppu: PPU,
    pub apu: APU,
    pub joypad1: Joypad,
    pub joypad2: Joypad,
    pub dma_transfer: bool,
}

/// The bus's invariant: the PPU's and the APU's.
pub open spec fn bus_wf(b: Bus) -> bool {
    ppu_wf(b.ppu) && b.apu.wf()
}

/// The PPU register a CPU address of $2000-$3FFF selects (mirrored every
/// eight bytes).
pub open spec fn ppu_register(addr: u16) -> u16 {
    (0x2000 + addr % 8) as u16
}

/// The bus after one byte of work RAM is written.
pub open spec fn ram_written(b: Bus, addr: u16, val: u8) -> Bus {
    Bus { ram: RAM(vstd::array::spec_array_update(b.ram.0, (addr % 0x800) as int, val)), ..b }
}

/// The bytes a DMA of page `hi` reads, from byte `n` on, and the bus after
/// those reads.
pub open spec fn dma_reads(b: Bus, hi: u8, n: nat) -> (Seq<u8>, Bus)
    decreases 256 - n,
{
    if n >= 256 {
        (Seq::empty(), b)
    } else {
        let addr = (hi as int * 256 + n) as u16;
        let rest = dma_reads(b.after_read(addr), hi, n + 1);
        (seq![b.peek(addr)] + rest.0, rest.1)
    }
}

/// Every read of a DMA of page `hi`, from byte `n` on, stays within memory.
pub open spec fn dma_ok(b: Bus, hi: u8, n: nat) -> bool
    decreases 256 - n,
{
    if n >= 256 {
        true
    } else {
        let addr = (hi as int * 256 + n) as u16;
        b.readable(addr) && dma_ok(b.after_read(addr), hi, n + 1)
    }
}

/// The interrupt the bus reports, and the bus once it is reported: the
/// PPU's NMI first, otherwise an IRQ from the mapper or the APU (the
/// mapper's is acknowledged either way).
pub open spec fn interrupt_pulled(b: Bus) -> (Interrupt, Bus) {
    if b.ppu.nmi_triggered {
        (Interrupt::Nmi, Bus { ppu: PPU { nmi_triggered: false, ..b.ppu }, ..b })
    } else {
        let mapper_irq = b.ppu.rom.mapper.irq_raised();
        let b2 = Bus {
            ppu: PPU {
                rom: crate::cpu::rom::ROM {
                    mapper: b.ppu.rom.mapper.irq_reported(),
                    ..b.ppu.rom
                },
                ..b.ppu
            },
            ..b
        };
        (
            if mapper_irq || b.apu.frame_interrupt {
                Interrupt::Irq
            } else {
                Interrupt::Idle
            },
            b2,
        )
    }
}

/// The PPU can run `n` more dots: every dot's reads stay within memory and
/// the frame counter does not overflow, whatever state the dots before it
/// lead to.
pub open spec fn ppu_run_ok(p: PPU, n: nat) -> bool
    decreases n,
{
    n == 0 || (ppu_wf(p) && p.frame < u64::MAX && step_accesses_ok(p) && forall|q: PPU|
        #[trigger] ppu_stepped(p, q) ==> ppu_run_ok(q, (n - 1) as nat))
}

/// `q` is `p` after `n` dots, and `qpix` is the frame `pix` with the pixels
/// those dots draw.
pub open spec fn ppu_ran(p: PPU, pix: Seq<u8>, n: nat, q: PPU, qpix: Seq<u8>) -> bool
    decreases n,
{
    if n == 0 {
        q == p && qpix == pix
    } else {
        exists|m: PPU| #[trigger] ppu_stepped(p, m) && ppu_ran(m, frame_stepped(p, pix), (n - 1) as nat, q, qpix)
    }
}

/// The APU after `n` CPU cycles.
pub open spec fn apu_ran(a: APU, n: nat) -> APU
    decreases n,
{
    if n == 0 {
        a
    } else {
        apu_ran(apu_stepped(a), (n - 1) as nat)
    }
}

/// `q` is `b` after `val` is written to PPU register `reg`.
pub open spec fn ppu_register_written(b: Bus, reg: u16, val: u8, q: Bus) -> bool {
    register_written(b.ppu, reg, val, q.ppu) && q == (Bus { ppu: q.ppu, ..b })
}

/// `q` is `b` after an OAM DMA from page `val`: the page's bytes, read in
/// order, land in sprite memory from the OAM address on, and the CPU stall
/// is flagged.
pub open spec fn dma_written(b: Bus, val: u8, q: Bus) -> bool {
    let (page, b1) = dma_reads(b, val, 0);
    &&& forall|i: int|
        0 <= i < 256 ==> #[trigger] q.ppu.attributes@[(b1.ppu.regs.oam_addr + i) % 256] == page[i]
    &&& q == (Bus { ppu: PPU { attributes: q.ppu.attributes, ..b1.ppu }, dma_transfer: true, ..b1 })
}

/// The bus after `val` is written to the joypad strobe ($4016).
pub open spec fn joypad_strobed(b: Bus, val: u8) -> Bus {
    Bus {
        joypad1: Joypad {
            strobe: val & 1 == 1,
            index: if val & 1 == 1 {
                0
            } else {
                b.joypad1.index
            },
            ..b.joypad1
        },
        ..b
    }
}

/// `q` is `b` after `val` is written to the cartridge at `addr`.
pub open spec fn cartridge_written(b: Bus, addr: u16, val: u8, q: Bus) -> bool {
    b.ppu.rom.mapper.written(&b.ppu.rom.cart, addr, val, &q.ppu.rom.mapper, &q.ppu.rom.cart)
        && q == (Bus { ppu: PPU { rom: q.ppu.rom, ..b.ppu }, ..b })
}

/// One APU cycle moves the cycle counter by one and the frame counter by at
/// most one.
proof fn lemma_apu_step_bounds(a: APU)
    ensures
        apu_stepped(a).cycle == (a.cycle + 1) as u32,
        apu_stepped(a).frame_counter <= a.frame_counter + 1,
{
}

/// The PPU invariant survives a change of cartridge state that keeps the
/// mapper consistent.
proof fn lemma_ppu_wf_rom(p: PPU, r: crate::cpu::rom::ROM)
    requires
        ppu_wf(p),
        r.mapper.inv(),
    ensures
        ppu_wf(PPU { rom: r, ..p }),
{
}

/// Work RAM is always readable, a read of it changes nothing and gives
/// the stored byte.
pub proof fn lemma_ram_read(b: Bus, addr: u16)
    requires
        bus_wf(b),
        addr <= 0x1fff,
    ensures
        b.readable(addr),
        b.after_read(addr) == b,
        b.peek(addr) == b.ram.0@[(addr % 0x800) as int],
{
}

/// Work RAM is always writable, and a write of it is the array update.
pub proof fn lemma_ram_write(b: Bus, addr: u16, val: u8)
    requires
        bus_wf(b),
        addr <= 0x1fff,
    ensures
        b.writable(addr, val),
        bus_wf(ram_written(b, addr, val)),
        forall|q: Bus| #[trigger] b.written(addr, val, &q) ==> q == ram_written(b, addr, val),
{
}

/// Work RAM is mirrored every 2 KiB: a byte written at an address of
/// $0000-$1FFF is read back at every address that agrees with it modulo
/// $800, and the write changes nothing else that a read of RAM sees.
pub proof fn law_ram_mirror(b: Bus, addr: u16, val: u8, other: u16)
    requires
        bus_wf(b),
        addr <= 0x1fff,
        other <= 0x1fff,
    ensures
        ram_written(b, addr, val).peek(other) == if other % 0x800 == addr % 0x800 {
            val
        } else {
            b.peek(other)
        },
{
    lemma_ram_write(b, addr, val);
    lemma_ram_read(ram_written(b, addr, val), other);
    lemma_ram_read(b, other);
}

/// A read of cartridge space changes nothing on the bus.
pub proof fn lemma_cart_read_unchanged(b: Bus, addr: u16)
    requires
        addr >= 0x4020,
    ensures
        b.after_read(addr) == b,
{
}

/// A read keeps the bus consistent.
pub proof fn lemma_read_keeps_wf(b: Bus, addr: u16)
    requires
        b.readable(addr),
    ensures
        bus_wf(b.after_read(addr)),
{
}

/// A DMA reads one byte per address left of the page.
proof fn lemma_dma_reads_len(b: Bus, hi: u8, n: nat)
    requires
        n <= 256,
    ensures
        dma_reads(b, hi, n).0.len() == 256 - n,
    decreases 256 - n,
{
    if n < 256 {
        let addr = (hi as int * 256 + n) as u16;
        lemma_dma_reads_len(b.after_read(addr), hi, n + 1);
    }
}

impl Bus {
    /// The console's bus at power-on around cartridge `rom`.
    pub fn new(rom: crate::cpu::rom::ROM) -> (b: Bus)
        requires
            rom.mapper.inv(),
        ensures
            bus_wf(b),
            b.ppu.rom == rom && ppu_power_on(b.ppu),
            apu_power_on(b.apu),
            forall|i: int| 0 <= i < 0x800 ==> b.ram.0@[i] == 0,
            !b.joypad1.strobe && b.joypad1.index == 0 && b.joypad1.status == 0,
            !b.joypad2.strobe && b.joypad2.index == 0 && b.joypad2.status == 0,
            !b.dma_transfer,
    {
        Bus {
            ram: RAM([0; 0x800]),
            ppu: PPU::new(rom),
            apu: APU::new(),
            joypad1: Joypad::new(),
            joypad2: Joypad::new(),
            dma_transfer: false,
        }
    }

    /// Copies page `val` ($XX00-$XXFF) into sprite memory and flags the
    /// CPU stall.
    fn write_oam_dma(&mut self, val: u8)
        requires
            bus_wf(*old(self)),
            dma_ok(*old(self), val, 0),
        ensures
            dma_written(*old(self), val, *final(self)),
            bus_wf(*final(self)),
    {
            let mut page = [0u8; 256];
            let high_byte = (val as u16) << 8;
            proof {
                crate::bits::lemma_u8_bits(val);
                assert(high_byte == val as int * 256) by (bit_vector)
                    requires
                        high_byte == (val as u16) << 8,
                ;
            }
            let mut low_byte: u16 = 0;
            assert(page@.subrange(0, 0) + dma_reads(*self, val, 0).0 =~= dma_reads(*self, val, 0).0);
            while low_byte < 256
                invariant
                    low_byte <= 256,
                    high_byte == val as int * 256,
                    dma_ok(*self, val, low_byte as nat),
                    bus_wf(*self),
                    dma_reads(*old(self), val, 0) == (
                        page@.subrange(0, low_byte as int) + dma_reads(*self, val, low_byte as nat).0,
                        dma_reads(*self, val, low_byte as nat).1,
                    ),
                decreases 256 - low_byte,
            {
                let addr = high_byte | low_byte;
                assert(addr == high_byte + low_byte) by (bit_vector)
                    requires
                        addr == high_byte | low_byte,
                        high_byte % 256 == 0,
                        low_byte < 256,
                ;
                let ghost b0 = *self;
                let ghost page0 = page@;
                proof {
                    lemma_read_keeps_wf(b0, addr);
                }
                page[low_byte as usize] = self.read_byte(addr);
                assert(page@.subrange(0, low_byte + 1) =~= page0.subrange(0, low_byte as int).push(
                    b0.peek(addr),
                ));
                assert(page@.subrange(0, low_byte + 1) + dma_reads(*self, val, (low_byte + 1) as nat).0
                    =~= page0.subrange(0, low_byte as int) + dma_reads(b0, val, low_byte as nat).0);
                low_byte += 1;
            }
            assert(page@.subrange(0, 256) =~= page@);
            assert(dma_reads(*self, val, 256) == (Seq::<u8>::empty(), *self));
            assert(page@ + Seq::<u8>::empty() =~= page@);
            self.ppu.write_oam_dma_reg(page);
            self.dma_transfer = true;
    }

    /// Reports the pending interrupt, NMI first.
    pub fn pull_interrupt(&mut self) -> (i: Interrupt)
        requires
            bus_wf(*old(self)),
        ensures
            bus_wf(*final(self)),
            (i, *final(self)) == interrupt_pulled(*old(self)),
    {
        let ghost p0 = self.ppu;
        if self.ppu.is_asserting_nmi() {
            proof {
                crate::ppu::lemma_wf_from(p0, self.ppu);
            }
            Interrupt::Nmi
        } else {
            let ghost p0 = self.ppu;
            let is_mapper_irq = self.ppu.rom.mapper.is_asserting_irq();
            proof {
                lemma_ppu_wf_rom(p0, self.ppu.rom);
                assert(self.ppu == PPU { rom: self.ppu.rom, ..p0 });
            }
            let is_apu_irq = self.apu.is_asserting_irq();

            if is_mapper_irq || is_apu_irq {
                Interrupt::Irq
            } else {
                Interrupt::Idle
            }
        }
    }

    /// Runs the PPU `n` dots, drawing into `frame`.
    fn run_ppu(&mut self, n: u32, frame: &mut Screen)
        requires
            ppu_run_ok(old(self).ppu, n as nat),
        ensures
            ppu_ran(old(self).ppu, old(frame).pixels@, n as nat, final(self).ppu, final(frame).pixels@),
            *final(self) == (Bus { ppu: final(self).ppu, ..*old(self) }),
    {
        let ghost pix0 = frame.pixels@;
        let mut i: u32 = 0;
        while i < n
            invariant
                i <= n,
                ppu_run_ok(self.ppu, (n - i) as nat),
                forall|q: PPU, qpix: Seq<u8>|
                    ppu_ran(self.ppu, frame.pixels@, (n - i) as nat, q, qpix) ==> #[trigger] ppu_ran(
                        old(self).ppu,
                        pix0,
                        n as nat,
                        q,
                        qpix,
                    ),
                *self == (Bus { ppu: self.ppu, ..*old(self) }),
            decreases n - i,
        {
            let ghost before = self.ppu;
            let ghost bpix = frame.pixels@;
            self.ppu.step(frame);
            proof {
                let k = (n - i) as nat;
                assert(ppu_stepped(before, self.ppu));
                assert(frame.pixels@ == frame_stepped(before, bpix));
                assert forall|q: PPU, qpix: Seq<u8>|
                    ppu_ran(self.ppu, frame.pixels@, (k - 1) as nat, q, qpix) implies #[trigger] ppu_ran(
                    old(self).ppu,
                    pix0,
                    n as nat,
                    q,
                    qpix,
                ) by {
                    assert(ppu_ran(before, bpix, k, q, qpix));
                }
            }
            i += 1;
        }
        assert(ppu_ran(self.ppu, frame.pixels@, 0, self.ppu, frame.pixels@));
    }

    /// Runs the APU `n` cycles.
    fn run_apu(&mut self, n: u32)
        requires
            old(self).apu.wf(),
            old(self).apu.cycle + n < u32::MAX,
            old(self).apu.frame_counter + n < u32::MAX,
        ensures
            final(self).apu == apu_ran(old(self).apu, n as nat),
            *final(self) == (Bus { apu: final(self).apu, ..*old(self) }),
    {
        let ghost apu0 = self.apu;
        let mut j: u32 = 0;
        while j < n
            invariant
                j <= n,
                self.apu.wf(),
                apu0 == old(self).apu,
                apu_ran(self.apu, (n - j) as nat) == apu_ran(apu0, n as nat),
                self.apu.cycle == apu0.cycle + j,
                self.apu.frame_counter <= apu0.frame_counter + j,
                apu0.cycle + n < u32::MAX,
                apu0.frame_counter + n < u32::MAX,
                *self == (Bus { apu: self.apu, ..*old(self) }),
            decreases n - j,
        {
            proof {
                lemma_apu_step_bounds(self.apu);
            }
            self.apu.step();
            j += 1;
        }
    }

    /// Runs the PPU three dots, drawing into `frame`, and the APU one cycle
    /// per CPU cycle.
    pub fn advance(&mut self, cpu_cycles: u32, frame: &mut Screen)
        requires
            cpu_cycles <= u32::MAX / 3,
            ppu_run_ok(old(self).ppu, 3 * cpu_cycles as nat),
            old(self).apu.wf(),
            old(self).apu.cycle + cpu_cycles < u32::MAX,
            old(self).apu.frame_counter + cpu_cycles < u32::MAX,
        ensures
            ppu_ran(
                old(self).ppu,
                old(frame).pixels@,
                3 * cpu_cycles as nat,
                final(self).ppu,
                final(frame).pixels@,
            ),
            final(self).apu == apu_ran(old(self).apu, cpu_cycles as nat),
            *final(self) == (Bus { ppu: final(self).ppu, apu: final(self).apu, ..*old(self) }),
    {
        let ppu_cycles = cpu_cycles * 3;
        self.run_ppu(ppu_cycles, frame);
        self.run_apu(cpu_cycles);
    }
}

/// A read of `addr` stays in range: RAM and the APU always, the PPU
/// registers and the cartridge where they accept the read.
pub open spec fn bus_readable(b: Bus, addr: u16) -> bool {
    &&& bus_wf(b)
    &&& 0x2000 <= addr <= 0x3fff ==> register_read_ok(b.ppu, ppu_register(addr))
    &&& addr >= 0x4020 ==> b.ppu.rom.mapper.read_ok(&b.ppu.rom.cart, addr)
}

/// A write of `val` to `addr` stays in range.
pub open spec fn bus_writable(b: Bus, addr: u16, val: u8) -> bool {
    &&& bus_wf(b)
    &&& 0x2000 <= addr <= 0x3fff ==> register_write_ok(b.ppu, ppu_register(addr))
    &&& addr == 0x4014 ==> dma_ok(b, val, 0)
    &&& addr >= 0x4020 ==> b.ppu.rom.mapper.write_ok(&b.ppu.rom.cart, addr)
}

/// The value a read of `addr` returns: RAM (mirrored every 2 KiB), the PPU
/// registers (mirrored every 8 bytes), the first controller, 0 for the rest
/// of the APU and I/O space, the cartridge above.
pub open spec fn bus_peek(b: Bus, addr: u16) -> u8 {
    if addr <= 0x1fff {
        b.ram.0@[(addr % 0x800) as int]
    } else if addr <= 0x3fff {
        register_read_value(b.ppu, ppu_register(addr))
    } else if addr == 0x4016 {
        joypad_read(b.joypad1).0
    } else if addr < 0x4020 {
        0
    } else {
        b.ppu.rom.mapper.read_value(&b.ppu.rom.cart, addr)
    }
}

/// The bus after a read of `addr`: PPU register reads and controller reads
/// have effects, and reading $4015 acknowledges the frame interrupt.
pub open spec fn bus_after_read(b: Bus, addr: u16) -> Bus {
    if addr <= 0x1fff {
        b
    } else if addr <= 0x3fff {
        Bus { ppu: register_read(b.ppu, ppu_register(addr)), ..b }
    } else if addr == 0x4016 {
        Bus { joypad1: joypad_read(b.joypad1).1, ..b }
    } else if addr == 0x4015 {
        Bus { apu: APU { frame_interrupt: false, ..b.apu }, ..b }
    } else {
        b
    }
}

/// `q` is `b` after `val` is written to `addr`.
pub open spec fn bus_written(b: Bus, addr: u16, val: u8, q: Bus) -> bool {
    &&& bus_wf(q)
    &&& if addr <= 0x1fff {
        q == ram_written(b, addr, val)
    } else if addr <= 0x3fff {
        ppu_register_written(b, ppu_register(addr), val, q)
    } else if addr == 0x4014 {
        dma_written(b, val, q)
    } else if addr == 0x4016 {
        q == joypad_strobed(b, val)
    } else if addr <= 0x4017 {
        apu_written(b.apu, addr, val, q.apu) && q == (Bus { apu: q.apu, ..b })
    } else if addr <= 0x401f {
        q == b
    } else {
        cartridge_written(b, addr, val, q)
    }
}

/// What the bus's memory map says of each address: reads, writes, the value
/// a read returns and the effects of reads and writes.
pub proof fn lemma_bus_memory_map(b: Bus, addr: u16, val: u8, q: Bus)
    ensures
        b.readable(addr) == bus_readable(b, addr),
        b.writable(addr, val) == bus_writable(b, addr, val),
        b.peek(addr) == bus_peek(b, addr),
        b.after_read(addr) == bus_after_read(b, addr),
        b.written(addr, val, &q) == bus_written(b, addr, val, q),
{
}

impl Memory for Bus {
    closed spec fn readable(&self, addr: u16) -> bool {
        bus_readable(*self, addr)
    }

    closed spec fn writable(&self, addr: u16, val: u8) -> bool {
        bus_writable(*self, addr, val)
    }

    closed spec fn peek(&self, addr: u16) -> u8 {
        bus_peek(*self, addr)
    }

    closed spec fn after_read(&self, addr: u16) -> Self {
        bus_after_read(*self, addr)
    }

    closed spec fn written(&self, addr: u16, val: u8, after: &Self) -> bool {
        bus_written(*self, addr, val, *after)
    }

    fn read_byte(&mut self, addr: u16) -> (v: u8) {
        proof {
            lemma_u16_bits(addr);
        }
        if addr <= 0x1fff {
            self.ram.read_byte(addr)
        } else if addr <= 0x3fff {
            self.ppu.read_register(0x2000 + (addr & 7))
        } else if addr == 0x4016 {
            self.joypad1.read()
        } else if addr <= 0x4017 {
            self.apu.read(addr)
        } else if addr <= 0x401F {
            // APU and I/O functionality that is normally disabled.
            0
        } else {
            self.ppu.rom.mapper.read(&mut self.ppu.rom.cart, addr)
        }
    }

    #[verifier::rlimit(30)]
    fn write_byte(&mut self, addr: u16, val: u8) {
        proof {
            lemma_u16_bits(addr);
        }
        if addr <= 0x1fff {
            self.ram.write_byte(addr, val);
            assert(self.ram.0@ =~= ram_written(*old(self), addr, val).ram.0@);
            assert(self.ram.0 =~= ram_written(*old(self), addr, val).ram.0);
            assert(*self == ram_written(*old(self), addr, val));
            assert(bus_wf(*self));
        } else if addr <= 0x3fff {
            self.ppu.write_register(0x2000 + (addr & 7), val);
            assert(ppu_register_written(*old(self), ppu_register(addr), val, *self));
            assert(bus_wf(*self));
        } else if addr == 0x4014 {
            self.write_oam_dma(val);
        } else if addr == 0x4016 {
            self.joypad1.write(val);
            assert(*self == joypad_strobed(*old(self), val));
            assert(bus_wf(*self));
        } else if addr <= 0x4017 {
            self.apu.write(addr, val);
            assert(bus_wf(*self));
        } else if addr <= 0x401F {
            // APU and I/O functionality that is normally disabled.
        } else {
            let ghost before = self.ppu.scanline_sprites;
            self.ppu.rom.mapper.write(&mut self.ppu.rom.cart, addr, val);
            assert(self.ppu.scanline_sprites == before);
            proof {
                lemma_ppu_wf_rom(old(self).ppu, self.ppu.rom);
            }
            assert(cartridge_written(*old(self), addr, val, *self));
            assert(bus_wf(*self));
        }
    }
}


/// The reset vector of a freshly built bus can be read where the
/// cartridge answers its two bytes.
pub proof fn lemma_reset_vector_readable(b: Bus)
    requires
        bus_wf(b),
        b.ppu.rom.mapper.read_ok(&b.ppu.rom.cart, 0xFFFC),
        b.ppu.rom.mapper.read_ok(&b.ppu.rom.cart, 0xFFFD),
    ensures
        b.readable(0xFFFD),
        b.after_read(0xFFFD).readable(0xFFFC),
        b.after_read(0xFFFD).after_read(0xFFFC) == b,
        b.after_read(0xFFFD) == b,
        b.peek(0xFFFC) == b.ppu.rom.mapper.read_value(&b.ppu.rom.cart, 0xFFFC),
        b.peek(0xFFFD) == b.ppu.rom.mapper.read_value(&b.ppu.rom.cart, 0xFFFD),
{
}

} // verus!
