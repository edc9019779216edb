use vstd::prelude::*;
use crate::bus::{apu_ran, bus_wf, lemma_reset_vector_readable, ppu_ran, ppu_run_ok, Bus};
use crate::cpu::instructions::{step_ok, stepped};
use crate::cpu::mappers::Mapper;
use crate::cpu::memory::Memory;
use crate::cpu::rom::ROM;
use crate::cpu::{CPU, DEFAULT_STATUS_STATE, STACK_TOP};
use crate::apu::apu_power_on;
use crate::ppu::{ppu_power_on, PPU};
use crate::ppu::screen::{Screen, SCREEN_BYTES};

verus! {

/// The console: the CPU with its bus, and the frame the PPU draws into.
pub struct Nes {
    pub cpu: CPU,
    pub frame: Screen,
}

/// The bus can run `cycles` CPU cycles: three PPU dots and one APU cycle
/// for each.
pub open spec fn advance_ok(b: Bus, cycles: u32) -> bool {
    &&& cycles <= u32::MAX / 3
    &&& ppu_run_ok(b.ppu, 3 * cycles as nat)
    &&& b.apu.wf()
    &&& b.apu.cycle + cycles < u32::MAX
    &&& b.apu.frame_counter + cycles < u32::MAX
}

/// `q` is the console `c` after one step that took `cycles` CPU cycles: the
/// CPU's step, then the PPU and the APU run for those cycles; `qpix` is the
/// frame `pix` with the pixels the PPU drew meanwhile.
pub open spec fn nes_stepped(c: CPU, pix: Seq<u8>, q: CPU, qpix: Seq<u8>, cycles: u32) -> bool {
    exists|s: CPU|
        #![trigger stepped(c, s, cycles)]
        {
            &&& stepped(c, s, cycles)
            &&& ppu_ran(s.bus.ppu, pix, 3 * cycles as nat, q.bus.ppu, qpix)
            &&& q.bus.apu == apu_ran(s.bus.apu, cycles as nat)
            &&& q == (CPU { bus: Bus { ppu: q.bus.ppu, apu: q.bus.apu, ..s.bus }, ..s })
        }
}

/// Every way the CPU's next step can go leaves the bus able to run the
/// cycles it took.
pub open spec fn nes_step_ok(c: CPU) -> bool {
    &&& step_ok(c)
    &&& forall|s: CPU, k: u32| #[trigger] stepped(c, s, k) ==> advance_ok(s.bus, k)
}

/// The console `c` with frame `pix` is still in range for up to `n` more
/// steps, and the PPU completes a frame within them: every way the steps
/// can go keeps each step in range until the frame is complete.
pub open spec fn frame_run_ok(c: CPU, pix: Seq<u8>, n: nat) -> bool
    decreases n,
{
    c.bus.ppu.frame_complete || (n > 0 && nes_step_ok(c) && forall|m: CPU, mpix: Seq<u8>, k: u32|
        #[trigger] nes_stepped(c, pix, m, mpix, k) ==> frame_run_ok(m, mpix, (n - 1) as nat))
}

/// `q` and `qpix` are the console `c` and frame `pix` after stepping, at
/// most `n` times, until the PPU reports a complete frame, the report then
/// taken back.
pub open spec fn frame_run(c: CPU, pix: Seq<u8>, n: nat, q: CPU, qpix: Seq<u8>) -> bool
    decreases n,
{
    if c.bus.ppu.frame_complete {
        q == (CPU { bus: Bus { ppu: PPU { frame_complete: false, ..c.bus.ppu }, ..c.bus }, ..c })
            && qpix == pix
    } else if n == 0 {
        false
    } else {
        exists|m: CPU, mpix: Seq<u8>, k: u32|
            #[trigger] nes_stepped(c, pix, m, mpix, k) && frame_run(m, mpix, (n - 1) as nat, q, qpix)
    }
}

impl Nes {
    /// A console at power-on with cartridge `rom`, whose reset vector the
    /// cartridge answers.
    pub fn new(rom: ROM) -> (n: Nes)
        requires
            rom.mapper.inv(),
            rom.mapper.read_ok(&rom.cart, 0xFFFC),
            rom.mapper.read_ok(&rom.cart, 0xFFFD),
        ensures
            bus_wf(n.cpu.bus),
            n.cpu.bus.ppu.rom == rom && ppu_power_on(n.cpu.bus.ppu),
            apu_power_on(n.cpu.bus.apu),
            forall|i: int| 0 <= i < 0x800 ==> n.cpu.bus.ram.0@[i] == 0,
            !n.cpu.bus.joypad1.strobe && n.cpu.bus.joypad1.index == 0 && n.cpu.bus.joypad1.status == 0,
            !n.cpu.bus.joypad2.strobe && n.cpu.bus.joypad2.index == 0 && n.cpu.bus.joypad2.status == 0,
            !n.cpu.bus.dma_transfer,
            n.cpu.a == 0 && n.cpu.x == 0 && n.cpu.y == 0,
            n.cpu.sp == STACK_TOP && n.cpu.status == DEFAULT_STATUS_STATE,
            n.cpu.instr_cycles == 0 && n.cpu.total_cycles == 0 && n.cpu.stall == 0,
            n.cpu.pc == rom.mapper.read_value(&rom.cart, 0xFFFC) + 256 * rom.mapper.read_value(
                &rom.cart,
                0xFFFD,
            ),
            forall|i: int| 0 <= i < SCREEN_BYTES ==> n.frame.pixels@[i] == 0,
    {
        let bus = Bus::new(rom);
        proof {
            lemma_reset_vector_readable(bus);
        }
        let cpu = CPU::new(bus);
        Nes { cpu, frame: Screen::new() }
    }

    /// One CPU step, then the PPU and the APU run for the cycles it took;
    /// returns those cycles.
    pub fn step(&mut self) -> (cycles: u32)
        requires
            nes_step_ok(old(self).cpu),
        ensures
            nes_stepped(
                old(self).cpu,
                old(self).frame.pixels@,
                final(self).cpu,
                final(self).frame.pixels@,
                cycles,
            ),
    {
        let ghost c = self.cpu;
        let ghost pix = self.frame.pixels@;
        let cycles = self.cpu.step();
        let ghost s = self.cpu;
        assert(stepped(c, s, cycles));
        self.cpu.bus.advance(cycles, &mut self.frame);
        assert(nes_stepped(c, pix, self.cpu, self.frame.pixels@, cycles));
        cycles
    }

    /// Steps until the PPU reports a complete frame, then takes the report
    /// back.
    pub fn next_frame(&mut self)
        requires
            exists|n: nat| frame_run_ok(old(self).cpu, old(self).frame.pixels@, n),
        ensures
            exists|n: nat|
                frame_run(
                    old(self).cpu,
                    old(self).frame.pixels@,
                    n,
                    final(self).cpu,
                    final(self).frame.pixels@,
                ),
    {
        let ghost c0 = self.cpu;
        let ghost pix0 = self.frame.pixels@;
        let ghost n0: nat = choose|n: nat| frame_run_ok(c0, pix0, n);
        let ghost mut n: nat = n0;
        while !self.cpu.bus.ppu.frame_complete
            invariant
                frame_run_ok(self.cpu, self.frame.pixels@, n),
                forall|q: CPU, qpix: Seq<u8>|
                    frame_run(self.cpu, self.frame.pixels@, n, q, qpix) ==> #[trigger] frame_run(
                        c0,
                        pix0,
                        n0,
                        q,
                        qpix,
                    ),
            decreases n,
        {
            let ghost cur = self.cpu;
            let ghost curpix = self.frame.pixels@;
            let cycles = self.step();
            proof {
                assert(nes_stepped(cur, curpix, self.cpu, self.frame.pixels@, cycles));
                assert forall|q: CPU, qpix: Seq<u8>|
                    frame_run(self.cpu, self.frame.pixels@, (n - 1) as nat, q, qpix) implies #[trigger] frame_run(
                    c0,
                    pix0,
                    n0,
                    q,
                    qpix,
                ) by {
                    assert(frame_run(cur, curpix, n, q, qpix));
                }
                n = (n - 1) as nat;
            }
        }
        let ghost done = self.cpu;
        self.cpu.bus.ppu.frame_complete = false;
        assert(frame_run(done, self.frame.pixels@, n, self.cpu, self.frame.pixels@));
        assert(frame_run(c0, pix0, n0, self.cpu, self.frame.pixels@));
    }
}

} // verus!
