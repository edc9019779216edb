pub mod assembler;
pub mod disassembler;
pub mod instructions;
pub mod mappers;
pub mod memory;
pub mod opcodes;
pub mod rom;
pub mod trace;

use vstd::prelude::*;
use crate::bus::{bus_wf, lemma_ram_read, lemma_ram_write, ram_written, Bus};
use self::memory::Memory;
use self::opcodes::AddressingMode;

verus! {

pub const RESET_VECTOR: u16 = 0xfffc;
pub const NMI_VECTOR: u16 = 0xfffa;
pub const IRQ_VECTOR: u16 = 0xfffe;
pub const STACK_START: u16 = 0x100;
pub const STACK_TOP: u8 = 0xfd;
pub const DEFAULT_STATUS_STATE: u8 = 0b0010_0100;

// 7  bit  0
// ---- ----
// NVss DIZC
// |||| ||||
// |||| |||+- Carry
// |||| ||+-- Zero
// |||| |+--- Interrupt Disable
// |||| +---- Decimal
// ||++------ No CPU effect, see: the B flag
// |+-------- Overflow
// +--------- Negative
pub const CARRY: u8 = 0b0000_0001;
pub const ZERO: u8 = 0b0000_0010;
pub const INTERRUPT_DISABLE: u8 = 0b0000_0100;
pub const DECIMAL: u8 = 0b0000_1000;
pub const BREAK1: u8 = 0b0001_0000;
pub const BREAK2: u8 = 0b0010_0000;
pub const OVERFLOW: u8 = 0b0100_0000;
pub const NEGATIVE: u8 = 0b1000_0000;

/// The state of a MOS 6502 CPU and the bus it drives.
#[allow(clippy::upper_case_acronyms)]
pub struct CPU {
    pub a: u8,
    pub x: u8,
    pub y: u8,
    pub pc: u16,
    pub sp: u8,
    pub status: u8,
    pub instr_cycles: u32,
    pub total_cycles: u64,
    pub stall: u32,
    pub bus: Bus,
}

/// Flag `f` is set in status byte `s`.
pub open spec fn flag(s: u8, f: u8) -> bool {
    s & f == f
}

/// Status byte `s` with flag `f` set to `b`.
pub open spec fn with_flag(s: u8, f: u8, b: bool) -> u8 {
    if b {
        s | f
    } else {
        s & !f
    }
}

/// Status byte `s` with the negative and zero flags set from `v`.
pub open spec fn nz(s: u8, v: u8) -> u8 {
    with_flag(with_flag(s, NEGATIVE, v >> 7u8 == 1), ZERO, v == 0)
}

/// The CPU after the bus serves a read of `addr`.
pub open spec fn read_at(c: CPU, addr: u16) -> CPU {
    CPU { bus: c.bus.after_read(addr), ..c }
}

/// `v` modulo 2^16.
pub open spec fn wrap16(v: int) -> u16 {
    (v % 0x1_0000) as u16
}

/// `v` modulo 2^8.
pub open spec fn wrap8(v: int) -> u8 {
    (v % 0x100) as u8
}

/// The byte at the program counter, and the CPU past it.
pub open spec fn next_byte(c: CPU) -> (u8, CPU) {
    (c.bus.peek(c.pc), CPU { pc: wrap16(c.pc + 1), ..read_at(c, c.pc) })
}

/// The little-endian word at the program counter, and the CPU past it.
pub open spec fn next_word(c: CPU) -> (u16, CPU) {
    let c1 = read_at(c, c.pc);
    let lo = c.bus.peek(c.pc);
    let hi = c1.bus.peek((c.pc + 1) as u16);
    ((hi * 256 + lo) as u16, CPU { pc: wrap16(c.pc + 2), ..read_at(c1, (c.pc + 1) as u16) })
}

/// Reading the word at the program counter stays in range.
pub open spec fn next_word_ok(c: CPU) -> bool {
    c.pc < 0xFFFF && c.bus.readable(c.pc) && read_at(c, c.pc).bus.readable((c.pc + 1) as u16)
}

/// The word at `addr`, high byte read first, and the CPU after both reads.
pub open spec fn read_word(c: CPU, addr: u16) -> (u16, CPU) {
    let c1 = read_at(c, (addr + 1) as u16);
    let hi = c.bus.peek((addr + 1) as u16);
    let lo = c1.bus.peek(addr);
    ((hi * 256 + lo) as u16, read_at(c1, addr))
}

/// Reading the word at `addr` stays in range.
pub open spec fn read_word_ok(c: CPU, addr: u16) -> bool {
    addr < 0xFFFF && c.bus.readable((addr + 1) as u16) && read_at(
        c,
        (addr + 1) as u16,
    ).bus.readable(addr)
}

/// The two addresses lie on different pages.
pub open spec fn page_crossed(prev: u16, next: u16) -> bool {
    prev / 256 != next / 256
}

/// The CPU after counting a page-crossing cycle, if one is due.
pub open spec fn cross_cycle(c: CPU, prev: u16, next: u16, add: bool) -> CPU {
    if add && page_crossed(prev, next) {
        CPU { instr_cycles: (c.instr_cycles + 1) as u32, ..c }
    } else {
        c
    }
}

/// The operand address of an addressing mode, and the CPU after the reads
/// that find it; `add` counts the extra cycle of an indexed access that
/// crosses a page.
pub open spec fn operand(c: CPU, mode: AddressingMode, add: bool) -> (u16, CPU) {
    match mode {
        AddressingMode::Immediate => (c.pc, CPU { pc: wrap16(c.pc + 1), ..c }),
        AddressingMode::ZeroPage => (next_byte(c).0 as u16, next_byte(c).1),
        AddressingMode::ZeroPageX => (wrap8(next_byte(c).0 + c.x) as u16, next_byte(c).1),
        AddressingMode::ZeroPageY => (wrap8(next_byte(c).0 + c.y) as u16, next_byte(c).1),
        AddressingMode::Absolute => next_word(c),
        AddressingMode::AbsoluteX => {
            let (w, c1) = next_word(c);
            let r = wrap16(w + c.x);
            (r, cross_cycle(c1, w, r, add))
        },
        AddressingMode::AbsoluteY => {
            let (w, c1) = next_word(c);
            let r = wrap16(w + c.y);
            (r, cross_cycle(c1, w, r, add))
        },
        AddressingMode::IndirectX => {
            let (b, c1) = next_byte(c);
            let a1 = wrap8(b + c.x) as u16;
            let a2 = wrap8(b + c.x + 1) as u16;
            let c2 = read_at(c1, a1);
            ((c1.bus.peek(a1) + c2.bus.peek(a2) * 256) as u16, read_at(c2, a2))
        },
        AddressingMode::IndirectY => {
            let (b, c1) = next_byte(c);
            let a1 = b as u16;
            let a2 = wrap8(b + 1) as u16;
            let c2 = read_at(c1, a1);
            let base = (c1.bus.peek(a1) + c2.bus.peek(a2) * 256) as u16;
            let r = wrap16(base + c.y);
            (r, cross_cycle(read_at(c2, a2), base, r, add))
        },
        _ => (0, c),
    }
}

/// The reads that find the operand stay in range.
pub open spec fn operand_ok(c: CPU, mode: AddressingMode) -> bool {
    match mode {
        AddressingMode::Immediate => true,
        AddressingMode::ZeroPage | AddressingMode::ZeroPageX | AddressingMode::ZeroPageY => c.bus.readable(c.pc),
        AddressingMode::Absolute | AddressingMode::AbsoluteX | AddressingMode::AbsoluteY => next_word_ok(c),
        AddressingMode::IndirectX => {
            let (b, c1) = next_byte(c);
            let a1 = wrap8(b + c.x) as u16;
            c.bus.readable(c.pc) && c1.bus.readable(a1) && read_at(c1, a1).bus.readable(
                wrap8(b + c.x + 1) as u16,
            )
        },
        AddressingMode::IndirectY => {
            let (b, c1) = next_byte(c);
            c.bus.readable(c.pc) && c1.bus.readable(b as u16) && read_at(c1, b as u16).bus.readable(
                wrap8(b + 1) as u16,
            )
        },
        _ => false,
    }
}

/// The CPU after `val` is pushed on the stack.
pub open spec fn pushed(c: CPU, val: u8) -> CPU {
    CPU { bus: ram_written(c.bus, (STACK_START + c.sp) as u16, val), sp: wrap8(c.sp - 1), ..c }
}

/// The byte pulled off the stack, and the CPU after.
pub open spec fn pulled(c: CPU) -> (u8, CPU) {
    let sp = wrap8(c.sp + 1);
    let addr = (STACK_START + sp) as u16;
    (c.bus.peek(addr), CPU { sp, bus: c.bus.after_read(addr), ..c })
}

/// The CPU after a word is pushed, high byte first.
pub open spec fn pushed_word(c: CPU, val: u16) -> CPU {
    pushed(pushed(c, (val / 256) as u8), (val % 256) as u8)
}

/// The word pulled off the stack, low byte first, and the CPU after.
pub open spec fn pulled_word(c: CPU) -> (u16, CPU) {
    let (lo, c1) = pulled(c);
    let (hi, c2) = pulled(c1);
    ((hi * 256 + lo) as u16, c2)
}

/// The status byte pushed by PHP, BRK and interrupts: both break bits set.
pub open spec fn pushed_status(s: u8) -> u8 {
    s | BREAK1 | BREAK2
}

/// The CPU after an interrupt sequence: the program counter and status
/// pushed, interrupts disabled, and the vector loaded.
pub open spec fn interrupted(c: CPU, vector: u16) -> CPU {
    let c1 = pushed(pushed_word(c, c.pc), pushed_status(c.status));
    let c2 = CPU { status: c1.status | INTERRUPT_DISABLE, ..c1 };
    let (target, c3) = read_word(c2, vector);
    CPU { pc: target, ..c3 }
}

/// The reads of an interrupt sequence stay in range.
pub open spec fn interrupt_ok(c: CPU, vector: u16) -> bool {
    let c1 = pushed(pushed_word(c, c.pc), pushed_status(c.status));
    let c2 = CPU { status: c1.status | INTERRUPT_DISABLE, ..c1 };
    bus_wf(c.bus) && read_word_ok(c2, vector)
}

impl CPU {
    /// A CPU at power-on: registers cleared, the stack pointer at $FD and
    /// the program counter loaded from the reset vector.
    pub fn new(bus: Bus) -> (c: CPU)
        requires
            bus.readable((RESET_VECTOR + 1) as u16),
            bus.after_read((RESET_VECTOR + 1) as u16).readable(RESET_VECTOR),
        ensures
            c.a == 0 && c.x == 0 && c.y == 0,
            c.sp == STACK_TOP && c.status == DEFAULT_STATUS_STATE,
            c.instr_cycles == 0 && c.total_cycles == 0 && c.stall == 0,
            c.pc == bus.after_read((RESET_VECTOR + 1) as u16).peek(RESET_VECTOR) + 256 * bus.peek(
                (RESET_VECTOR + 1) as u16,
            ),
            c.bus == bus.after_read((RESET_VECTOR + 1) as u16).after_read(RESET_VECTOR),
    {
        let mut bus = bus;
        let pc = bus.read_word(RESET_VECTOR);
        CPU {
            a: 0,
            x: 0,
            y: 0,
            pc,
            sp: STACK_TOP,
            status: DEFAULT_STATUS_STATE,
            instr_cycles: 0,
            total_cycles: 0,
            stall: 0,
            bus,
        }
    }

    /// Clears the registers and reloads the program counter from the reset
    /// vector.
    pub fn reset(&mut self)
        requires
            read_word_ok(*old(self), RESET_VECTOR),
        ensures
            *final(self) == ({
                let (pc, c) = read_word(*old(self), RESET_VECTOR);
                CPU {
                    a: 0,
                    x: 0,
                    y: 0,
                    sp: STACK_TOP,
                    instr_cycles: 0,
                    status: DEFAULT_STATUS_STATE,
                    pc,
                    ..c
                }
            }),
    {
        self.a = 0;
        self.x = 0;
        self.y = 0;
        self.sp = STACK_TOP;
        self.instr_cycles = 0;
        self.status = DEFAULT_STATUS_STATE;
        self.pc = self.bus.read_word(RESET_VECTOR);
    }

    // Memory utils

    #[inline]
    fn read(&mut self, addr: u16) -> (v: u8)
        requires
            old(self).bus.readable(addr),
        ensures
            v == old(self).bus.peek(addr),
            *final(self) == read_at(*old(self), addr),
    {
        self.bus.read_byte(addr)
    }

    #[inline]
    fn read_word(&mut self, addr: u16) -> (w: u16)
        requires
            read_word_ok(*old(self), addr),
        ensures
            (w, *final(self)) == read_word(*old(self), addr),
    {
        self.bus.read_word(addr)
    }

    #[inline]
    fn next_byte(&mut self) -> (b: u8)
        requires
            old(self).bus.readable(old(self).pc),
        ensures
            (b, *final(self)) == next_byte(*old(self)),
    {
        let byte = self.read(self.pc);
        self.pc = self.pc.wrapping_add(1);
        byte
    }

    #[inline]
    fn next_word(&mut self) -> (w: u16)
        requires
            next_word_ok(*old(self)),
        ensures
            (w, *final(self)) == next_word(*old(self)),
    {
        let low = self.read(self.pc) as u16;
        let high = self.read(self.pc + 1) as u16;
        self.pc = self.pc.wrapping_add(2);
        proof {
            crate::bits::lemma_join16(high, low);
        }
        high << 8 | low
    }

    // Stack utils

    #[inline]
    fn push(&mut self, val: u8)
        requires
            bus_wf(old(self).bus),
        ensures
            *final(self) == pushed(*old(self), val),
            bus_wf(final(self).bus),
    {
        let addr = STACK_START + self.sp as u16;
        proof {
            crate::bus::lemma_ram_write(self.bus, addr, val);
        }
        self.bus.write_byte(addr, val);
        self.sp = self.sp.wrapping_sub(1);
    }

    fn push_word(&mut self, val: u16)
        requires
            bus_wf(old(self).bus),
        ensures
            *final(self) == pushed_word(*old(self), val),
            bus_wf(final(self).bus),
    {
        proof {
            crate::bits::lemma_u16_bits(val);
        }
        let high = (val >> 8) as u8;
        let low = (val & 0xff) as u8;

        self.push(high);
        self.push(low);
    }

    #[inline]
    fn pull(&mut self) -> (v: u8)
        requires
            bus_wf(old(self).bus),
        ensures
            (v, *final(self)) == pulled(*old(self)),
            bus_wf(final(self).bus),
    {
        self.sp = self.sp.wrapping_add(1);
        let addr = STACK_START + self.sp as u16;
        proof {
            crate::bus::lemma_ram_read(self.bus, addr);
        }
        self.read(addr)
    }

    #[inline]
    fn pull_word(&mut self) -> (w: u16)
        requires
            bus_wf(old(self).bus),
        ensures
            (w, *final(self)) == pulled_word(*old(self)),
            bus_wf(final(self).bus),
    {
        let low = self.pull() as u16;
        let high = self.pull() as u16;
        proof {
            crate::bits::lemma_join16(high, low);
        }
        high << 8 | low
    }

    /// An absolute address plus an index register.
    fn absolute_indexed(&mut self, index: u8, add_on_boundary_crossed: bool) -> (addr: u16)
        requires
            next_word_ok(*old(self)),
            old(self).instr_cycles < 0x1000,
        ensures
            ({
                let (w, c1) = next_word(*old(self));
                let r = wrap16(w + index);
                addr == r && *final(self) == cross_cycle(c1, w, r, add_on_boundary_crossed)
            }),
    {
        let addr = self.next_word();
        let res = addr.wrapping_add(index as u16);
        // if page boundary crossed
        if add_on_boundary_crossed && addr / 256 != res / 256 {
            self.instr_cycles += 1;
        }
        res
    }

    // indexed_indirect
    fn indirect_x(&mut self) -> (addr: u16)
        requires
            operand_ok(*old(self), AddressingMode::IndirectX),
        ensures
            (addr, *final(self)) == operand(*old(self), AddressingMode::IndirectX, false),
    {
        // val = PEEK(PEEK((arg + X) % 256) + PEEK((arg + X + 1) % 256) * 256)
        let x = self.x;
        let addr = self.next_byte();
        let addr1 = addr.wrapping_add(x);
        let addr2 = addr1.wrapping_add(1);
        let val1 = self.read(addr1 as u16);
        let val2 = self.read(addr2 as u16);
        (val1 as u16) + (val2 as u16) * 256
    }

    // indirect_indexed
    #[verifier::rlimit(50)]
    fn indirect_y(&mut self, add_on_boundary_crossed: bool) -> (addr: u16)
        requires
            operand_ok(*old(self), AddressingMode::IndirectY),
            old(self).instr_cycles < 0x1000,
        ensures
            (addr, *final(self)) == operand(
                *old(self),
                AddressingMode::IndirectY,
                add_on_boundary_crossed,
            ),
    {
        // val = PEEK(PEEK(arg) + PEEK((arg + 1) % 256) * 256 + Y)
        let addr1 = self.next_byte();
        let addr2 = addr1.wrapping_add(1);
        let val1 = self.read(addr1 as u16);
        let val2 = self.read(addr2 as u16);
        let addr = (val1 as u16) + (val2 as u16) * 256;
        let final_addr = addr.wrapping_add(self.y as u16);

        if add_on_boundary_crossed && addr / 256 != final_addr / 256 {
            self.instr_cycles += 1;
        }
        final_addr
    }

    /// The address of the operand, after the reads that find it.
    #[verifier::rlimit(50)]
    fn operand_address(&mut self, mode: AddressingMode, add_on_boundary_crossed: bool) -> (addr:
        u16)
        requires
            operand_ok(*old(self), mode),
            old(self).instr_cycles < 0x1000,
        ensures
            (addr, *final(self)) == operand(*old(self), mode, add_on_boundary_crossed),
            final(self).instr_cycles <= old(self).instr_cycles + 1,
    {
        match mode {
            AddressingMode::Immediate => {
                let addr = self.pc;
                self.pc = self.pc.wrapping_add(1);
                addr
            },
            AddressingMode::ZeroPage => self.next_byte() as u16,
            AddressingMode::ZeroPageX => {
                let x = self.x;
                self.next_byte().wrapping_add(x) as u16
            },
            AddressingMode::ZeroPageY => {
                let y = self.y;
                self.next_byte().wrapping_add(y) as u16
            },
            AddressingMode::Absolute => self.next_word(),
            AddressingMode::AbsoluteX => {
                let x = self.x;
                self.absolute_indexed(x, add_on_boundary_crossed)
            },
            AddressingMode::AbsoluteY => {
                let y = self.y;
                self.absolute_indexed(y, add_on_boundary_crossed)
            },
            AddressingMode::IndirectX => self.indirect_x(),
            _ => self.indirect_y(add_on_boundary_crossed),
        }
    }

    #[inline]
    fn toggle_nz(&mut self, val: u8)
        ensures
            *final(self) == (CPU { status: nz(old(self).status, val), ..*old(self) }),
    {
        self.set_flag(NEGATIVE, val >> 7 == 1);
        self.set_flag(ZERO, val == 0);
    }

    #[inline]
    fn set_flag(&mut self, f: u8, b: bool)
        ensures
            *final(self) == (CPU { status: with_flag(old(self).status, f, b), ..*old(self) }),
    {
        if b {
            self.status = self.status | f;
        } else {
            self.status = self.status & !f;
        }
    }

    #[inline]
    fn has_flag(&self, f: u8) -> (b: bool)
        ensures
            b == flag(self.status, f),
    {
        self.status & f == f
    }
}


/// Pulling right after a push gives back the pushed byte and restores the
/// stack pointer; the stack page keeps the byte.
pub proof fn law_push_pull(c: CPU, v: u8)
    requires
        bus_wf(c.bus),
    ensures
        pulled(pushed(c, v)).0 == v,
        pulled(pushed(c, v)).1 == (CPU {
            bus: ram_written(c.bus, (STACK_START + c.sp) as u16, v),
            ..c
        }),
{
    let addr = (STACK_START + c.sp) as u16;
    lemma_ram_write(c.bus, addr, v);
    let b = ram_written(c.bus, addr, v);
    assert(wrap8(wrap8(c.sp - 1) + 1) == c.sp);
    lemma_ram_read(b, addr);
}

/// Pulling a word right after pushing one gives it back and restores the
/// stack pointer.
pub proof fn law_push_pull_word(c: CPU, w: u16)
    requires
        bus_wf(c.bus),
    ensures
        pulled_word(pushed_word(c, w)).0 == w,
        pulled_word(pushed_word(c, w)).1.sp == c.sp,
        pulled_word(pushed_word(c, w)).1.pc == c.pc,
        bus_wf(pulled_word(pushed_word(c, w)).1.bus),
{
    let hi = (w / 256) as u8;
    let lo = (w % 256) as u8;
    let c1 = pushed(c, hi);
    lemma_ram_write(c.bus, (STACK_START + c.sp) as u16, hi);
    law_push_pull(c1, lo);
    let c2 = pulled(pushed(c1, lo)).1;
    assert(c2 == CPU { bus: ram_written(c1.bus, (STACK_START + c1.sp) as u16, lo), ..c1 });
    lemma_ram_write(c1.bus, (STACK_START + c1.sp) as u16, lo);
    let b2 = c2.bus;
    let addr_hi = (STACK_START + c.sp) as u16;
    let addr_lo = (STACK_START + c1.sp) as u16;
    assert(addr_hi % 0x800 != addr_lo % 0x800);
    assert(wrap8(c2.sp + 1) == c.sp);
    lemma_ram_read(b2, addr_hi);
    assert(b2.ram.0@[(addr_hi % 0x800) as int] == hi);
}

} // verus!
