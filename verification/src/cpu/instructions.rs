use vstd::prelude::*;
use crate::bus::{bus_wf, interrupt_pulled, lemma_cart_read_unchanged, lemma_ram_read, lemma_ram_write, ram_written, Bus, Interrupt};
use super::memory::Memory;
use super::opcodes::{decode, decoded, AddressingMode, Op, INST_CYCLES};
use super::{
    flag, interrupt_ok, interrupted, next_byte, next_word, next_word_ok, nz, operand, operand_ok,
    page_crossed, pulled, pulled_word, pushed, pushed_status, pushed_word, read_at, read_word,
    read_word_ok, with_flag, wrap16, wrap8, law_push_pull, BREAK1, BREAK2, CARRY, CPU, DECIMAL,
    INTERRUPT_DISABLE, IRQ_VECTOR, NEGATIVE, NMI_VECTOR, OVERFLOW, STACK_START, ZERO,
};

verus! {

// ---------------------------------------------------------------------------
// What each operation does
// ---------------------------------------------------------------------------

/// The operations that take a value read from their operand.
pub open spec fn is_read_op(op: Op) -> bool {
    matches!(op, Op::Lda | Op::Ldx | Op::Ldy | Op::Adc | Op::Sbc | Op::And | Op::Ora | Op::Eor | Op::Compare | Op::Cpx | Op::Cpy | Op::Bit)
}

/// The operations that store a register.
pub open spec fn is_store_op(op: Op) -> bool {
    matches!(op, Op::Sta | Op::Stx | Op::Sty)
}

/// The read-modify-write operations.
pub open spec fn is_rmw_op(op: Op) -> bool {
    matches!(op, Op::Asl | Op::Lsr | Op::Rol | Op::Ror | Op::Inc | Op::Dec)
}

/// The conditional branches.
pub open spec fn is_branch_op(op: Op) -> bool {
    matches!(op, Op::Bcc | Op::Bcs | Op::Beq | Op::Bne | Op::Bpl | Op::Bmi | Op::Bvc | Op::Bvs)
}

/// ADC: A + M + C, carry out of bit 7, signed overflow when both operands
/// have a sign the result lacks.
pub open spec fn adc(c: CPU, v: u8) -> CPU {
    let sum = c.a + v + if flag(c.status, CARRY) {
        1int
    } else {
        0
    };
    let r = wrap8(sum);
    let s1 = with_flag(c.status, CARRY, sum > 0xff);
    let s2 = with_flag(s1, OVERFLOW, (v ^ r) & (r ^ c.a) & 0x80 != 0);
    CPU { a: r, status: nz(s2, r), ..c }
}

/// SBC: A - M - (1 - C), carry set when no borrow.
pub open spec fn sbc(c: CPU, v: u8) -> CPU {
    let d = c.a - v - if flag(c.status, CARRY) {
        0int
    } else {
        1
    };
    let r = wrap8(d);
    let s1 = with_flag(c.status, OVERFLOW, (c.a ^ v) & (c.a ^ r) & 0x80 == 0x80);
    let s2 = with_flag(s1, CARRY, d >= 0);
    CPU { a: r, status: nz(s2, r), ..c }
}

/// CMP, CPX, CPY: carry when the register is at least the value, N and Z
/// from their difference.
pub open spec fn compared(s: u8, reg: u8, v: u8) -> u8 {
    nz(with_flag(s, CARRY, reg >= v), wrap8(reg - v))
}

/// An operation on a value read from memory.
pub open spec fn read_op(c: CPU, op: Op, v: u8) -> CPU {
    match op {
        Op::Lda => CPU { a: v, status: nz(c.status, v), ..c },
        Op::Ldx => CPU { x: v, status: nz(c.status, v), ..c },
        Op::Ldy => CPU { y: v, status: nz(c.status, v), ..c },
        Op::Adc => adc(c, v),
        Op::Sbc => sbc(c, v),
        Op::And => CPU { a: c.a & v, status: nz(c.status, c.a & v), ..c },
        Op::Ora => CPU { a: c.a | v, status: nz(c.status, c.a | v), ..c },
        Op::Eor => CPU { a: c.a ^ v, status: nz(c.status, c.a ^ v), ..c },
        Op::Compare => CPU { status: compared(c.status, c.a, v), ..c },
        Op::Cpx => CPU { status: compared(c.status, c.x, v), ..c },
        Op::Cpy => CPU { status: compared(c.status, c.y, v), ..c },
        _ => CPU {
            status: with_flag(
                with_flag(with_flag(c.status, ZERO, c.a & v == 0), OVERFLOW, v & 0x40 != 0),
                NEGATIVE,
                v & 0x80 != 0,
            ),
            ..c
        },
    }
}

/// The result of a shift, rotate, increment or decrement of `v`.
pub open spec fn rmw_value(op: Op, v: u8, s: u8) -> u8 {
    match op {
        Op::Asl => (v << 1u8) as u8,
        Op::Lsr => v >> 1u8,
        Op::Rol => ((v << 1u8) as u8) | if flag(s, CARRY) {
            1u8
        } else {
            0u8
        },
        Op::Ror => if flag(s, CARRY) {
            (v >> 1u8) | 0x80
        } else {
            v >> 1u8
        },
        Op::Inc => wrap8(v + 1),
        _ => wrap8(v - 1),
    }
}

/// The status after a shift, rotate, increment or decrement of `v`.
pub open spec fn rmw_status(op: Op, v: u8, s: u8) -> u8 {
    let r = rmw_value(op, v, s);
    match op {
        Op::Asl => nz(with_flag(s, CARRY, v & 128 == 128), r),
        Op::Lsr => nz(with_flag(s, CARRY, v & 1 == 1), r),
        Op::Rol => nz(with_flag(s, CARRY, v >> 7u8 == 1), r),
        Op::Ror => nz(with_flag(s, CARRY, v & 1 == 1), r),
        _ => nz(s, r),
    }
}

/// An operation on the registers alone.
pub open spec fn implied_op(c: CPU, op: Op) -> CPU {
    match op {
        Op::Tax => CPU { x: c.a, status: nz(c.status, c.a), ..c },
        Op::Tay => CPU { y: c.a, status: nz(c.status, c.a), ..c },
        Op::Tsx => CPU { x: c.sp, status: nz(c.status, c.sp), ..c },
        Op::Txa => CPU { a: c.x, status: nz(c.status, c.x), ..c },
        Op::Txs => CPU { sp: c.x, ..c },
        Op::Tya => CPU { a: c.y, status: nz(c.status, c.y), ..c },
        Op::Inx => CPU { x: wrap8(c.x + 1), status: nz(c.status, wrap8(c.x + 1)), ..c },
        Op::Iny => CPU { y: wrap8(c.y + 1), status: nz(c.status, wrap8(c.y + 1)), ..c },
        Op::Dex => CPU { x: wrap8(c.x - 1), status: nz(c.status, wrap8(c.x - 1)), ..c },
        Op::Dey => CPU { y: wrap8(c.y - 1), status: nz(c.status, wrap8(c.y - 1)), ..c },
        Op::Clc => CPU { status: c.status & !CARRY, ..c },
        Op::Sec => CPU { status: c.status | CARRY, ..c },
        Op::Cld => CPU { status: c.status & !DECIMAL, ..c },
        Op::Sed => CPU { status: c.status | DECIMAL, ..c },
        Op::Cli => CPU { status: c.status & !INTERRUPT_DISABLE, ..c },
        Op::Sei => CPU { status: c.status | INTERRUPT_DISABLE, ..c },
        Op::Clv => CPU { status: c.status & !OVERFLOW, ..c },
        Op::Asl | Op::Lsr | Op::Rol | Op::Ror => CPU {
            a: rmw_value(op, c.a, c.status),
            status: rmw_status(op, c.a, c.status),
            ..c
        },
        _ => c,
    }
}

/// The flag condition a branch tests.
pub open spec fn branch_taken(op: Op, s: u8) -> bool {
    match op {
        Op::Bcc => !flag(s, CARRY),
        Op::Bcs => flag(s, CARRY),
        Op::Beq => flag(s, ZERO),
        Op::Bne => !flag(s, ZERO),
        Op::Bpl => !flag(s, NEGATIVE),
        Op::Bmi => flag(s, NEGATIVE),
        Op::Bvc => !flag(s, OVERFLOW),
        _ => flag(s, OVERFLOW),
    }
}

/// A taken branch: the signed offset after the opcode added to the program
/// counter, one extra cycle, and another when the target is on a new page.
pub open spec fn branched(c: CPU) -> CPU {
    let (b, c1) = next_byte(c);
    let target = wrap16(c1.pc + b + if b >= 128 {
        0xFF00int
    } else {
        0
    });
    let c2 = CPU { pc: target, instr_cycles: (c1.instr_cycles + 1) as u32, ..c1 };
    if page_crossed(c1.pc, target) {
        CPU { instr_cycles: (c2.instr_cycles + 1) as u32, ..c2 }
    } else {
        c2
    }
}

/// JMP ($xxxx): the 6502 fetches the high byte of a vector at $xxFF from
/// $xx00 of the same page.
pub open spec fn jumped_indirect(c: CPU) -> CPU {
    let (w, c1) = next_word(c);
    if w % 256 == 0xff {
        let lo = c1.bus.peek(w);
        let c2 = read_at(c1, w);
        let hi = c2.bus.peek((w - 0xff) as u16);
        CPU { pc: (hi * 256 + lo) as u16, ..read_at(c2, (w - 0xff) as u16) }
    } else {
        let (t, c2) = read_word(c1, w);
        CPU { pc: t, ..c2 }
    }
}

/// The reads of JMP ($xxxx) stay in range.
pub open spec fn jumped_indirect_ok(c: CPU) -> bool {
    let (w, c1) = next_word(c);
    &&& next_word_ok(c)
    &&& w % 256 == 0xff ==> c1.bus.readable(w) && read_at(c1, w).bus.readable((w - 0xff) as u16)
    &&& w % 256 != 0xff ==> read_word_ok(c1, w)
}

/// PLP: the pulled byte with the break bit cleared and bit 5 set.
pub open spec fn pulled_status(v: u8) -> u8 {
    (v & 0b11101111) | 0b00100000
}

/// The CPU after PLP.
pub open spec fn status_pulled(c: CPU) -> CPU {
    let (v, c1) = pulled(c);
    CPU { status: pulled_status(v), ..c1 }
}

/// A read instruction: the operand's value, read, fed to the operation.
#[verifier::opaque]
pub open spec fn read_result(c: CPU, op: Op, mode: AddressingMode) -> CPU {
    let (addr, c1) = operand(c, mode, true);
    read_op(read_at(c1, addr), op, c1.bus.peek(addr))
}

/// The reads of a read instruction stay in range.
#[verifier::opaque]
pub open spec fn read_ok(c: CPU, mode: AddressingMode) -> bool {
    let (addr, c1) = operand(c, mode, true);
    operand_ok(c, mode) && c1.bus.readable(addr)
}

/// The register a store instruction writes.
pub open spec fn stored_value(c: CPU, op: Op) -> u8 {
    match op {
        Op::Sta => c.a,
        Op::Stx => c.x,
        _ => c.y,
    }
}

/// A read-modify-write of memory: the CPU after the read and the flags,
/// and the write that follows.
#[verifier::opaque]
pub open spec fn rmw_result(c: CPU, op: Op, mode: AddressingMode) -> (CPU, (u16, u8)) {
    let (addr, c1) = operand(c, mode, false);
    let v = c1.bus.peek(addr);
    let c2 = read_at(c1, addr);
    (CPU { status: rmw_status(op, v, c2.status), ..c2 }, (addr, rmw_value(op, v, c2.status)))
}

/// The accesses of a read-modify-write stay in range.
#[verifier::opaque]
pub open spec fn rmw_ok(c: CPU, op: Op, mode: AddressingMode) -> bool {
    let (addr, c1) = operand(c, mode, false);
    let (c2, w) = rmw_result(c, op, mode);
    operand_ok(c, mode) && c1.bus.readable(addr) && c2.bus.writable(w.0, w.1)
}

/// A branch: taken, or skipping its offset byte.
#[verifier::opaque]
pub open spec fn branch_result(c: CPU, op: Op) -> CPU {
    if branch_taken(op, c.status) {
        branched(c)
    } else {
        CPU { pc: (c.pc + 1) as u16, ..c }
    }
}

/// A branch stays in range.
#[verifier::opaque]
pub open spec fn branch_ok(c: CPU, op: Op) -> bool {
    if branch_taken(op, c.status) {
        c.bus.readable(c.pc)
    } else {
        c.pc < 0xFFFF
    }
}

/// Jumps, stack operations and register operations.
#[verifier::opaque]
pub open spec fn other_result(c: CPU, op: Op, mode: AddressingMode) -> CPU {
    match op {
        Op::Jmp => if mode == AddressingMode::Absolute {
            CPU { pc: next_word(c).0, ..next_word(c).1 }
        } else {
            jumped_indirect(c)
        },
        Op::Pha => pushed(c, c.a),
        Op::Php => pushed(c, pushed_status(c.status)),
        Op::Pla => CPU { a: pulled(c).0, status: nz(c.status, pulled(c).0), ..pulled(c).1 },
        Op::Plp => status_pulled(c),
        Op::Jsr => {
            let c1 = pushed_word(c, (c.pc + 1) as u16);
            CPU { pc: next_word(c1).0, ..next_word(c1).1 }
        },
        Op::Rts => CPU { pc: (pulled_word(c).0 + 1) as u16, ..pulled_word(c).1 },
        Op::Rti => {
            let c1 = status_pulled(c);
            CPU { pc: pulled_word(c1).0, ..pulled_word(c1).1 }
        },
        Op::Brk => interrupted(c, IRQ_VECTOR),
        _ => implied_op(c, op),
    }
}

/// Jumps, stack operations and register operations stay in range.
#[verifier::opaque]
pub open spec fn other_ok(c: CPU, op: Op, mode: AddressingMode) -> bool {
    match op {
        Op::Jmp => if mode == AddressingMode::Absolute {
            next_word_ok(c)
        } else {
            jumped_indirect_ok(c)
        },
        Op::Jsr => c.pc < 0xFFFF && next_word_ok(pushed_word(c, (c.pc + 1) as u16)),
        Op::Rts => pulled_word(c).0 < 0xFFFF,
        Op::Brk => interrupt_ok(c, IRQ_VECTOR),
        _ => true,
    }
}

/// An instruction's effect, past its opcode: the CPU before its last bus
/// access and, for stores and read-modify-writes, that access, a write.
pub open spec fn executed(c: CPU, op: Op, mode: AddressingMode) -> (CPU, Option<(u16, u8)>) {
    if is_read_op(op) {
        (read_result(c, op, mode), None)
    } else if is_store_op(op) {
        (operand(c, mode, false).1, Some((operand(c, mode, false).0, stored_value(c, op))))
    } else if is_rmw_op(op) && mode != AddressingMode::Implied {
        (rmw_result(c, op, mode).0, Some(rmw_result(c, op, mode).1))
    } else if is_branch_op(op) {
        (branch_result(c, op), None)
    } else {
        (other_result(c, op, mode), None)
    }
}

/// Every access of the instruction stays in range and no counter
/// overflows.
pub open spec fn executed_ok(c: CPU, op: Op, mode: AddressingMode) -> bool {
    &&& bus_wf(c.bus)
    &&& c.instr_cycles < 0x1000
    &&& if is_read_op(op) {
        read_ok(c, mode)
    } else if is_store_op(op) {
        operand_ok(c, mode) && operand(c, mode, false).1.bus.writable(
            operand(c, mode, false).0,
            stored_value(c, op),
        )
    } else if is_rmw_op(op) && mode != AddressingMode::Implied {
        rmw_ok(c, op, mode)
    } else if is_branch_op(op) {
        branch_ok(c, op)
    } else {
        other_ok(c, op, mode)
    }
}

/// `q` is the CPU after the instruction, its final write done.
pub open spec fn executed_post(c: CPU, op: Op, mode: AddressingMode, q: CPU) -> bool {
    let (c1, w) = executed(c, op, mode);
    match w {
        None => q == c1,
        Some((addr, v)) => q == (CPU { bus: q.bus, ..c1 }) && c1.bus.written(addr, v, &q.bus),
    }
}

impl CPU {
    fn apply_read_op(&mut self, op: Op, val: u8)
        requires
            is_read_op(op),
        ensures
            *final(self) == read_op(*old(self), op, val),
    {
        match op {
            Op::Lda => {
                self.a = val;
                self.toggle_nz(val);
            },
            Op::Ldx => {
                self.x = val;
                self.toggle_nz(val);
            },
            Op::Ldy => {
                self.y = val;
                self.toggle_nz(val);
            },
            Op::Adc => self.adc(val),
            Op::Sbc => self.sbc(val),
            Op::And => {
                let a = self.a & val;
                self.a = a;
                self.toggle_nz(a);
            },
            Op::Ora => {
                let a = self.a | val;
                self.a = a;
                self.toggle_nz(a);
            },
            Op::Eor => {
                let a = self.a ^ val;
                self.a = a;
                self.toggle_nz(a);
            },
            Op::Compare => {
                let a = self.a;
                self.compare_registers(a, val);
            },
            Op::Cpx => {
                let x = self.x;
                self.compare_registers(x, val);
            },
            Op::Cpy => {
                let y = self.y;
                self.compare_registers(y, val);
            },
            _ => self.bit(val),
        }
    }

    fn adc(&mut self, val: u8)
        ensures
            *final(self) == adc(*old(self), val),
    {
        {
            {
                let carry: u16 = if self.has_flag(CARRY) {
                    1
                } else {
                    0
                };
                let sum = (self.a as u16) + (val as u16) + carry;
                self.set_flag(CARRY, sum > 0xff);
                let sum = (sum % 256) as u8;
                // http://www.6502.org/tutorials/vflag.html
                let overflow = (val ^ sum) & (sum ^ self.a) & 0x80 != 0;
                self.set_flag(OVERFLOW, overflow);
                self.a = sum;
                self.toggle_nz(sum);
            }
        }
    }

    fn sbc(&mut self, val: u8)
        ensures
            *final(self) == sbc(*old(self), val),
    {
        {
            {
                let borrow: i16 = if self.has_flag(CARRY) {
                    0
                } else {
                    1
                };
                let diff: i16 = self.a as i16 - val as i16 - borrow;
                let sum: u8 = if diff < 0 {
                    (diff + 256) as u8
                } else {
                    diff as u8
                };
                self.set_flag(OVERFLOW, (self.a ^ val) & (self.a ^ sum) & 0x80 == 0x80);
                self.a = sum;
                self.set_flag(CARRY, diff >= 0);
                self.toggle_nz(sum);
            }
        }
    }

    fn bit(&mut self, val: u8)
        ensures
            *final(self) == read_op(*old(self), Op::Bit, val),
    {
        let res = self.a & val;
        self.set_flag(ZERO, res == 0);
        self.set_flag(OVERFLOW, val & 0x40 != 0);
        self.set_flag(NEGATIVE, val & 0x80 != 0);
    }

    #[inline]
    fn compare_registers(&mut self, a: u8, b: u8)
        ensures
            *final(self) == (CPU { status: compared(old(self).status, a, b), ..*old(self) }),
    {
        self.set_flag(CARRY, a >= b);
        let res = a.wrapping_sub(b);
        self.toggle_nz(res);
    }

    /// Shifts, rotates, increments or decrements `val`, setting the flags.
    fn rmw(&mut self, op: Op, val: u8) -> (r: u8)
        requires
            is_rmw_op(op),
        ensures
            r == rmw_value(op, val, old(self).status),
            *final(self) == (CPU { status: rmw_status(op, val, old(self).status), ..*old(self) }),
    {
        match op {
            Op::Asl => {
                self.set_flag(CARRY, val & 128 == 128);
                let val = val << 1u8;
                self.toggle_nz(val);
                val
            },
            Op::Lsr => {
                self.set_flag(CARRY, val & 1 == 1);
                let val = val >> 1u8;
                self.toggle_nz(val);
                val
            },
            Op::Rol => {
                let next_carry = (val >> 7u8) == 1;
                let mut val = val << 1u8;
                val = val | if self.has_flag(CARRY) {
                    1
                } else {
                    0
                };
                self.set_flag(CARRY, next_carry);
                self.toggle_nz(val);
                val
            },
            Op::Ror => {
                let old_carry = self.has_flag(CARRY);
                self.set_flag(CARRY, val & 1 == 1);
                let mut val = val >> 1u8;
                if old_carry {
                    val = val | 0x80;
                }
                self.toggle_nz(val);
                val
            },
            Op::Inc => {
                let val = if val == 0xff {
                    0
                } else {
                    val + 1
                };
                self.toggle_nz(val);
                val
            },
            _ => {
                let val = if val == 0 {
                    0xff
                } else {
                    val - 1
                };
                self.toggle_nz(val);
                val
            },
        }
    }
}


/// The CPU after an NMI: the interrupt sequence through $FFFA, 7 cycles.
pub open spec fn nmi_taken(c: CPU) -> CPU {
    let c1 = interrupted(c, NMI_VECTOR);
    CPU { instr_cycles: (c1.instr_cycles + 7) as u32, ..c1 }
}

/// The CPU after an IRQ: the interrupt sequence through $FFFE, 7 cycles.
pub open spec fn irq_taken(c: CPU) -> CPU {
    let c1 = interrupted(c, IRQ_VECTOR);
    CPU { instr_cycles: (c1.instr_cycles + 7) as u32, ..c1 }
}

/// The CPU at the start of a step: the per-instruction cycle count
/// cleared, and a pending OAM DMA turned into 513 or 514 stall cycles.
#[verifier::opaque]
pub open spec fn step_started(c: CPU) -> CPU {
    let c0 = CPU { instr_cycles: 0, ..c };
    if c0.bus.dma_transfer {
        CPU {
            bus: Bus { dma_transfer: false, ..c0.bus },
            stall: (c0.stall + 513 + c0.total_cycles % 2) as u32,
            ..c0
        }
    } else {
        c0
    }
}

/// The CPU after it answers the interrupt the bus reports: an NMI always,
/// an IRQ unless interrupts are disabled.
#[verifier::opaque]
pub open spec fn interrupt_handled(c: CPU) -> CPU {
    let (i, b) = interrupt_pulled(c.bus);
    let c2 = CPU { bus: b, ..c };
    match i {
        Interrupt::Nmi => nmi_taken(c2),
        Interrupt::Irq => if !flag(c2.status, INTERRUPT_DISABLE) {
            irq_taken(c2)
        } else {
            c2
        },
        Interrupt::Idle => c2,
    }
}

/// The interrupt sequence, if any, stays in range.
#[verifier::opaque]
pub open spec fn interrupt_handled_ok(c: CPU) -> bool {
    let (i, b) = interrupt_pulled(c.bus);
    let c2 = CPU { bus: b, ..c };
    match i {
        Interrupt::Nmi => interrupt_ok(c2, NMI_VECTOR),
        Interrupt::Irq => !flag(c2.status, INTERRUPT_DISABLE) ==> interrupt_ok(c2, IRQ_VECTOR),
        Interrupt::Idle => true,
    }
}

/// The CPU after the interrupt check, right before the opcode fetch.
pub open spec fn before_fetch(c: CPU) -> CPU {
    interrupt_handled(step_started(c))
}

/// The step can run without going out of range or overflowing: the bus is
/// consistent, the stall counter has room, and unless the CPU stalls, the
/// interrupt sequence, the opcode fetch and the instruction stay in range,
/// the opcode is one this CPU implements and the cycle total has room.
/// What an opcode runs: its operation and addressing mode, or NOP for the
/// opcodes that have none.
pub open spec fn run_as(op: u8) -> (Op, AddressingMode) {
    match decoded(op) {
        Some(x) => x,
        None => (Op::Nop, AddressingMode::Implied),
    }
}

pub open spec fn step_ok(c: CPU) -> bool {
    let c1 = step_started(c);
    let c3 = before_fetch(c);
    let (op, c4) = next_byte(c3);
    &&& bus_wf(c.bus)
    &&& c.stall + 514 < u32::MAX
    &&& c1.stall == 0 ==> {
        &&& interrupt_handled_ok(c1)
        &&& c3.bus.readable(c3.pc)
        &&& executed_ok(c4, run_as(op).0, run_as(op).1)
        &&& executed(c4, run_as(op).0, run_as(op).1).0.instr_cycles
            + INST_CYCLES@[op as int] + c.total_cycles < u64::MAX
        &&& executed(c4, run_as(op).0, run_as(op).1).0.instr_cycles
            + INST_CYCLES@[op as int] < u32::MAX
    }
}

/// `q` is the CPU after one step that returned `cycles`: a stall cycle, or
/// the interrupt check, the opcode fetch and the instruction, whose cycles
/// (its base count and the extra ones) are added to the total.
pub open spec fn stepped(c: CPU, q: CPU, cycles: u32) -> bool {
    let c1 = step_started(c);
    if c1.stall > 0 {
        q == CPU { stall: (c1.stall - 1) as u32, ..c1 } && cycles == 1
    } else {
        let (op, c4) = next_byte(before_fetch(c));
        &&& executed_post(
            c4,
            run_as(op).0,
            run_as(op).1,
            CPU { total_cycles: c.total_cycles, ..q },
        )
        &&& cycles == q.instr_cycles + INST_CYCLES@[op as int]
        &&& q.total_cycles == c.total_cycles + cycles
    }
}

impl CPU {
    fn write(&mut self, addr: u16, val: u8)
        requires
            old(self).bus.writable(addr, val),
        ensures
            old(self).bus.written(addr, val, &final(self).bus),
            *final(self) == (CPU { bus: final(self).bus, ..*old(self) }),
    {
        self.bus.write_byte(addr, val);
    }

    fn exec_read(&mut self, op: Op, mode: AddressingMode)
        requires
            is_read_op(op),
            read_ok(*old(self), mode),
            old(self).instr_cycles < 0x1000,
        ensures
            *final(self) == read_result(*old(self), op, mode),
            final(self).total_cycles == old(self).total_cycles,
            final(self).instr_cycles == executed(*old(self), op, mode).0.instr_cycles,
    {
        proof {
            reveal(read_ok);
            reveal(read_result);
        }
        let addr = self.operand_address(mode, true);
        let val = self.read(addr);
        self.apply_read_op(op, val);
    }

    fn exec_store(&mut self, op: Op, mode: AddressingMode)
        requires
            is_store_op(op),
            executed_ok(*old(self), op, mode),
        ensures
            executed_post(*old(self), op, mode, *final(self)),
            final(self).total_cycles == old(self).total_cycles,
            final(self).total_cycles == old(self).total_cycles,
    {
        let ghost c = *old(self);
        assert(executed(c, op, mode) == (operand(c, mode, false).1, Some(
            (operand(c, mode, false).0, stored_value(c, op)),
        )));
        let val = match op {
            Op::Sta => self.a,
            Op::Stx => self.x,
            _ => self.y,
        };
        let addr = self.operand_address(mode, false);
        self.write(addr, val);
    }

    fn exec_rmw(&mut self, op: Op, mode: AddressingMode)
        requires
            is_rmw_op(op),
            mode != AddressingMode::Implied,
            rmw_ok(*old(self), op, mode),
            old(self).instr_cycles < 0x1000,
        ensures
            *final(self) == (CPU { bus: final(self).bus, ..rmw_result(*old(self), op, mode).0 }),
            rmw_result(*old(self), op, mode).0.bus.written(
                rmw_result(*old(self), op, mode).1.0,
                rmw_result(*old(self), op, mode).1.1,
                &final(self).bus,
            ),
            final(self).total_cycles == old(self).total_cycles,
    {
        proof {
            reveal(rmw_ok);
            reveal(rmw_result);
        }
        let addr = self.operand_address(mode, false);
        let val = self.read(addr);
        let res = self.rmw(op, val);
        self.write(addr, res);
    }

    fn branch_rel(&mut self)
        requires
            old(self).bus.readable(old(self).pc),
            old(self).instr_cycles < 0x1000,
        ensures
            *final(self) == branched(*old(self)),
    {
        let rel = self.next_byte();
        let offset: u16 = if rel >= 128 {
            rel as u16 + 0xFF00
        } else {
            rel as u16
        };
        let prev_pc = self.pc;
        let jump_addr = self.pc.wrapping_add(offset);
        self.pc = jump_addr;
        self.instr_cycles += 1;
        if prev_pc / 256 != jump_addr / 256 {
            self.instr_cycles += 1;
        }
    }

    fn exec_branch(&mut self, op: Op)
        requires
            is_branch_op(op),
            branch_ok(*old(self), op),
            old(self).instr_cycles < 0x1000,
        ensures
            *final(self) == branch_result(*old(self), op),
            final(self).total_cycles == old(self).total_cycles,
    {
        proof {
            reveal(branch_ok);
            reveal(branch_result);
        }
        let taken = match op {
            Op::Bcc => !self.has_flag(CARRY),
            Op::Bcs => self.has_flag(CARRY),
            Op::Beq => self.has_flag(ZERO),
            Op::Bne => !self.has_flag(ZERO),
            Op::Bpl => !self.has_flag(NEGATIVE),
            Op::Bmi => self.has_flag(NEGATIVE),
            Op::Bvc => !self.has_flag(OVERFLOW),
            _ => self.has_flag(OVERFLOW),
        };
        if taken {
            self.branch_rel();
        } else {
            self.pc += 1;
        }
    }

    fn jmp_ind(&mut self)
        requires
            jumped_indirect_ok(*old(self)),
        ensures
            *final(self) == jumped_indirect(*old(self)),
    {
        // The NMOS 6502 does not correctly fetch the target address
        // if the indirect vector falls on a page boundary
        // (e.g. $xxFF where xx is any value from $00 to $FF).
        // In this case fetches the LSB from $xxFF as expected but takes the MSB from $xx00.
        let addr = self.next_word();
        let addr = if addr % 256 == 0xff {
            let lo = self.read(addr);
            let hi = self.read(addr - 0xff);
            (hi as u16) * 256 + (lo as u16)
        } else {
            self.read_word(addr)
        };
        self.pc = addr;
    }

    fn php(&mut self)
        requires
            bus_wf(old(self).bus),
        ensures
            *final(self) == pushed(*old(self), pushed_status(old(self).status)),
            bus_wf(final(self).bus),
    {
        // set the break flags
        let status_flags = self.status | super::BREAK1 | super::BREAK2;
        self.push(status_flags);
    }

    fn plp(&mut self)
        requires
            bus_wf(old(self).bus),
        ensures
            *final(self) == status_pulled(*old(self)),
            bus_wf(final(self).bus),
    {
        let mut flags = self.pull();
        flags = flags & 0b11101111;
        flags = flags | 0b00100000;
        self.status = flags;
    }

    /// The interrupt sequence through `vector`.
    fn interrupt(&mut self, vector: u16)
        requires
            interrupt_ok(*old(self), vector),
        ensures
            *final(self) == interrupted(*old(self), vector),
    {
        let pc = self.pc;
        self.push_word(pc);
        self.php();
        self.status = self.status | INTERRUPT_DISABLE;
        self.pc = self.read_word(vector);
    }

    fn nmi(&mut self)
        requires
            interrupt_ok(*old(self), NMI_VECTOR),
            old(self).instr_cycles < 0x1000,
        ensures
            *final(self) == nmi_taken(*old(self)),
    {
        self.interrupt(NMI_VECTOR);
        self.instr_cycles += 7;
    }

    fn irq(&mut self)
        requires
            interrupt_ok(*old(self), IRQ_VECTOR),
            old(self).instr_cycles < 0x1000,
        ensures
            *final(self) == irq_taken(*old(self)),
    {
        self.interrupt(IRQ_VECTOR);
        self.instr_cycles += 7;
    }

    fn exec_implied(&mut self, op: Op)
        ensures
            *final(self) == implied_op(*old(self), op),
    {
        match op {
            Op::Tax => {
                let x = self.a;
                self.x = x;
                self.toggle_nz(x);
            },
            Op::Tay => {
                let y = self.a;
                self.y = y;
                self.toggle_nz(y);
            },
            Op::Tsx => {
                let x = self.sp;
                self.x = x;
                self.toggle_nz(x);
            },
            Op::Txa => {
                let a = self.x;
                self.a = a;
                self.toggle_nz(a);
            },
            Op::Txs => {
                self.sp = self.x;
            },
            Op::Tya => {
                let a = self.y;
                self.a = a;
                self.toggle_nz(a);
            },
            Op::Inx => {
                let val = if self.x == 0xff {
                    0
                } else {
                    self.x + 1
                };
                self.x = val;
                self.toggle_nz(val);
            },
            Op::Iny => {
                let val = if self.y == 0xff {
                    0
                } else {
                    self.y + 1
                };
                self.y = val;
                self.toggle_nz(val);
            },
            Op::Dex => {
                let val = if self.x == 0 {
                    0xff
                } else {
                    self.x - 1
                };
                self.x = val;
                self.toggle_nz(val);
            },
            Op::Dey => {
                let val = if self.y == 0 {
                    0xff
                } else {
                    self.y - 1
                };
                self.y = val;
                self.toggle_nz(val);
            },
            Op::Clc => self.status = self.status & !CARRY,
            Op::Sec => self.status = self.status | CARRY,
            Op::Cld => self.status = self.status & !DECIMAL,
            Op::Sed => self.status = self.status | DECIMAL,
            Op::Cli => self.status = self.status & !INTERRUPT_DISABLE,
            Op::Sei => self.status = self.status | INTERRUPT_DISABLE,
            Op::Clv => self.status = self.status & !OVERFLOW,
            Op::Asl | Op::Lsr | Op::Rol | Op::Ror => {
                let a = self.a;
                let r = self.rmw(op, a);
                self.a = r;
            },
            _ => {},
        }
    }

    #[verifier::spinoff_prover]
    #[verifier::rlimit(40)]
    fn exec_other(&mut self, op: Op, mode: AddressingMode)
        requires
            other_ok(*old(self), op, mode),
            bus_wf(old(self).bus),
        ensures
            *final(self) == other_result(*old(self), op, mode),
            final(self).total_cycles == old(self).total_cycles,
    {
        proof {
            reveal(other_ok);
            reveal(other_result);
        }
        match op {
            Op::Jmp => {
                if mode == AddressingMode::Absolute {
                    let addr = self.next_word();
                    self.pc = addr;
                } else {
                    self.jmp_ind();
                }
            },
            Op::Pha => {
                let a = self.a;
                self.push(a);
            },
            Op::Php => self.php(),
            Op::Pla => {
                let a = self.pull();
                self.a = a;
                self.toggle_nz(a);
            },
            Op::Plp => self.plp(),
            Op::Jsr => {
                let ret_addr = self.pc + 1;
                self.push_word(ret_addr);
                let target_addr = self.next_word();
                self.pc = target_addr;
            },
            Op::Rts => {
                let w = self.pull_word();
                self.pc = w + 1;
            },
            Op::Rti => {
                self.plp();
                self.pc = self.pull_word();
            },
            Op::Brk => self.interrupt(IRQ_VECTOR),
            _ => self.exec_implied(op),
        }
    }

    /// Runs the instruction `op` in addressing `mode`, past its opcode.
    fn execute(&mut self, op: Op, mode: AddressingMode)
        requires
            executed_ok(*old(self), op, mode),
        ensures
            executed_post(*old(self), op, mode, *final(self)),
            final(self).total_cycles == old(self).total_cycles,
            final(self).instr_cycles == executed(*old(self), op, mode).0.instr_cycles,
    {
        if matches!(op, Op::Lda | Op::Ldx | Op::Ldy | Op::Adc | Op::Sbc | Op::And | Op::Ora | Op::Eor | Op::Compare | Op::Cpx | Op::Cpy | Op::Bit) {
            self.exec_read(op, mode);
        } else if matches!(op, Op::Sta | Op::Stx | Op::Sty) {
            self.exec_store(op, mode);
        } else if matches!(op, Op::Asl | Op::Lsr | Op::Rol | Op::Ror | Op::Inc | Op::Dec) && mode != AddressingMode::Implied {
            self.exec_rmw(op, mode);
        } else if matches!(op, Op::Bcc | Op::Bcs | Op::Beq | Op::Bne | Op::Bpl | Op::Bmi | Op::Bvc | Op::Bvs) {
            self.exec_branch(op);
        } else {
            self.exec_other(op, mode);
        }
    }

    fn begin_step(&mut self)
        requires
            old(self).stall + 514 < u32::MAX,
        ensures
            *final(self) == step_started(*old(self)),
            final(self).instr_cycles == 0,
            final(self).total_cycles == old(self).total_cycles,
            bus_wf(final(self).bus) == bus_wf(old(self).bus),
    {
        proof {
            reveal(step_started);
        }
        self.instr_cycles = 0;

        if self.bus.dma_transfer {
            self.bus.dma_transfer = false;
            self.stall += 513 + (self.total_cycles % 2) as u32;
        }
    }

    fn handle_interrupt(&mut self)
        requires
            bus_wf(old(self).bus),
            old(self).instr_cycles == 0,
            interrupt_handled_ok(*old(self)),
        ensures
            *final(self) == interrupt_handled(*old(self)),
            final(self).total_cycles == old(self).total_cycles,
    {
        proof {
            reveal(interrupt_handled);
            reveal(interrupt_handled_ok);
        }
        match self.bus.pull_interrupt() {
            Interrupt::Idle => {},
            Interrupt::Irq => {
                if !self.has_flag(INTERRUPT_DISABLE) {
                    self.irq();
                }
            },
            Interrupt::Nmi => {
                self.nmi();
            },
        }
    }

    /// Runs one instruction, or one stall cycle, and returns the CPU
    /// cycles it took.
    #[verifier::rlimit(60)]
    pub fn step(&mut self) -> (cycles: u32)
        requires
            step_ok(*old(self)),
        ensures
            stepped(*old(self), *final(self), cycles),
    {
        self.begin_step();
        if self.stall > 0 {
            self.stall -= 1;
            return 1;
        }
        self.handle_interrupt();
        let ghost c3 = *self;
        proof {
            crate::bus::lemma_read_keeps_wf(c3.bus, c3.pc);
        }
        let op_code = self.next_byte();
        let ghost c4 = *self;
        assert(c3 == before_fetch(*old(self)));
        assert((op_code, c4) == next_byte(before_fetch(*old(self))));
        assert(step_started(*old(self)).stall == 0);
        assert(c4.total_cycles == old(self).total_cycles);
        let (op, mode) = match decode(op_code) {
            Some(x) => x,
            None => (Op::Nop, AddressingMode::Implied),
        };
        assert(run_as(op_code) == (op, mode));
        assert(executed(c4, op, mode).0.instr_cycles + INST_CYCLES@[op_code as int]
            + old(self).total_cycles < u64::MAX);
        self.execute(op, mode);
        let ghost c5 = *self;
        let instr_cycles = self.instr_cycles + INST_CYCLES[op_code as usize];
        self.total_cycles += instr_cycles as u64;
        assert(CPU { total_cycles: old(self).total_cycles, ..*self } == c5);
        instr_cycles
    }
}


/// PLP right after PHP restores every flag but the break bits: bit 4 comes
/// back clear and bit 5 set; the stack pointer is restored.
pub proof fn law_php_plp(c: CPU)
    requires
        bus_wf(c.bus),
    ensures
        status_pulled(pushed(c, pushed_status(c.status))).status == (c.status & !BREAK1) | BREAK2,
        status_pulled(pushed(c, pushed_status(c.status))).sp == c.sp,
{
    law_push_pull(c, pushed_status(c.status));
    let s = c.status;
    assert(((s | 0x10u8 | 0x20u8) & 0b11101111u8) | 0b00100000u8 == (s & !0x10u8) | 0x20u8)
        by (bit_vector);
}

/// Subtracting with borrow is adding the complement with carry: SBC of `v`
/// is ADC of `!v`, in the accumulator and in every flag.
pub proof fn law_sbc_is_adc_of_complement(c: CPU, v: u8)
    ensures
        sbc(c, v) == adc(c, !v),
{
    let a = c.a;
    let s = c.status;
    let w: u8 = !v;
    let cin: int = if flag(s, CARRY) { 1 } else { 0 };
    assert(w == 255 - v) by (bit_vector)
        requires w == !v;
    let d = a - v - (1 - cin);
    let sum = a + w + cin;
    assert(sum == d + 256);
    assert(wrap8(d) == wrap8(sum));
    let r = wrap8(d);
    assert(((a ^ v) & (a ^ r) & 0x80 == 0x80) == ((w ^ r) & (r ^ a) & 0x80 != 0)) by (bit_vector)
        requires w == !v;
    assert(d >= 0 <==> sum > 0xff);
    let ovb = (a ^ v) & (a ^ r) & 0x80 == 0x80;
    let cb = d >= 0;
    assert(with_flag(with_flag(s, OVERFLOW, ovb), CARRY, cb) == with_flag(with_flag(s, CARRY, cb), OVERFLOW, ovb))
        by (bit_vector);
}


/// RTI at the start of an interrupt handler returns to the interrupted
/// instruction: it pulls the status the interrupt pushed (break bits
/// normalised, as PLP does) and the program counter, and restores the
/// stack pointer.
#[verifier::spinoff_prover]
#[verifier::rlimit(40)]
pub proof fn law_interrupt_rti(c: CPU, vector: u16)
    requires
        bus_wf(c.bus),
        0x4020 <= vector < 0xFFFF,
    ensures
        ({
            let i = interrupted(c, vector);
            let c1 = status_pulled(i);
            let (pc, c2) = pulled_word(c1);
            &&& c1.status == (c.status & !BREAK1) | BREAK2
            &&& pc == c.pc
            &&& c2.sp == c.sp
        }),
{
    let hi = (c.pc / 256) as u8;
    let lo = (c.pc % 256) as u8;
    let a0 = (STACK_START + c.sp) as u16;
    let q0 = pushed(c, hi);
    lemma_ram_write(c.bus, a0, hi);
    let a1 = (STACK_START + q0.sp) as u16;
    let p0 = pushed(q0, lo);
    lemma_ram_write(q0.bus, a1, lo);
    let ps = pushed_status(c.status);
    let a2 = (STACK_START + p0.sp) as u16;
    let p1 = pushed(p0, ps);
    lemma_ram_write(p0.bus, a2, ps);
    let c2i = CPU { status: p1.status | INTERRUPT_DISABLE, ..p1 };
    lemma_cart_read_unchanged(c2i.bus, (vector + 1) as u16);
    lemma_cart_read_unchanged(c2i.bus, vector);
    let i = interrupted(c, vector);
    assert(i.bus == p1.bus && i.sp == p1.sp);
    // the status byte
    law_push_pull(p0, ps);
    let c1 = status_pulled(i);
    assert(c1.sp == p0.sp && c1.bus == p1.bus);
    let s = c.status;
    assert(((s | 0x10u8 | 0x20u8) & 0b11101111u8) | 0b00100000u8 == (s & !0x10u8) | 0x20u8)
        by (bit_vector);
    // the program counter, below the status byte
    assert(a0 % 0x800 != a1 % 0x800 && a0 % 0x800 != a2 % 0x800 && a1 % 0x800 != a2 % 0x800);
    lemma_ram_read(p1.bus, a1);
    lemma_ram_read(p1.bus, a0);
    assert(p1.bus.ram.0@[(a1 % 0x800) as int] == lo);
    assert(p1.bus.ram.0@[(a0 % 0x800) as int] == hi);
    assert(wrap8(c1.sp + 1) == q0.sp);
    assert(wrap8(wrap8(c1.sp + 1) + 1) == c.sp);
}


proof fn lemma_shift_bits(v: u8, x: u8)
    by (bit_vector)
    ensures
        (v >> 1u8) | 0x80u8 == (v >> 1u8) + 128,
        2 * (v >> 1u8) + (v & 1u8) == v,
        ((v << 1u8) as u8) | 1u8 == ((v << 1u8) as u8) + 1,
        ((v << 1u8) as u8) | 0u8 == (v << 1u8) as u8,
        ((v << 1u8) as u8) + (if v & 128u8 == 128u8 { 256int } else { 0int }) == 2 * v,
        v & 1u8 <= 1,
        (v & 128u8 == 128u8) == (v >> 7u8 == 1u8),
        (v >> 7u8 == 1u8) == (v >= 128u8),
        ((x | 1u8) & 1u8 == 1u8) && ((x & !1u8) & 1u8 == 0u8),
        ((x | 0x80u8) & 1u8) == x & 1u8 && ((x & !0x80u8) & 1u8) == x & 1u8,
        ((x | 2u8) & 1u8) == x & 1u8 && ((x & !2u8) & 1u8) == x & 1u8,
        ((x | 0x80u8) & 0x80u8 == 0x80u8) && ((x & !0x80u8) & 0x80u8 == 0u8),
        ((x | 2u8) & 0x80u8) == x & 0x80u8 && ((x & !2u8) & 0x80u8) == x & 0x80u8,
{
}

/// The shifts and rotates, as arithmetic on the byte `v` and the carry of
/// status `s`: ASL doubles (bit 7 to the carry), LSR halves (bit 0 to the
/// carry), ROL and ROR are 9-bit rotates through the carry, the old carry
/// entering at bit 0 and bit 7 respectively; N is bit 7 of the result. ROR
/// followed by ROL gives back the byte and the carry.
pub proof fn law_shifts_and_rotates(v: u8, s: u8)
    ensures
        rmw_value(Op::Asl, v, s) == (2 * v) % 256,
        flag(rmw_status(Op::Asl, v, s), CARRY) == (v >= 128),
        rmw_value(Op::Lsr, v, s) == v / 2,
        flag(rmw_status(Op::Lsr, v, s), CARRY) == (v % 2 == 1),
        rmw_value(Op::Rol, v, s) == (2 * v) % 256 + if flag(s, CARRY) {
            1int
        } else {
            0int
        },
        flag(rmw_status(Op::Rol, v, s), CARRY) == (v >= 128),
        rmw_value(Op::Ror, v, s) == v / 2 + if flag(s, CARRY) {
            128int
        } else {
            0int
        },
        flag(rmw_status(Op::Ror, v, s), CARRY) == (v % 2 == 1),
        flag(rmw_status(Op::Ror, v, s), NEGATIVE) == flag(s, CARRY),
        rmw_value(Op::Rol, rmw_value(Op::Ror, v, s), rmw_status(Op::Ror, v, s)) == v,
        flag(
            rmw_status(Op::Rol, rmw_value(Op::Ror, v, s), rmw_status(Op::Ror, v, s)),
            CARRY,
        ) == flag(s, CARRY),
{
    let r = rmw_value(Op::Ror, v, s);
    lemma_shift_bits(v, s);
    lemma_shift_bits(r, s);
    let w1 = with_flag(s, CARRY, v & 1 == 1);
    let w2 = with_flag(s, CARRY, v & 128 == 128);
    let w3 = with_flag(s, CARRY, v >> 7u8 == 1);
    lemma_shift_bits(v, w1);
    lemma_shift_bits(v, w2);
    lemma_shift_bits(v, w3);
    lemma_shift_bits(v, with_flag(w1, NEGATIVE, r >> 7u8 == 1));
    lemma_shift_bits(v, with_flag(w2, NEGATIVE, rmw_value(Op::Asl, v, s) >> 7u8 == 1));
    lemma_shift_bits(v, with_flag(w1, NEGATIVE, rmw_value(Op::Lsr, v, s) >> 7u8 == 1));
    lemma_shift_bits(v, with_flag(w3, NEGATIVE, rmw_value(Op::Rol, v, s) >> 7u8 == 1));
    let s2 = rmw_status(Op::Ror, v, s);
    let w4 = with_flag(s2, CARRY, r >> 7u8 == 1);
    lemma_shift_bits(r, s2);
    lemma_shift_bits(r, w4);
    lemma_shift_bits(r, with_flag(w4, NEGATIVE, rmw_value(Op::Rol, r, s2) >> 7u8 == 1));
}


/// INC and DEC count up and down modulo 256 and undo each other; every
/// shift, rotate, increment and decrement sets Z exactly when its result is
/// 0 and N exactly when its result's bit 7 is set.
pub proof fn law_rmw_counts_and_flags(op: Op, v: u8, s: u8)
    ensures
        rmw_value(Op::Inc, v, s) == (v + 1) % 256,
        rmw_value(Op::Dec, v, s) == (v + 255) % 256,
        rmw_value(Op::Dec, rmw_value(Op::Inc, v, s), s) == v,
        flag(rmw_status(op, v, s), ZERO) == (rmw_value(op, v, s) == 0),
        flag(rmw_status(op, v, s), NEGATIVE) == (rmw_value(op, v, s) >= 128),
{
    let r = rmw_value(op, v, s);
    match op {
        Op::Asl => lemma_nz(with_flag(s, CARRY, v & 128 == 128), r),
        Op::Lsr => lemma_nz(with_flag(s, CARRY, v & 1 == 1), r),
        Op::Rol => lemma_nz(with_flag(s, CARRY, v >> 7u8 == 1), r),
        Op::Ror => lemma_nz(with_flag(s, CARRY, v & 1 == 1), r),
        _ => lemma_nz(s, r),
    }
}

proof fn lemma_nz(x: u8, r: u8)
    ensures
        flag(nz(x, r), ZERO) == (r == 0),
        flag(nz(x, r), NEGATIVE) == (r >= 128),
{
    lemma_nz_flags(x, r);
}

proof fn lemma_nz_flags(x: u8, r: u8)
    by (bit_vector)
    ensures
        (if r == 0 { ((if r >> 7u8 == 1 { x | 0x80u8 } else { x & !0x80u8 }) | 2u8) } else { ((if r >> 7u8
            == 1 { x | 0x80u8 } else { x & !0x80u8 }) & !2u8) }) & 2u8 == 2u8 <==> r == 0,
        (if r == 0 { ((if r >> 7u8 == 1 { x | 0x80u8 } else { x & !0x80u8 }) | 2u8) } else { ((if r >> 7u8
            == 1 { x | 0x80u8 } else { x & !0x80u8 }) & !2u8) }) & 0x80u8 == 0x80u8 <==> r >= 128,
{
}


proof fn lemma_flag_bits(x: u8, f: u8, g: u8, b: bool)
    by (bit_vector)
    requires
        f == 1u8 || f == 2u8 || f == 0x40u8 || f == 0x80u8,
        g == 1u8 || g == 2u8 || g == 0x40u8 || g == 0x80u8,
        f != g,
    ensures
        ((if b { x | f } else { x & !f }) & f == f) == b,
        ((if b { x | f } else { x & !f }) & g == g) == (x & g == g),
{
}

proof fn lemma_overflow_bits(a: u8, v: u8, r: u8)
    by (bit_vector)
    ensures
        ((v ^ r) & (r ^ a) & 0x80u8 != 0u8) == ((a >= 128u8) == (v >= 128u8) && (r >= 128u8) != (a
            >= 128u8)),
{
}

/// The value of a byte read as a two's complement number.
pub open spec fn signed(v: u8) -> int {
    if v >= 128 {
        v - 256
    } else {
        v as int
    }
}

/// ADC adds with carry: A becomes A + M + C modulo 256; C is set when the
/// unsigned sum exceeds 255, V when the signed sum leaves -128..=127, Z
/// when A becomes 0 and N when its bit 7 is set.
pub proof fn law_adc(c: CPU, v: u8)
    ensures
        ({
            let cin: int = if flag(c.status, CARRY) { 1 } else { 0 };
            let q = adc(c, v);
            &&& q.a == (c.a + v + cin) % 256
            &&& flag(q.status, CARRY) == (c.a + v + cin > 255)
            &&& flag(q.status, OVERFLOW) == (signed(c.a) + signed(v) + cin > 127 || signed(c.a)
                + signed(v) + cin < -128)
            &&& flag(q.status, ZERO) == (q.a == 0)
            &&& flag(q.status, NEGATIVE) == (q.a >= 128)
        }),
{
    let cin: int = if flag(c.status, CARRY) { 1 } else { 0 };
    let sum = c.a + v + cin;
    let r = wrap8(sum);
    let s1 = with_flag(c.status, CARRY, sum > 0xff);
    let ov = (v ^ r) & (r ^ c.a) & 0x80 != 0;
    let s2 = with_flag(s1, OVERFLOW, ov);
    lemma_overflow_bits(c.a, v, r);
    lemma_flag_bits(c.status, CARRY, OVERFLOW, sum > 0xff);
    lemma_flag_bits(s1, OVERFLOW, CARRY, ov);
    lemma_nz(s2, r);
    let s3 = with_flag(s2, NEGATIVE, r >> 7u8 == 1);
    lemma_flag_bits(s2, NEGATIVE, CARRY, r >> 7u8 == 1);
    lemma_flag_bits(s2, NEGATIVE, OVERFLOW, r >> 7u8 == 1);
    lemma_flag_bits(s3, ZERO, CARRY, r == 0);
    lemma_flag_bits(s3, ZERO, OVERFLOW, r == 0);
}


/// CMP, CPX and CPY compare a register with a byte: C is set when the
/// register is at least the byte, Z when they are equal, N from bit 7 of
/// their difference modulo 256; no other flag changes.
pub proof fn law_compare(s: u8, reg: u8, v: u8)
    ensures
        flag(compared(s, reg, v), CARRY) == (reg >= v),
        flag(compared(s, reg, v), ZERO) == (reg == v),
        flag(compared(s, reg, v), NEGATIVE) == ((reg - v + 256) % 256 >= 128),
        flag(compared(s, reg, v), OVERFLOW) == flag(s, OVERFLOW),
{
    let s1 = with_flag(s, CARRY, reg >= v);
    let r = wrap8(reg - v);
    lemma_nz(s1, r);
    lemma_flag_bits(s, CARRY, OVERFLOW, reg >= v);
    let s3 = with_flag(s1, NEGATIVE, r >> 7u8 == 1);
    lemma_flag_bits(s1, NEGATIVE, CARRY, r >> 7u8 == 1);
    lemma_flag_bits(s1, NEGATIVE, OVERFLOW, r >> 7u8 == 1);
    lemma_flag_bits(s3, ZERO, CARRY, r == 0);
    lemma_flag_bits(s3, ZERO, OVERFLOW, r == 0);
}


/// The branches come in pairs on one flag each, taken on opposite values:
/// BCC/BCS on C, BNE/BEQ on Z, BPL/BMI on N, BVC/BVS on V. A taken branch
/// moves the program counter from past the operand byte by that byte read
/// as a signed number, modulo 64 KiB.
pub proof fn law_branches(c: CPU, s: u8)
    ensures
        branch_taken(Op::Bcs, s) == flag(s, CARRY) && branch_taken(Op::Bcc, s) == !flag(s, CARRY),
        branch_taken(Op::Beq, s) == flag(s, ZERO) && branch_taken(Op::Bne, s) == !flag(s, ZERO),
        branch_taken(Op::Bmi, s) == flag(s, NEGATIVE) && branch_taken(Op::Bpl, s) == !flag(
            s,
            NEGATIVE,
        ),
        branch_taken(Op::Bvs, s) == flag(s, OVERFLOW) && branch_taken(Op::Bvc, s) == !flag(
            s,
            OVERFLOW,
        ),
        branched(c).pc == (next_byte(c).1.pc + signed(next_byte(c).0) + 0x1_0000) % 0x1_0000,
{
}

proof fn lemma_logic_bits(a: u8, v: u8)
    by (bit_vector)
    ensures
        (a & v) + (a ^ v) == (a | v),
        (a ^ v) ^ v == a,
        a & v <= a && a & v <= v,
        a | v >= a && a | v >= v,
{
}

/// AND, ORA and EOR combine A with the byte bit by bit: AND keeps the bits
/// both have, ORA those either has, EOR those exactly one has, so AND and
/// EOR add up to ORA and a second EOR with the same byte gives A back; Z
/// and N follow the result.
pub proof fn law_logic_ops(c: CPU, v: u8)
    ensures
        read_op(c, Op::And, v).a + read_op(c, Op::Eor, v).a == read_op(c, Op::Ora, v).a,
        read_op(c, Op::Eor, v).a ^ v == c.a,
        read_op(c, Op::And, v).a <= c.a && read_op(c, Op::And, v).a <= v,
        read_op(c, Op::Ora, v).a >= c.a && read_op(c, Op::Ora, v).a >= v,
        flag(read_op(c, Op::And, v).status, ZERO) == (read_op(c, Op::And, v).a == 0),
        flag(read_op(c, Op::Ora, v).status, ZERO) == (read_op(c, Op::Ora, v).a == 0),
        flag(read_op(c, Op::Eor, v).status, ZERO) == (read_op(c, Op::Eor, v).a == 0),
        flag(read_op(c, Op::And, v).status, NEGATIVE) == (read_op(c, Op::And, v).a >= 128),
        flag(read_op(c, Op::Ora, v).status, NEGATIVE) == (read_op(c, Op::Ora, v).a >= 128),
        flag(read_op(c, Op::Eor, v).status, NEGATIVE) == (read_op(c, Op::Eor, v).a >= 128),
{
    lemma_logic_bits(c.a, v);
    lemma_nz(c.status, c.a & v);
    lemma_nz(c.status, c.a | v);
    lemma_nz(c.status, c.a ^ v);
}

} // verus!
