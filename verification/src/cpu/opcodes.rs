use vstd::prelude::*;

verus! {

/// Base cycle count of each opcode.
pub const INST_CYCLES: [u32; 256] = [
    7, 6, 2, 8, 3, 3, 5, 5, 3, 2, 2, 2, 4, 4, 6, 6,
    2, 5, 2, 8, 4, 4, 6, 6, 2, 4, 2, 7, 4, 4, 7, 7,
    6, 6, 2, 8, 3, 3, 5, 5, 4, 2, 2, 2, 4, 4, 6, 6,
    2, 5, 2, 8, 4, 4, 6, 6, 2, 4, 2, 7, 4, 4, 7, 7,
    6, 6, 2, 8, 3, 3, 5, 5, 3, 2, 2, 2, 3, 4, 6, 6,
    2, 5, 2, 8, 4, 4, 6, 6, 2, 4, 2, 7, 4, 4, 7, 7,
    6, 6, 2, 8, 3, 3, 5, 5, 4, 2, 2, 2, 5, 4, 6, 6,
    2, 5, 2, 8, 4, 4, 6, 6, 2, 4, 2, 7, 4, 4, 7, 7,
    2, 6, 2, 6, 3, 3, 3, 3, 2, 2, 2, 2, 4, 4, 4, 4,
    2, 6, 2, 6, 4, 4, 4, 4, 2, 5, 2, 5, 5, 5, 5, 5,
    2, 6, 2, 6, 3, 3, 3, 3, 2, 2, 2, 2, 4, 4, 4, 4,
    2, 5, 2, 5, 4, 4, 4, 4, 2, 4, 2, 4, 4, 4, 4, 4,
    2, 6, 2, 8, 3, 3, 5, 5, 2, 2, 2, 2, 4, 4, 6, 6,
    2, 5, 2, 8, 4, 4, 6, 6, 2, 4, 2, 7, 4, 4, 7, 7,
    2, 6, 2, 8, 3, 3, 5, 5, 2, 2, 2, 2, 4, 4, 6, 6,
    2, 5, 2, 8, 4, 4, 6, 6, 2, 4, 2, 7, 4, 4, 7, 7,
];

/// How an instruction finds its operand.
#[derive(Debug, PartialEq, Eq, Structural, Copy, Clone)]
pub enum AddressingMode {
    Immediate,
    ZeroPage,
    ZeroPageX,
    ZeroPageY,
    Absolute,
    AbsoluteX,
    AbsoluteY,
    Indirect,
    IndirectX,
    IndirectY,
    Implied,
    Relative,
}

/// The name of an addressing mode, as its variant is spelled.
pub open spec fn mode_name(m: AddressingMode) -> Seq<char> {
    match m {
        AddressingMode::Immediate => "Immediate"@,
        AddressingMode::ZeroPage => "ZeroPage"@,
        AddressingMode::ZeroPageX => "ZeroPageX"@,
        AddressingMode::ZeroPageY => "ZeroPageY"@,
        AddressingMode::Absolute => "Absolute"@,
        AddressingMode::AbsoluteX => "AbsoluteX"@,
        AddressingMode::AbsoluteY => "AbsoluteY"@,
        AddressingMode::Indirect => "Indirect"@,
        AddressingMode::IndirectX => "IndirectX"@,
        AddressingMode::IndirectY => "IndirectY"@,
        AddressingMode::Implied => "Implied"@,
        AddressingMode::Relative => "Relative"@,
    }
}

/// The 6502 operations this CPU implements.
#[derive(Debug, PartialEq, Eq, Structural, Copy, Clone)]
pub enum Op {
    Adc,
    And,
    Asl,
    Bcc,
    Bcs,
    Beq,
    Bit,
    Bmi,
    Bne,
    Bpl,
    Brk,
    Bvc,
    Bvs,
    Clc,
    Cld,
    Cli,
    Clv,
    Compare,
    Cpx,
    Cpy,
    Dec,
    Dex,
    Dey,
    Eor,
    Inc,
    Inx,
    Iny,
    Jmp,
    Jsr,
    Lda,
    Ldx,
    Ldy,
    Lsr,
    Nop,
    Ora,
    Pha,
    Php,
    Pla,
    Plp,
    Rol,
    Ror,
    Rti,
    Rts,
    Sbc,
    Sec,
    Sed,
    Sei,
    Sta,
    Stx,
    Sty,
    Tax,
    Tay,
    Tsx,
    Txa,
    Txs,
    Tya,
}

/// The number that stands for an addressing mode.
pub open spec fn mode_code(mode: AddressingMode) -> u8 {
    match mode {
        AddressingMode::Immediate => 0,
        AddressingMode::ZeroPage => 1,
        AddressingMode::ZeroPageX => 2,
        AddressingMode::ZeroPageY => 3,
        AddressingMode::Absolute => 4,
        AddressingMode::AbsoluteX => 5,
        AddressingMode::AbsoluteY => 6,
        AddressingMode::Indirect => 7,
        AddressingMode::IndirectX => 8,
        AddressingMode::IndirectY => 9,
        AddressingMode::Implied => 10,
        AddressingMode::Relative => 11,
    }
}

/// The addressing mode a number stands for, if any.
pub open spec fn mode_of_code(code: u8) -> Option<AddressingMode> {
    match code {
        0 => Some(AddressingMode::Immediate),
        1 => Some(AddressingMode::ZeroPage),
        2 => Some(AddressingMode::ZeroPageX),
        3 => Some(AddressingMode::ZeroPageY),
        4 => Some(AddressingMode::Absolute),
        5 => Some(AddressingMode::AbsoluteX),
        6 => Some(AddressingMode::AbsoluteY),
        7 => Some(AddressingMode::Indirect),
        8 => Some(AddressingMode::IndirectX),
        9 => Some(AddressingMode::IndirectY),
        10 => Some(AddressingMode::Implied),
        11 => Some(AddressingMode::Relative),
        _ => None,
    }
}

/// The operation and addressing mode of an opcode; `None` for the
/// opcodes this CPU does not implement.
pub open spec fn decoded(op: u8) -> Option<(Op, AddressingMode)> {
    match op {
        0x00 => Some((Op::Brk, AddressingMode::Implied)),
        0xEA => Some((Op::Nop, AddressingMode::Implied)),
        0xA9 => Some((Op::Lda, AddressingMode::Immediate)),
        0xA5 => Some((Op::Lda, AddressingMode::ZeroPage)),
        0xB5 => Some((Op::Lda, AddressingMode::ZeroPageX)),
        0xAD => Some((Op::Lda, AddressingMode::Absolute)),
        0xBD => Some((Op::Lda, AddressingMode::AbsoluteX)),
        0xB9 => Some((Op::Lda, AddressingMode::AbsoluteY)),
        0xA1 => Some((Op::Lda, AddressingMode::IndirectX)),
        0xB1 => Some((Op::Lda, AddressingMode::IndirectY)),
        0xA2 => Some((Op::Ldx, AddressingMode::Immediate)),
        0xA6 => Some((Op::Ldx, AddressingMode::ZeroPage)),
        0xB6 => Some((Op::Ldx, AddressingMode::ZeroPageY)),
        0xAE => Some((Op::Ldx, AddressingMode::Absolute)),
        0xBE => Some((Op::Ldx, AddressingMode::AbsoluteY)),
        0xA0 => Some((Op::Ldy, AddressingMode::Immediate)),
        0xA4 => Some((Op::Ldy, AddressingMode::ZeroPage)),
        0xB4 => Some((Op::Ldy, AddressingMode::ZeroPageX)),
        0xAC => Some((Op::Ldy, AddressingMode::Absolute)),
        0xBC => Some((Op::Ldy, AddressingMode::AbsoluteX)),
        0x85 => Some((Op::Sta, AddressingMode::ZeroPage)),
        0x95 => Some((Op::Sta, AddressingMode::ZeroPageX)),
        0x8D => Some((Op::Sta, AddressingMode::Absolute)),
        0x9D => Some((Op::Sta, AddressingMode::AbsoluteX)),
        0x99 => Some((Op::Sta, AddressingMode::AbsoluteY)),
        0x81 => Some((Op::Sta, AddressingMode::IndirectX)),
        0x91 => Some((Op::Sta, AddressingMode::IndirectY)),
        0x86 => Some((Op::Stx, AddressingMode::ZeroPage)),
        0x96 => Some((Op::Stx, AddressingMode::ZeroPageY)),
        0x8E => Some((Op::Stx, AddressingMode::Absolute)),
        0x84 => Some((Op::Sty, AddressingMode::ZeroPage)),
        0x94 => Some((Op::Sty, AddressingMode::ZeroPageX)),
        0x8C => Some((Op::Sty, AddressingMode::Absolute)),
        0x69 => Some((Op::Adc, AddressingMode::Immediate)),
        0x65 => Some((Op::Adc, AddressingMode::ZeroPage)),
        0x75 => Some((Op::Adc, AddressingMode::ZeroPageX)),
        0x6D => Some((Op::Adc, AddressingMode::Absolute)),
        0x7D => Some((Op::Adc, AddressingMode::AbsoluteX)),
        0x79 => Some((Op::Adc, AddressingMode::AbsoluteY)),
        0x61 => Some((Op::Adc, AddressingMode::IndirectX)),
        0x71 => Some((Op::Adc, AddressingMode::IndirectY)),
        0xE9 => Some((Op::Sbc, AddressingMode::Immediate)),
        0xE5 => Some((Op::Sbc, AddressingMode::ZeroPage)),
        0xF5 => Some((Op::Sbc, AddressingMode::ZeroPageX)),
        0xED => Some((Op::Sbc, AddressingMode::Absolute)),
        0xFD => Some((Op::Sbc, AddressingMode::AbsoluteX)),
        0xF9 => Some((Op::Sbc, AddressingMode::AbsoluteY)),
        0xE1 => Some((Op::Sbc, AddressingMode::IndirectX)),
        0xF1 => Some((Op::Sbc, AddressingMode::IndirectY)),
        0xAA => Some((Op::Tax, AddressingMode::Implied)),
        0xA8 => Some((Op::Tay, AddressingMode::Implied)),
        0xBA => Some((Op::Tsx, AddressingMode::Implied)),
        0x8A => Some((Op::Txa, AddressingMode::Implied)),
        0x9A => Some((Op::Txs, AddressingMode::Implied)),
        0x98 => Some((Op::Tya, AddressingMode::Implied)),
        0x29 => Some((Op::And, AddressingMode::Immediate)),
        0x25 => Some((Op::And, AddressingMode::ZeroPage)),
        0x35 => Some((Op::And, AddressingMode::ZeroPageX)),
        0x2D => Some((Op::And, AddressingMode::Absolute)),
        0x3D => Some((Op::And, AddressingMode::AbsoluteX)),
        0x39 => Some((Op::And, AddressingMode::AbsoluteY)),
        0x21 => Some((Op::And, AddressingMode::IndirectX)),
        0x31 => Some((Op::And, AddressingMode::IndirectY)),
        0x09 => Some((Op::Ora, AddressingMode::Immediate)),
        0x05 => Some((Op::Ora, AddressingMode::ZeroPage)),
        0x15 => Some((Op::Ora, AddressingMode::ZeroPageX)),
        0x0D => Some((Op::Ora, AddressingMode::Absolute)),
        0x1D => Some((Op::Ora, AddressingMode::AbsoluteX)),
        0x19 => Some((Op::Ora, AddressingMode::AbsoluteY)),
        0x01 => Some((Op::Ora, AddressingMode::IndirectX)),
        0x11 => Some((Op::Ora, AddressingMode::IndirectY)),
        0x49 => Some((Op::Eor, AddressingMode::Immediate)),
        0x45 => Some((Op::Eor, AddressingMode::ZeroPage)),
        0x55 => Some((Op::Eor, AddressingMode::ZeroPageX)),
        0x4D => Some((Op::Eor, AddressingMode::Absolute)),
        0x5D => Some((Op::Eor, AddressingMode::AbsoluteX)),
        0x59 => Some((Op::Eor, AddressingMode::AbsoluteY)),
        0x41 => Some((Op::Eor, AddressingMode::IndirectX)),
        0x51 => Some((Op::Eor, AddressingMode::IndirectY)),
        0x0A => Some((Op::Asl, AddressingMode::Implied)),
        0x06 => Some((Op::Asl, AddressingMode::ZeroPage)),
        0x16 => Some((Op::Asl, AddressingMode::ZeroPageX)),
        0x0E => Some((Op::Asl, AddressingMode::Absolute)),
        0x1E => Some((Op::Asl, AddressingMode::AbsoluteX)),
        0x4A => Some((Op::Lsr, AddressingMode::Implied)),
        0x46 => Some((Op::Lsr, AddressingMode::ZeroPage)),
        0x56 => Some((Op::Lsr, AddressingMode::ZeroPageX)),
        0x4E => Some((Op::Lsr, AddressingMode::Absolute)),
        0x5E => Some((Op::Lsr, AddressingMode::AbsoluteX)),
        0xE6 => Some((Op::Inc, AddressingMode::ZeroPage)),
        0xF6 => Some((Op::Inc, AddressingMode::ZeroPageX)),
        0xEE => Some((Op::Inc, AddressingMode::Absolute)),
        0xFE => Some((Op::Inc, AddressingMode::AbsoluteX)),
        0xE8 => Some((Op::Inx, AddressingMode::Implied)),
        0xC8 => Some((Op::Iny, AddressingMode::Implied)),
        0xC6 => Some((Op::Dec, AddressingMode::ZeroPage)),
        0xD6 => Some((Op::Dec, AddressingMode::ZeroPageX)),
        0xCE => Some((Op::Dec, AddressingMode::Absolute)),
        0xDE => Some((Op::Dec, AddressingMode::AbsoluteX)),
        0xCA => Some((Op::Dex, AddressingMode::Implied)),
        0x88 => Some((Op::Dey, AddressingMode::Implied)),
        0x4C => Some((Op::Jmp, AddressingMode::Absolute)),
        0x6C => Some((Op::Jmp, AddressingMode::Indirect)),
        0x90 => Some((Op::Bcc, AddressingMode::Relative)),
        0xB0 => Some((Op::Bcs, AddressingMode::Relative)),
        0xF0 => Some((Op::Beq, AddressingMode::Relative)),
        0xD0 => Some((Op::Bne, AddressingMode::Relative)),
        0x10 => Some((Op::Bpl, AddressingMode::Relative)),
        0x30 => Some((Op::Bmi, AddressingMode::Relative)),
        0x50 => Some((Op::Bvc, AddressingMode::Relative)),
        0x70 => Some((Op::Bvs, AddressingMode::Relative)),
        0x18 => Some((Op::Clc, AddressingMode::Implied)),
        0x38 => Some((Op::Sec, AddressingMode::Implied)),
        0xD8 => Some((Op::Cld, AddressingMode::Implied)),
        0xF8 => Some((Op::Sed, AddressingMode::Implied)),
        0x58 => Some((Op::Cli, AddressingMode::Implied)),
        0x78 => Some((Op::Sei, AddressingMode::Implied)),
        0xB8 => Some((Op::Clv, AddressingMode::Implied)),
        0xC9 => Some((Op::Compare, AddressingMode::Immediate)),
        0xC5 => Some((Op::Compare, AddressingMode::ZeroPage)),
        0xD5 => Some((Op::Compare, AddressingMode::ZeroPageX)),
        0xCD => Some((Op::Compare, AddressingMode::Absolute)),
        0xDD => Some((Op::Compare, AddressingMode::AbsoluteX)),
        0xD9 => Some((Op::Compare, AddressingMode::AbsoluteY)),
        0xC1 => Some((Op::Compare, AddressingMode::IndirectX)),
        0xD1 => Some((Op::Compare, AddressingMode::IndirectY)),
        0xE0 => Some((Op::Cpx, AddressingMode::Immediate)),
        0xE4 => Some((Op::Cpx, AddressingMode::ZeroPage)),
        0xEC => Some((Op::Cpx, AddressingMode::Absolute)),
        0xC0 => Some((Op::Cpy, AddressingMode::Immediate)),
        0xC4 => Some((Op::Cpy, AddressingMode::ZeroPage)),
        0xCC => Some((Op::Cpy, AddressingMode::Absolute)),
        0x48 => Some((Op::Pha, AddressingMode::Implied)),
        0x68 => Some((Op::Pla, AddressingMode::Implied)),
        0x28 => Some((Op::Plp, AddressingMode::Implied)),
        0x08 => Some((Op::Php, AddressingMode::Implied)),
        0x20 => Some((Op::Jsr, AddressingMode::Absolute)),
        0x60 => Some((Op::Rts, AddressingMode::Implied)),
        0x40 => Some((Op::Rti, AddressingMode::Implied)),
        0x24 => Some((Op::Bit, AddressingMode::ZeroPage)),
        0x2C => Some((Op::Bit, AddressingMode::Absolute)),
        0x2A => Some((Op::Rol, AddressingMode::Implied)),
        0x26 => Some((Op::Rol, AddressingMode::ZeroPage)),
        0x36 => Some((Op::Rol, AddressingMode::ZeroPageX)),
        0x2E => Some((Op::Rol, AddressingMode::Absolute)),
        0x3E => Some((Op::Rol, AddressingMode::AbsoluteX)),
        0x6A => Some((Op::Ror, AddressingMode::Implied)),
        0x66 => Some((Op::Ror, AddressingMode::ZeroPage)),
        0x76 => Some((Op::Ror, AddressingMode::ZeroPageX)),
        0x6E => Some((Op::Ror, AddressingMode::Absolute)),
        0x7E => Some((Op::Ror, AddressingMode::AbsoluteX)),
        _ => None,
    }
}

/// Decodes an opcode.
pub fn decode(op: u8) -> (r: Option<(Op, AddressingMode)>)
    ensures
        r == decoded(op),
{
    match op {
        0x00 => Some((Op::Brk, AddressingMode::Implied)),
        0xEA => Some((Op::Nop, AddressingMode::Implied)),
        0xA9 => Some((Op::Lda, AddressingMode::Immediate)),
        0xA5 => Some((Op::Lda, AddressingMode::ZeroPage)),
        0xB5 => Some((Op::Lda, AddressingMode::ZeroPageX)),
        0xAD => Some((Op::Lda, AddressingMode::Absolute)),
        0xBD => Some((Op::Lda, AddressingMode::AbsoluteX)),
        0xB9 => Some((Op::Lda, AddressingMode::AbsoluteY)),
        0xA1 => Some((Op::Lda, AddressingMode::IndirectX)),
        0xB1 => Some((Op::Lda, AddressingMode::IndirectY)),
        0xA2 => Some((Op::Ldx, AddressingMode::Immediate)),
        0xA6 => Some((Op::Ldx, AddressingMode::ZeroPage)),
        0xB6 => Some((Op::Ldx, AddressingMode::ZeroPageY)),
        0xAE => Some((Op::Ldx, AddressingMode::Absolute)),
        0xBE => Some((Op::Ldx, AddressingMode::AbsoluteY)),
        0xA0 => Some((Op::Ldy, AddressingMode::Immediate)),
        0xA4 => Some((Op::Ldy, AddressingMode::ZeroPage)),
        0xB4 => Some((Op::Ldy, AddressingMode::ZeroPageX)),
        0xAC => Some((Op::Ldy, AddressingMode::Absolute)),
        0xBC => Some((Op::Ldy, AddressingMode::AbsoluteX)),
        0x85 => Some((Op::Sta, AddressingMode::ZeroPage)),
        0x95 => Some((Op::Sta, AddressingMode::ZeroPageX)),
        0x8D => Some((Op::Sta, AddressingMode::Absolute)),
        0x9D => Some((Op::Sta, AddressingMode::AbsoluteX)),
        0x99 => Some((Op::Sta, AddressingMode::AbsoluteY)),
        0x81 => Some((Op::Sta, AddressingMode::IndirectX)),
        0x91 => Some((Op::Sta, AddressingMode::IndirectY)),
        0x86 => Some((Op::Stx, AddressingMode::ZeroPage)),
        0x96 => Some((Op::Stx, AddressingMode::ZeroPageY)),
        0x8E => Some((Op::Stx, AddressingMode::Absolute)),
        0x84 => Some((Op::Sty, AddressingMode::ZeroPage)),
        0x94 => Some((Op::Sty, AddressingMode::ZeroPageX)),
        0x8C => Some((Op::Sty, AddressingMode::Absolute)),
        0x69 => Some((Op::Adc, AddressingMode::Immediate)),
        0x65 => Some((Op::Adc, AddressingMode::ZeroPage)),
        0x75 => Some((Op::Adc, AddressingMode::ZeroPageX)),
        0x6D => Some((Op::Adc, AddressingMode::Absolute)),
        0x7D => Some((Op::Adc, AddressingMode::AbsoluteX)),
        0x79 => Some((Op::Adc, AddressingMode::AbsoluteY)),
        0x61 => Some((Op::Adc, AddressingMode::IndirectX)),
        0x71 => Some((Op::Adc, AddressingMode::IndirectY)),
        0xE9 => Some((Op::Sbc, AddressingMode::Immediate)),
        0xE5 => Some((Op::Sbc, AddressingMode::ZeroPage)),
        0xF5 => Some((Op::Sbc, AddressingMode::ZeroPageX)),
        0xED => Some((Op::Sbc, AddressingMode::Absolute)),
        0xFD => Some((Op::Sbc, AddressingMode::AbsoluteX)),
        0xF9 => Some((Op::Sbc, AddressingMode::AbsoluteY)),
        0xE1 => Some((Op::Sbc, AddressingMode::IndirectX)),
        0xF1 => Some((Op::Sbc, AddressingMode::IndirectY)),
        0xAA => Some((Op::Tax, AddressingMode::Implied)),
        0xA8 => Some((Op::Tay, AddressingMode::Implied)),
        0xBA => Some((Op::Tsx, AddressingMode::Implied)),
        0x8A => Some((Op::Txa, AddressingMode::Implied)),
        0x9A => Some((Op::Txs, AddressingMode::Implied)),
        0x98 => Some((Op::Tya, AddressingMode::Implied)),
        0x29 => Some((Op::And, AddressingMode::Immediate)),
        0x25 => Some((Op::And, AddressingMode::ZeroPage)),
        0x35 => Some((Op::And, AddressingMode::ZeroPageX)),
        0x2D => Some((Op::And, AddressingMode::Absolute)),
        0x3D => Some((Op::And, AddressingMode::AbsoluteX)),
        0x39 => Some((Op::And, AddressingMode::AbsoluteY)),
        0x21 => Some((Op::And, AddressingMode::IndirectX)),
        0x31 => Some((Op::And, AddressingMode::IndirectY)),
        0x09 => Some((Op::Ora, AddressingMode::Immediate)),
        0x05 => Some((Op::Ora, AddressingMode::ZeroPage)),
        0x15 => Some((Op::Ora, AddressingMode::ZeroPageX)),
        0x0D => Some((Op::Ora, AddressingMode::Absolute)),
        0x1D => Some((Op::Ora, AddressingMode::AbsoluteX)),
        0x19 => Some((Op::Ora, AddressingMode::AbsoluteY)),
        0x01 => Some((Op::Ora, AddressingMode::IndirectX)),
        0x11 => Some((Op::Ora, AddressingMode::IndirectY)),
        0x49 => Some((Op::Eor, AddressingMode::Immediate)),
        0x45 => Some((Op::Eor, AddressingMode::ZeroPage)),
        0x55 => Some((Op::Eor, AddressingMode::ZeroPageX)),
        0x4D => Some((Op::Eor, AddressingMode::Absolute)),
        0x5D => Some((Op::Eor, AddressingMode::AbsoluteX)),
        0x59 => Some((Op::Eor, AddressingMode::AbsoluteY)),
        0x41 => Some((Op::Eor, AddressingMode::IndirectX)),
        0x51 => Some((Op::Eor, AddressingMode::IndirectY)),
        0x0A => Some((Op::Asl, AddressingMode::Implied)),
        0x06 => Some((Op::Asl, AddressingMode::ZeroPage)),
        0x16 => Some((Op::Asl, AddressingMode::ZeroPageX)),
        0x0E => Some((Op::Asl, AddressingMode::Absolute)),
        0x1E => Some((Op::Asl, AddressingMode::AbsoluteX)),
        0x4A => Some((Op::Lsr, AddressingMode::Implied)),
        0x46 => Some((Op::Lsr, AddressingMode::ZeroPage)),
        0x56 => Some((Op::Lsr, AddressingMode::ZeroPageX)),
        0x4E => Some((Op::Lsr, AddressingMode::Absolute)),
        0x5E => Some((Op::Lsr, AddressingMode::AbsoluteX)),
        0xE6 => Some((Op::Inc, AddressingMode::ZeroPage)),
        0xF6 => Some((Op::Inc, AddressingMode::ZeroPageX)),
        0xEE => Some((Op::Inc, AddressingMode::Absolute)),
        0xFE => Some((Op::Inc, AddressingMode::AbsoluteX)),
        0xE8 => Some((Op::Inx, AddressingMode::Implied)),
        0xC8 => Some((Op::Iny, AddressingMode::Implied)),
        0xC6 => Some((Op::Dec, AddressingMode::ZeroPage)),
        0xD6 => Some((Op::Dec, AddressingMode::ZeroPageX)),
        0xCE => Some((Op::Dec, AddressingMode::Absolute)),
        0xDE => Some((Op::Dec, AddressingMode::AbsoluteX)),
        0xCA => Some((Op::Dex, AddressingMode::Implied)),
        0x88 => Some((Op::Dey, AddressingMode::Implied)),
        0x4C => Some((Op::Jmp, AddressingMode::Absolute)),
        0x6C => Some((Op::Jmp, AddressingMode::Indirect)),
        0x90 => Some((Op::Bcc, AddressingMode::Relative)),
        0xB0 => Some((Op::Bcs, AddressingMode::Relative)),
        0xF0 => Some((Op::Beq, AddressingMode::Relative)),
        0xD0 => Some((Op::Bne, AddressingMode::Relative)),
        0x10 => Some((Op::Bpl, AddressingMode::Relative)),
        0x30 => Some((Op::Bmi, AddressingMode::Relative)),
        0x50 => Some((Op::Bvc, AddressingMode::Relative)),
        0x70 => Some((Op::Bvs, AddressingMode::Relative)),
        0x18 => Some((Op::Clc, AddressingMode::Implied)),
        0x38 => Some((Op::Sec, AddressingMode::Implied)),
        0xD8 => Some((Op::Cld, AddressingMode::Implied)),
        0xF8 => Some((Op::Sed, AddressingMode::Implied)),
        0x58 => Some((Op::Cli, AddressingMode::Implied)),
        0x78 => Some((Op::Sei, AddressingMode::Implied)),
        0xB8 => Some((Op::Clv, AddressingMode::Implied)),
        0xC9 => Some((Op::Compare, AddressingMode::Immediate)),
        0xC5 => Some((Op::Compare, AddressingMode::ZeroPage)),
        0xD5 => Some((Op::Compare, AddressingMode::ZeroPageX)),
        0xCD => Some((Op::Compare, AddressingMode::Absolute)),
        0xDD => Some((Op::Compare, AddressingMode::AbsoluteX)),
        0xD9 => Some((Op::Compare, AddressingMode::AbsoluteY)),
        0xC1 => Some((Op::Compare, AddressingMode::IndirectX)),
        0xD1 => Some((Op::Compare, AddressingMode::IndirectY)),
        0xE0 => Some((Op::Cpx, AddressingMode::Immediate)),
        0xE4 => Some((Op::Cpx, AddressingMode::ZeroPage)),
        0xEC => Some((Op::Cpx, AddressingMode::Absolute)),
        0xC0 => Some((Op::Cpy, AddressingMode::Immediate)),
        0xC4 => Some((Op::Cpy, AddressingMode::ZeroPage)),
        0xCC => Some((Op::Cpy, AddressingMode::Absolute)),
        0x48 => Some((Op::Pha, AddressingMode::Implied)),
        0x68 => Some((Op::Pla, AddressingMode::Implied)),
        0x28 => Some((Op::Plp, AddressingMode::Implied)),
        0x08 => Some((Op::Php, AddressingMode::Implied)),
        0x20 => Some((Op::Jsr, AddressingMode::Absolute)),
        0x60 => Some((Op::Rts, AddressingMode::Implied)),
        0x40 => Some((Op::Rti, AddressingMode::Implied)),
        0x24 => Some((Op::Bit, AddressingMode::ZeroPage)),
        0x2C => Some((Op::Bit, AddressingMode::Absolute)),
        0x2A => Some((Op::Rol, AddressingMode::Implied)),
        0x26 => Some((Op::Rol, AddressingMode::ZeroPage)),
        0x36 => Some((Op::Rol, AddressingMode::ZeroPageX)),
        0x2E => Some((Op::Rol, AddressingMode::Absolute)),
        0x3E => Some((Op::Rol, AddressingMode::AbsoluteX)),
        0x6A => Some((Op::Ror, AddressingMode::Implied)),
        0x66 => Some((Op::Ror, AddressingMode::ZeroPage)),
        0x76 => Some((Op::Ror, AddressingMode::ZeroPageX)),
        0x6E => Some((Op::Ror, AddressingMode::Absolute)),
        0x7E => Some((Op::Ror, AddressingMode::AbsoluteX)),
        _ => None,
    }
}

impl AddressingMode {
    /// The addressing mode a number stands for; `None` past the last one.
    pub fn from_code(mode: u8) -> (r: Option<AddressingMode>)
        ensures
            r == mode_of_code(mode),
    {
        match mode {
            0 => Some(AddressingMode::Immediate),
            1 => Some(AddressingMode::ZeroPage),
            2 => Some(AddressingMode::ZeroPageX),
            3 => Some(AddressingMode::ZeroPageY),
            4 => Some(AddressingMode::Absolute),
            5 => Some(AddressingMode::AbsoluteX),
            6 => Some(AddressingMode::AbsoluteY),
            7 => Some(AddressingMode::Indirect),
            8 => Some(AddressingMode::IndirectX),
            9 => Some(AddressingMode::IndirectY),
            10 => Some(AddressingMode::Implied),
            11 => Some(AddressingMode::Relative),
            _ => None,
        }
    }

    /// The addressing mode a number below 12 stands for.
    pub fn from(mode: u8) -> (m: AddressingMode)
        requires
            mode < 12,
        ensures
            mode_of_code(mode) == Some(m),
            mode_code(m) == mode,
    {
        match Self::from_code(mode) {
            Some(m) => m,
            None => {
                assert(false);
                AddressingMode::Implied
            },
        }
    }

    /// The mode's name.
    pub fn name(&self) -> (s: &'static str)
        ensures
            s@ == mode_name(*self),
    {
        match self {
            AddressingMode::Immediate => "Immediate",
            AddressingMode::ZeroPage => "ZeroPage",
            AddressingMode::ZeroPageX => "ZeroPageX",
            AddressingMode::ZeroPageY => "ZeroPageY",
            AddressingMode::Absolute => "Absolute",
            AddressingMode::AbsoluteX => "AbsoluteX",
            AddressingMode::AbsoluteY => "AbsoluteY",
            AddressingMode::Indirect => "Indirect",
            AddressingMode::IndirectX => "IndirectX",
            AddressingMode::IndirectY => "IndirectY",
            AddressingMode::Implied => "Implied",
            AddressingMode::Relative => "Relative",
        }
    }
}

impl From<AddressingMode> for u8 {
    fn from(mode: AddressingMode) -> (r: u8) {
        match mode {
            AddressingMode::Immediate => 0,
            AddressingMode::ZeroPage => 1,
            AddressingMode::ZeroPageX => 2,
            AddressingMode::ZeroPageY => 3,
            AddressingMode::Absolute => 4,
            AddressingMode::AbsoluteX => 5,
            AddressingMode::AbsoluteY => 6,
            AddressingMode::Indirect => 7,
            AddressingMode::IndirectX => 8,
            AddressingMode::IndirectY => 9,
            AddressingMode::Implied => 10,
            AddressingMode::Relative => 11,
        }
    }
}

impl vstd::std_specs::convert::FromSpecImpl<AddressingMode> for u8 {
    open spec fn obeys_from_spec() -> bool {
        true
    }

    open spec fn from_spec(mode: AddressingMode) -> u8 {
        mode_code(mode)
    }
}

/// Every addressing mode's number gives the mode back.
pub proof fn law_mode_code_roundtrip(mode: AddressingMode)
    ensures
        mode_of_code(mode_code(mode)) == Some(mode),
{
}

} // verus!
