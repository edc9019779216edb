use vstd::prelude::*;
use vstd::utf8::{decode_utf8, encode_utf8, is_ascii_chars, is_ascii_chars_encode_utf8, valid_utf8};
use crate::savestate::string_from_utf8_lossy;
use super::instructions::{step_ok, stepped};
use super::opcodes::{decode, decoded, AddressingMode, Op};
use super::memory::Memory;
use super::{read_at, CPU};

verus! {

// ---------------------------------------------------------------------------
// Text of a trace line, as ASCII bytes
// ---------------------------------------------------------------------------

/// The uppercase hexadecimal digit for `n` (0 to 15).
pub open spec fn hex_digit(n: int) -> u8 {
    if n < 10 {
        ('0' as u8 + n) as u8
    } else {
        ('A' as u8 + n - 10) as u8
    }
}

/// Two uppercase hexadecimal digits.
pub open spec fn hex2(v: u8) -> Seq<u8> {
    seq![hex_digit(v as int / 16), hex_digit(v as int % 16)]
}

/// Four uppercase hexadecimal digits.
pub open spec fn hex4(v: u16) -> Seq<u8> {
    hex2((v / 256) as u8) + hex2((v % 256) as u8)
}

/// The ASCII bytes of three characters.
pub open spec fn ascii3(a: char, b: char, c: char) -> Seq<u8> {
    seq![a as u8, b as u8, c as u8]
}

/// `s` padded with spaces on the right to `n` bytes.
pub open spec fn padded(s: Seq<u8>, n: nat) -> Seq<u8> {
    if s.len() < n {
        s + Seq::new((n - s.len()) as nat, |i: int| ' ' as u8)
    } else {
        s
    }
}

/// The assembler mnemonic of an operation.
#[verifier::opaque]
pub open spec fn mnemonic(op: Op) -> Seq<u8> {
    match op {
        Op::Adc => ascii3('A', 'D', 'C'),
        Op::And => ascii3('A', 'N', 'D'),
        Op::Asl => ascii3('A', 'S', 'L'),
        Op::Bcc => ascii3('B', 'C', 'C'),
        Op::Bcs => ascii3('B', 'C', 'S'),
        Op::Beq => ascii3('B', 'E', 'Q'),
        Op::Bit => ascii3('B', 'I', 'T'),
        Op::Bmi => ascii3('B', 'M', 'I'),
        Op::Bne => ascii3('B', 'N', 'E'),
        Op::Bpl => ascii3('B', 'P', 'L'),
        Op::Brk => ascii3('B', 'R', 'K'),
        Op::Bvc => ascii3('B', 'V', 'C'),
        Op::Bvs => ascii3('B', 'V', 'S'),
        Op::Clc => ascii3('C', 'L', 'C'),
        Op::Cld => ascii3('C', 'L', 'D'),
        Op::Cli => ascii3('C', 'L', 'I'),
        Op::Clv => ascii3('C', 'L', 'V'),
        Op::Compare => ascii3('C', 'M', 'P'),
        Op::Cpx => ascii3('C', 'P', 'X'),
        Op::Cpy => ascii3('C', 'P', 'Y'),
        Op::Dec => ascii3('D', 'E', 'C'),
        Op::Dex => ascii3('D', 'E', 'X'),
        Op::Dey => ascii3('D', 'E', 'Y'),
        Op::Eor => ascii3('E', 'O', 'R'),
        Op::Inc => ascii3('I', 'N', 'C'),
        Op::Inx => ascii3('I', 'N', 'X'),
        Op::Iny => ascii3('I', 'N', 'Y'),
        Op::Jmp => ascii3('J', 'M', 'P'),
        Op::Jsr => ascii3('J', 'S', 'R'),
        Op::Lda => ascii3('L', 'D', 'A'),
        Op::Ldx => ascii3('L', 'D', 'X'),
        Op::Ldy => ascii3('L', 'D', 'Y'),
        Op::Lsr => ascii3('L', 'S', 'R'),
        Op::Nop => ascii3('N', 'O', 'P'),
        Op::Ora => ascii3('O', 'R', 'A'),
        Op::Pha => ascii3('P', 'H', 'A'),
        Op::Php => ascii3('P', 'H', 'P'),
        Op::Pla => ascii3('P', 'L', 'A'),
        Op::Plp => ascii3('P', 'L', 'P'),
        Op::Rol => ascii3('R', 'O', 'L'),
        Op::Ror => ascii3('R', 'O', 'R'),
        Op::Rti => ascii3('R', 'T', 'I'),
        Op::Rts => ascii3('R', 'T', 'S'),
        Op::Sbc => ascii3('S', 'B', 'C'),
        Op::Sec => ascii3('S', 'E', 'C'),
        Op::Sed => ascii3('S', 'E', 'D'),
        Op::Sei => ascii3('S', 'E', 'I'),
        Op::Sta => ascii3('S', 'T', 'A'),
        Op::Stx => ascii3('S', 'T', 'X'),
        Op::Sty => ascii3('S', 'T', 'Y'),
        Op::Tax => ascii3('T', 'A', 'X'),
        Op::Tay => ascii3('T', 'A', 'Y'),
        Op::Tsx => ascii3('T', 'S', 'X'),
        Op::Txa => ascii3('T', 'X', 'A'),
        Op::Txs => ascii3('T', 'X', 'S'),
        Op::Tya => ascii3('T', 'Y', 'A'),
    }
}

/// The mnemonic of an opcode, or "???" for one this CPU does not know.
#[verifier::opaque]
pub open spec fn code_name(code: u8) -> Seq<u8> {
    match decoded(code) {
        Some((op, _)) => mnemonic(op),
        None => ascii3('?', '?', '?'),
    }
}

/// How an opcode addresses its operand; unknown opcodes take none.
#[verifier::opaque]
pub open spec fn code_mode(code: u8) -> AddressingMode {
    match decoded(code) {
        Some((_, mode)) => mode,
        None => AddressingMode::Implied,
    }
}

/// The number of operand bytes that follow an opcode in this mode.
pub open spec fn operand_count(mode: AddressingMode) -> nat {
    match mode {
        AddressingMode::Implied => 0,
        AddressingMode::Absolute | AddressingMode::AbsoluteX | AddressingMode::AbsoluteY
        | AddressingMode::Indirect => 2,
        _ => 1,
    }
}

/// The operand bytes in hexadecimal, separated by spaces.
pub open spec fn hex_bytes(args: Seq<u8>) -> Seq<u8> {
    if args.len() == 0 {
        seq![]
    } else if args.len() == 1 {
        hex2(args[0])
    } else {
        hex2(args[0]) + seq![' ' as u8] + hex2(args[1])
    }
}

/// The operand in assembler syntax: the first byte is the low one; an
/// indirect jump shows its low byte only.
pub open spec fn operand_text(mode: AddressingMode, args: Seq<u8>) -> Seq<u8> {
    let d = seq!['$' as u8];
    match mode {
        AddressingMode::Immediate => seq!['#' as u8] + d + hex2(args[0]),
        AddressingMode::ZeroPage => d + hex2(args[0]),
        AddressingMode::ZeroPageX => d + hex2(args[0]) + seq![',' as u8, 'X' as u8],
        AddressingMode::ZeroPageY => d + hex2(args[0]) + seq![',' as u8, 'Y' as u8],
        AddressingMode::Absolute => d + hex2(args[1]) + hex2(args[0]),
        AddressingMode::AbsoluteX => d + hex2(args[1]) + hex2(args[0]) + seq![',' as u8, 'X' as u8],
        AddressingMode::AbsoluteY => d + hex2(args[1]) + hex2(args[0]) + seq![',' as u8, 'Y' as u8],
        AddressingMode::Indirect => seq!['(' as u8] + d + hex2(args[0]) + seq![')' as u8],
        AddressingMode::IndirectX => seq!['(' as u8] + d + hex2(args[0]) + seq![',' as u8, 'X' as u8, ')' as u8],
        AddressingMode::IndirectY => seq!['(' as u8] + d + hex2(args[0]) + seq![')' as u8, ',' as u8, 'Y' as u8],
        AddressingMode::Implied => seq![],
        AddressingMode::Relative => d + hex2(args[0]),
    }
}

/// The registers: "A:.. X:.. Y:.. P:.. SP:..".
pub open spec fn regs_text(a: u8, x: u8, y: u8, p: u8, sp: u8) -> Seq<u8> {
    seq!['A' as u8, ':' as u8] + hex2(a) + seq![' ' as u8, 'X' as u8, ':' as u8] + hex2(x) + seq![
        ' ' as u8,
        'Y' as u8,
        ':' as u8,
    ] + hex2(y) + seq![' ' as u8, 'P' as u8, ':' as u8] + hex2(p) + seq![
        ' ' as u8,
        'S' as u8,
        'P' as u8,
        ':' as u8,
    ] + hex2(sp)
}

/// One trace line: the address, the raw bytes padded to 8 columns, the
/// disassembly padded to 12 columns and the registers, two spaces apart.
pub open spec fn trace_line(pc: u16, code: u8, args: Seq<u8>, a: u8, x: u8, y: u8, p: u8, sp: u8) -> Seq<u8> {
    let two = seq![' ' as u8, ' ' as u8];
    let raw = hex2(code) + seq![' ' as u8] + hex_bytes(args);
    let dis = code_name(code) + seq![' ' as u8] + operand_text(code_mode(code), args);
    hex4(pc) + two + padded(raw, 8) + two + padded(dis, 12) + two + regs_text(a, x, y, p, sp)
}

/// The trace of the instruction at the program counter, and the CPU after
/// the reads it makes: the opcode is read twice, the first read naming the
/// instruction and its addressing mode, the second giving the count of
/// operand bytes, which are then read one by one.
pub open spec fn traced(c: CPU) -> (Seq<u8>, CPU) {
    let code = c.bus.peek(c.pc);
    let c0 = read_at(c, c.pc);
    let code2 = c0.bus.peek(c.pc);
    let cb = read_at(c0, c.pc);
    let n = operand_count(code_mode(code2));
    let a0 = cb.bus.peek((c.pc + 1) as u16);
    let c1 = if n >= 1 { read_at(cb, (c.pc + 1) as u16) } else { cb };
    let a1 = c1.bus.peek((c.pc + 2) as u16);
    let c2 = if n >= 2 { read_at(c1, (c.pc + 2) as u16) } else { c1 };
    let args = if n == 0 { seq![] } else if n == 1 { seq![a0] } else { seq![a0, a1] };
    (trace_line(c.pc, code, args, c.a, c.x, c.y, c.status, c.sp), c2)
}

/// The reads of the trace stay in range, the operand bytes read are enough
/// for the instruction the first read names, and the step after is in range.
pub open spec fn trace_ok(c: CPU) -> bool {
    let code = c.bus.peek(c.pc);
    let c0 = read_at(c, c.pc);
    let code2 = c0.bus.peek(c.pc);
    let cb = read_at(c0, c.pc);
    let n = operand_count(code_mode(code2));
    let c1 = if n >= 1 { read_at(cb, (c.pc + 1) as u16) } else { cb };
    &&& c.bus.readable(c.pc)
    &&& c0.bus.readable(c.pc)
    &&& operand_count(code_mode(code)) <= n
    &&& c.pc + n <= 0xFFFF
    &&& n >= 1 ==> cb.bus.readable((c.pc + 1) as u16)
    &&& n >= 2 ==> c1.bus.readable((c.pc + 2) as u16)
    &&& step_ok(traced(c).1)
}

/// The characters of ASCII bytes.
pub open spec fn ascii_chars(b: Seq<u8>) -> Seq<char> {
    Seq::new(b.len(), |i: int| b[i] as char)
}

/// ASCII bytes are valid UTF-8 and decode to their characters.
proof fn lemma_ascii_decode(b: Seq<u8>)
    requires
        forall|i: int| 0 <= i < b.len() ==> b[i] < 128,
    ensures
        valid_utf8(b),
        decode_utf8(b) == ascii_chars(b),
{
    let cs = ascii_chars(b);
    assert(is_ascii_chars(cs));
    is_ascii_chars_encode_utf8(cs);
    assert(encode_utf8(cs) =~= b);
    vstd::utf8::encode_utf8_valid_utf8(cs);
    vstd::utf8::encode_utf8_decode_utf8(cs);
}

// ---------------------------------------------------------------------------
// Building the text
// ---------------------------------------------------------------------------

fn push3(out: &mut Vec<u8>, a: char, b: char, c: char)
    requires
        a <= '\u{7f}' && b <= '\u{7f}' && c <= '\u{7f}',
    ensures
        final(out)@ == old(out)@ + ascii3(a, b, c),
{
    out.push(a as u8);
    out.push(b as u8);
    out.push(c as u8);
    assert(out@ == old(out)@ + ascii3(a, b, c));
}

fn push_mnemonic(out: &mut Vec<u8>, op: Op)
    ensures
        final(out)@ == old(out)@ + mnemonic(op),
{
    reveal(mnemonic);
    match op {
        Op::Adc => push3(out, 'A', 'D', 'C'),
        Op::And => push3(out, 'A', 'N', 'D'),
        Op::Asl => push3(out, 'A', 'S', 'L'),
        Op::Bcc => push3(out, 'B', 'C', 'C'),
        Op::Bcs => push3(out, 'B', 'C', 'S'),
        Op::Beq => push3(out, 'B', 'E', 'Q'),
        Op::Bit => push3(out, 'B', 'I', 'T'),
        Op::Bmi => push3(out, 'B', 'M', 'I'),
        Op::Bne => push3(out, 'B', 'N', 'E'),
        Op::Bpl => push3(out, 'B', 'P', 'L'),
        Op::Brk => push3(out, 'B', 'R', 'K'),
        Op::Bvc => push3(out, 'B', 'V', 'C'),
        Op::Bvs => push3(out, 'B', 'V', 'S'),
        Op::Clc => push3(out, 'C', 'L', 'C'),
        Op::Cld => push3(out, 'C', 'L', 'D'),
        Op::Cli => push3(out, 'C', 'L', 'I'),
        Op::Clv => push3(out, 'C', 'L', 'V'),
        Op::Compare => push3(out, 'C', 'M', 'P'),
        Op::Cpx => push3(out, 'C', 'P', 'X'),
        Op::Cpy => push3(out, 'C', 'P', 'Y'),
        Op::Dec => push3(out, 'D', 'E', 'C'),
        Op::Dex => push3(out, 'D', 'E', 'X'),
        Op::Dey => push3(out, 'D', 'E', 'Y'),
        Op::Eor => push3(out, 'E', 'O', 'R'),
        Op::Inc => push3(out, 'I', 'N', 'C'),
        Op::Inx => push3(out, 'I', 'N', 'X'),
        Op::Iny => push3(out, 'I', 'N', 'Y'),
        Op::Jmp => push3(out, 'J', 'M', 'P'),
        Op::Jsr => push3(out, 'J', 'S', 'R'),
        Op::Lda => push3(out, 'L', 'D', 'A'),
        Op::Ldx => push3(out, 'L', 'D', 'X'),
        Op::Ldy => push3(out, 'L', 'D', 'Y'),
        Op::Lsr => push3(out, 'L', 'S', 'R'),
        Op::Nop => push3(out, 'N', 'O', 'P'),
        Op::Ora => push3(out, 'O', 'R', 'A'),
        Op::Pha => push3(out, 'P', 'H', 'A'),
        Op::Php => push3(out, 'P', 'H', 'P'),
        Op::Pla => push3(out, 'P', 'L', 'A'),
        Op::Plp => push3(out, 'P', 'L', 'P'),
        Op::Rol => push3(out, 'R', 'O', 'L'),
        Op::Ror => push3(out, 'R', 'O', 'R'),
        Op::Rti => push3(out, 'R', 'T', 'I'),
        Op::Rts => push3(out, 'R', 'T', 'S'),
        Op::Sbc => push3(out, 'S', 'B', 'C'),
        Op::Sec => push3(out, 'S', 'E', 'C'),
        Op::Sed => push3(out, 'S', 'E', 'D'),
        Op::Sei => push3(out, 'S', 'E', 'I'),
        Op::Sta => push3(out, 'S', 'T', 'A'),
        Op::Stx => push3(out, 'S', 'T', 'X'),
        Op::Sty => push3(out, 'S', 'T', 'Y'),
        Op::Tax => push3(out, 'T', 'A', 'X'),
        Op::Tay => push3(out, 'T', 'A', 'Y'),
        Op::Tsx => push3(out, 'T', 'S', 'X'),
        Op::Txa => push3(out, 'T', 'X', 'A'),
        Op::Txs => push3(out, 'T', 'X', 'S'),
        Op::Tya => push3(out, 'T', 'Y', 'A'),
    }
}

fn push_char(out: &mut Vec<u8>, c: char)
    requires
        c <= '\u{7f}',
    ensures
        final(out)@ == old(out)@.push(c as u8),
{
    out.push(c as u8);
}

fn hex_digit_of(n: u8) -> (d: u8)
    requires
        n < 16,
    ensures
        d == hex_digit(n as int),
{
    if n < 10 {
        '0' as u8 + n
    } else {
        'A' as u8 + n - 10
    }
}

fn push_hex2(out: &mut Vec<u8>, v: u8)
    ensures
        final(out)@ == old(out)@ + hex2(v),
{
    out.push(hex_digit_of(v / 16));
    out.push(hex_digit_of(v % 16));
    assert(out@ == old(out)@ + hex2(v));
}

fn push_hex4(out: &mut Vec<u8>, v: u16)
    ensures
        final(out)@ == old(out)@ + hex4(v),
{
    push_hex2(out, (v / 256) as u8);
    push_hex2(out, (v % 256) as u8);
    assert(out@ == old(out)@ + hex4(v));
}

fn pad_to(out: &mut Vec<u8>, start: usize, n: usize)
    requires
        start <= old(out)@.len(),
        start + n <= usize::MAX,
    ensures
        final(out)@ == old(out)@.subrange(0, start as int) + padded(
            old(out)@.subrange(start as int, old(out)@.len() as int),
            n as nat,
        ),
{
    let ghost field = out@.subrange(start as int, out@.len() as int);
    while out.len() - start < n
        invariant
            start <= out@.len(),
            start + n <= usize::MAX,
            old(out)@.len() <= out@.len(),
            out@.subrange(0, old(out)@.len() as int) == old(out)@,
            forall|i: int| old(out)@.len() <= i < out@.len() ==> out@[i] == ' ' as u8,
            field.len() < n ==> out@.len() - start <= n,
            field.len() >= n ==> out@ == old(out)@,
            field == old(out)@.subrange(start as int, old(out)@.len() as int),
        decreases n - (out@.len() - start),
    {
        out.push(' ' as u8);
    }
    proof {
        let f = old(out)@.subrange(start as int, old(out)@.len() as int);
        assert(field == f);
        if f.len() < n {
            assert(out@ =~= old(out)@.subrange(0, start as int) + (f + Seq::new(
                (n - f.len()) as nat,
                |i: int| ' ' as u8,
            )));
        } else {
            assert(out@ =~= old(out)@.subrange(0, start as int) + f);
        }
    }
}

fn push_operand(out: &mut Vec<u8>, mode: AddressingMode, a0: u8, a1: u8)
    ensures
        final(out)@ == old(out)@ + operand_text(mode, seq![a0, a1]),
{
    let ghost args = seq![a0, a1];
    match mode {
        AddressingMode::Immediate => {
            push_char(out, '#');
            push_char(out, '$');
            push_hex2(out, a0);
        },
        AddressingMode::ZeroPage | AddressingMode::Relative => {
            push_char(out, '$');
            push_hex2(out, a0);
        },
        AddressingMode::ZeroPageX => {
            push_char(out, '$');
            push_hex2(out, a0);
            push_char(out, ',');
            push_char(out, 'X');
        },
        AddressingMode::ZeroPageY => {
            push_char(out, '$');
            push_hex2(out, a0);
            push_char(out, ',');
            push_char(out, 'Y');
        },
        AddressingMode::Absolute => {
            push_char(out, '$');
            push_hex2(out, a1);
            push_hex2(out, a0);
        },
        AddressingMode::AbsoluteX => {
            push_char(out, '$');
            push_hex2(out, a1);
            push_hex2(out, a0);
            push_char(out, ',');
            push_char(out, 'X');
        },
        AddressingMode::AbsoluteY => {
            push_char(out, '$');
            push_hex2(out, a1);
            push_hex2(out, a0);
            push_char(out, ',');
            push_char(out, 'Y');
        },
        AddressingMode::Indirect => {
            push_char(out, '(');
            push_char(out, '$');
            push_hex2(out, a0);
            push_char(out, ')');
        },
        AddressingMode::IndirectX => {
            push_char(out, '(');
            push_char(out, '$');
            push_hex2(out, a0);
            push_char(out, ',');
            push_char(out, 'X');
            push_char(out, ')');
        },
        AddressingMode::IndirectY => {
            push_char(out, '(');
            push_char(out, '$');
            push_hex2(out, a0);
            push_char(out, ')');
            push_char(out, ',');
            push_char(out, 'Y');
        },
        AddressingMode::Implied => {},
    }
    assert(out@ == old(out)@ + operand_text(mode, args));
}


/// Every byte is ASCII.
pub open spec fn is_ascii_bytes(b: Seq<u8>) -> bool {
    forall|i: int| 0 <= i < b.len() ==> #[trigger] b[i] < 128
}

proof fn lemma_concat_ascii(a: Seq<u8>, b: Seq<u8>)
    requires
        is_ascii_bytes(a),
        is_ascii_bytes(b),
    ensures
        is_ascii_bytes(a + b),
{
    assert forall|i: int| 0 <= i < (a + b).len() implies #[trigger] (a + b)[i] < 128 by {
        if i >= a.len() {
            assert((a + b)[i] == b[i - a.len()]);
        }
    }
}

proof fn lemma_hex_ascii(v: u8, w: u16)
    ensures
        is_ascii_bytes(hex2(v)),
        is_ascii_bytes(hex4(w)),
{
    lemma_concat_ascii(hex2((w / 256) as u8), hex2((w % 256) as u8));
}

proof fn lemma_padded_ascii(s: Seq<u8>, n: nat)
    requires
        is_ascii_bytes(s),
    ensures
        is_ascii_bytes(padded(s, n)),
{
    if s.len() < n {
        lemma_concat_ascii(s, Seq::new((n - s.len()) as nat, |i: int| ' ' as u8));
    }
}

/// A trace line is plain ASCII.
proof fn lemma_trace_line_ascii(pc: u16, code: u8, args: Seq<u8>, a: u8, x: u8, y: u8, p: u8, sp: u8)
    requires
        args.len() <= 2,
        operand_count(code_mode(code)) <= args.len(),
    ensures
        is_ascii_bytes(trace_line(pc, code, args, a, x, y, p, sp)),
{
    let two = seq![' ' as u8, ' ' as u8];
    let sp1 = seq![' ' as u8];
    lemma_hex_ascii(code, pc);
    let hb = hex_bytes(args);
    if args.len() == 1 {
        lemma_hex_ascii(args[0], 0);
    } else if args.len() == 2 {
        lemma_hex_ascii(args[0], 0);
        lemma_hex_ascii(args[1], 0);
        lemma_concat_ascii(hex2(args[0]), sp1);
        lemma_concat_ascii(hex2(args[0]) + sp1, hex2(args[1]));
    }
    lemma_concat_ascii(hex2(code), sp1);
    lemma_concat_ascii(hex2(code) + sp1, hb);
    let raw = hex2(code) + sp1 + hb;
    lemma_padded_ascii(raw, 8);
    let name = code_name(code);
    lemma_code(code);
    let ot = operand_text(code_mode(code), args);
    lemma_operand_text_ascii(code_mode(code), args);
    lemma_concat_ascii(name, sp1);
    lemma_concat_ascii(name + sp1, ot);
    let dis = name + sp1 + ot;
    lemma_padded_ascii(dis, 12);
    let rt = regs_text(a, x, y, p, sp);
    assert(is_ascii_bytes(rt)) by {
        lemma_hex_ascii(a, 0);
        lemma_hex_ascii(x, 0);
        lemma_hex_ascii(y, 0);
        lemma_hex_ascii(p, 0);
        lemma_hex_ascii(sp, 0);
    }
    lemma_concat_ascii(hex4(pc), two);
    lemma_concat_ascii(hex4(pc) + two, padded(raw, 8));
    lemma_concat_ascii(hex4(pc) + two + padded(raw, 8), two);
    lemma_concat_ascii(hex4(pc) + two + padded(raw, 8) + two, padded(dis, 12));
    lemma_concat_ascii(hex4(pc) + two + padded(raw, 8) + two + padded(dis, 12), two);
    lemma_concat_ascii(hex4(pc) + two + padded(raw, 8) + two + padded(dis, 12) + two, rt);
}

proof fn lemma_mnemonic_ascii(op: Op)
    ensures
        is_ascii_bytes(mnemonic(op)),
{
    reveal(mnemonic);
}

/// What the name and the mode of an opcode are, from its decoding.
proof fn lemma_code(code: u8)
    ensures
        is_ascii_bytes(code_name(code)),
        match decoded(code) {
            Some((op, mode)) => code_name(code) == mnemonic(op) && code_mode(code) == mode,
            None => code_name(code) == ascii3('?', '?', '?') && code_mode(code) == AddressingMode::Implied,
        },
{
    reveal(code_name);
    reveal(code_mode);
    match decoded(code) {
        Some((op, _)) => lemma_mnemonic_ascii(op),
        None => {},
    }
}

proof fn lemma_operand_text_ascii(mode: AddressingMode, args: Seq<u8>)
    requires
        operand_count(mode) <= args.len(),
    ensures
        is_ascii_bytes(operand_text(mode, args)),
{
    let ot = operand_text(mode, args);
    if args.len() >= 1 {
        lemma_hex_ascii(args[0], 0);
    }
    if args.len() >= 2 {
        lemma_hex_ascii(args[1], 0);
    }
    assert forall|i: int| 0 <= i < ot.len() implies #[trigger] ot[i] < 128 by {
        assert(hex2(args[0]).len() == 2);
    }
}

fn operand_count_of(mode: AddressingMode) -> (n: u16)
    ensures
        n == operand_count(mode),
{
    match mode {
        AddressingMode::Implied => 0,
        AddressingMode::Absolute | AddressingMode::AbsoluteX | AddressingMode::AbsoluteY
        | AddressingMode::Indirect => 2,
        _ => 1,
    }
}

fn push_regs(out: &mut Vec<u8>, a: u8, x: u8, y: u8, p: u8, sp: u8)
    ensures
        final(out)@ == old(out)@ + regs_text(a, x, y, p, sp),
{
    push_char(out, 'A');
    push_char(out, ':');
    push_hex2(out, a);
    push_char(out, ' ');
    push_char(out, 'X');
    push_char(out, ':');
    push_hex2(out, x);
    push_char(out, ' ');
    push_char(out, 'Y');
    push_char(out, ':');
    push_hex2(out, y);
    push_char(out, ' ');
    push_char(out, 'P');
    push_char(out, ':');
    push_hex2(out, p);
    push_char(out, ' ');
    push_char(out, 'S');
    push_char(out, 'P');
    push_char(out, ':');
    push_hex2(out, sp);
    assert(out@ == old(out)@ + regs_text(a, x, y, p, sp));
}

/// The operand bytes that were read: as many as the mode takes.
pub open spec fn args_of(n: u16, a0: u8, a1: u8) -> Seq<u8> {
    if n == 0 {
        seq![]
    } else if n == 1 {
        seq![a0]
    } else {
        seq![a0, a1]
    }
}

fn push_raw(out: &mut Vec<u8>, code: u8, n: u16, a0: u8, a1: u8)
    ensures
        final(out)@ == old(out)@ + (hex2(code) + seq![' ' as u8] + hex_bytes(args_of(n, a0, a1))),
{
    push_hex2(out, code);
    push_char(out, ' ');
    if n >= 1 {
        push_hex2(out, a0);
    }
    if n >= 2 {
        push_char(out, ' ');
        push_hex2(out, a1);
    }
    assert(out@ == old(out)@ + (hex2(code) + seq![' ' as u8] + hex_bytes(args_of(n, a0, a1))));
}

fn push_disasm(out: &mut Vec<u8>, code: u8, n: u16, a0: u8, a1: u8)
    requires
        operand_count(code_mode(code)) <= n <= 2,
    ensures
        final(out)@ == old(out)@ + (code_name(code) + seq![' ' as u8] + operand_text(
            code_mode(code),
            args_of(n, a0, a1),
        )),
{
    proof {
        lemma_code(code);
    }
    let mode = match decode(code) {
        Some((op, mode)) => {
            push_mnemonic(out, op);
            mode
        },
        None => {
            push3(out, '?', '?', '?');
            AddressingMode::Implied
        },
    };
    push_char(out, ' ');
    push_operand(out, mode, a0, a1);
    assert(operand_text(mode, seq![a0, a1]) == operand_text(code_mode(code), args_of(n, a0, a1)));
}

/// The bytes of one trace line.
fn trace_line_bytes(pc: u16, code: u8, n: u16, a0: u8, a1: u8, a: u8, x: u8, y: u8, p: u8, sp: u8)
    -> (out: Vec<u8>)
    requires
        operand_count(code_mode(code)) <= n <= 2,
    ensures
        out@ == trace_line(pc, code, args_of(n, a0, a1), a, x, y, p, sp),
{
    let ghost args = args_of(n, a0, a1);
    let ghost two = seq![' ' as u8, ' ' as u8];
    let ghost raw = hex2(code) + seq![' ' as u8] + hex_bytes(args);
    let ghost dis = code_name(code) + seq![' ' as u8] + operand_text(code_mode(code), args);
    let mut out: Vec<u8> = Vec::new();
    push_hex4(&mut out, pc);
    push_char(&mut out, ' ');
    push_char(&mut out, ' ');
    let ghost head = out@;
    assert(head == hex4(pc) + two);
    let start = out.len();
    push_raw(&mut out, code, n, a0, a1);
    assert(out@.subrange(start as int, out@.len() as int) == raw);
    assert(out@.subrange(0, start as int) == head);
    pad_to(&mut out, start, 8);
    push_char(&mut out, ' ');
    push_char(&mut out, ' ');
    let ghost head2 = out@;
    assert(head2 == hex4(pc) + two + padded(raw, 8) + two);
    let start2 = out.len();
    push_disasm(&mut out, code, n, a0, a1);
    assert(out@.subrange(start2 as int, out@.len() as int) == dis);
    assert(out@.subrange(0, start2 as int) == head2);
    pad_to(&mut out, start2, 12);
    push_char(&mut out, ' ');
    push_char(&mut out, ' ');
    let ghost head3 = out@;
    assert(head3 == hex4(pc) + two + padded(raw, 8) + two + padded(dis, 12) + two);
    push_regs(&mut out, a, x, y, p, sp);
    out
}

impl CPU {
    /// Disassembles the instruction at the program counter into a trace
    /// line (address, raw bytes, mnemonic and operand, registers), then
    /// runs one step; returns the step's cycles and the line.
    pub fn trace_step(&mut self) -> (r: (u32, String))
        requires
            trace_ok(*old(self)),
        ensures
            r.1@ == ascii_chars(traced(*old(self)).0),
            stepped(traced(*old(self)).1, *final(self), r.0),
    {
        let pc = self.pc;
        let a = self.a;
        let x = self.x;
        let y = self.y;
        let p = self.status;
        let sp = self.sp;
        let code = self.read(pc);
        let code2 = self.read(pc);
        proof {
            lemma_code(code);
            lemma_code(code2);
        }
        let mode = match decode(code2) {
            Some((_, mode)) => mode,
            None => AddressingMode::Implied,
        };
        let n = operand_count_of(mode);
        let mut a0: u8 = 0;
        let mut a1: u8 = 0;
        if n >= 1 {
            a0 = self.read(pc + 1);
        }
        if n >= 2 {
            a1 = self.read(pc + 2);
        }
        let out = trace_line_bytes(pc, code, n, a0, a1, a, x, y, p, sp);
        proof {
            lemma_trace_line_ascii(pc, code, args_of(n, a0, a1), a, x, y, p, sp);
            lemma_ascii_decode(out@);
        }
        let line = string_from_utf8_lossy(out.as_slice());
        let cycles = self.step();
        (cycles, line)
    }
}


/// The registers of the state line: " A .. X .. Y .. P .. SP ..".
pub open spec fn state_regs(a: u8, x: u8, y: u8, p: u8, sp: u8) -> Seq<u8> {
    seq![' ' as u8, 'A' as u8, ' ' as u8] + hex2(a) + seq![' ' as u8, 'X' as u8, ' ' as u8] + hex2(x)
        + seq![' ' as u8, 'Y' as u8, ' ' as u8] + hex2(y) + seq![' ' as u8, 'P' as u8, ' ' as u8]
        + hex2(p) + seq![' ' as u8, 'S' as u8, 'P' as u8, ' ' as u8] + hex2(sp)
}

/// The state line: "PPPP OO MNE A .. X .. Y .. P .. SP ..".
pub open spec fn state_line(pc: u16, code: u8, a: u8, x: u8, y: u8, p: u8, sp: u8) -> Seq<u8> {
    hex4(pc) + seq![' ' as u8] + hex2(code) + seq![' ' as u8] + code_name(code) + state_regs(a, x, y, p, sp)
}

proof fn lemma_state_line_ascii(pc: u16, code: u8, a: u8, x: u8, y: u8, p: u8, sp: u8)
    ensures
        is_ascii_bytes(state_line(pc, code, a, x, y, p, sp)),
{
    let sp1 = seq![' ' as u8];
    lemma_code(code);
    lemma_hex_ascii(code, pc);
    let r = state_regs(a, x, y, p, sp);
    assert(is_ascii_bytes(r)) by {
        lemma_hex_ascii(a, 0);
        lemma_hex_ascii(x, 0);
        lemma_hex_ascii(y, 0);
        lemma_hex_ascii(p, 0);
        lemma_hex_ascii(sp, 0);
    }
    lemma_concat_ascii(hex4(pc), sp1);
    lemma_concat_ascii(hex4(pc) + sp1, hex2(code));
    lemma_concat_ascii(hex4(pc) + sp1 + hex2(code), sp1);
    lemma_concat_ascii(hex4(pc) + sp1 + hex2(code) + sp1, code_name(code));
    lemma_concat_ascii(hex4(pc) + sp1 + hex2(code) + sp1 + code_name(code), r);
}

fn push_state_regs(out: &mut Vec<u8>, a: u8, x: u8, y: u8, p: u8, sp: u8)
    ensures
        final(out)@ == old(out)@ + state_regs(a, x, y, p, sp),
{
    push_char(out, ' ');
    push_char(out, 'A');
    push_char(out, ' ');
    push_hex2(out, a);
    push_char(out, ' ');
    push_char(out, 'X');
    push_char(out, ' ');
    push_hex2(out, x);
    push_char(out, ' ');
    push_char(out, 'Y');
    push_char(out, ' ');
    push_hex2(out, y);
    push_char(out, ' ');
    push_char(out, 'P');
    push_char(out, ' ');
    push_hex2(out, p);
    push_char(out, ' ');
    push_char(out, 'S');
    push_char(out, 'P');
    push_char(out, ' ');
    push_hex2(out, sp);
    assert(out@ == old(out)@ + state_regs(a, x, y, p, sp));
}

impl CPU {
    /// The opcode at the program counter, its mnemonic and the registers, on
    /// one line; reading the opcode is the only effect.
    pub fn state_fmt(&mut self) -> (s: String)
        requires
            old(self).bus.readable(old(self).pc),
            decoded(old(self).bus.peek(old(self).pc)) is Some,
        ensures
            s@ == ascii_chars(
                state_line(
                    old(self).pc,
                    old(self).bus.peek(old(self).pc),
                    old(self).a,
                    old(self).x,
                    old(self).y,
                    old(self).status,
                    old(self).sp,
                ),
            ),
            *final(self) == read_at(*old(self), old(self).pc),
    {
        let pc = self.pc;
        let code = self.read(pc);
        proof {
            lemma_code(code);
        }
        let op = match decode(code) {
            Some((op, _)) => op,
            None => Op::Nop,
        };
        let mut out: Vec<u8> = Vec::new();
        push_hex4(&mut out, pc);
        push_char(&mut out, ' ');
        push_hex2(&mut out, code);
        push_char(&mut out, ' ');
        push_mnemonic(&mut out, op);
        push_state_regs(&mut out, self.a, self.x, self.y, self.status, self.sp);
        proof {
            assert(out@ == state_line(pc, code, self.a, self.x, self.y, self.status, self.sp));
            lemma_state_line_ascii(pc, code, self.a, self.x, self.y, self.status, self.sp);
            lemma_ascii_decode(out@);
        }
        string_from_utf8_lossy(out.as_slice())
    }
}


impl CPU {
    /// The registers as the debug view shows them: "A:.. X:.. Y:.. P:..
    /// SP:..".
    pub fn registers_string(&self) -> (s: String)
        ensures
            s@ == ascii_chars(regs_text(self.a, self.x, self.y, self.status, self.sp)),
    {
        let mut out: Vec<u8> = Vec::new();
        push_regs(&mut out, self.a, self.x, self.y, self.status, self.sp);
        proof {
            let r = regs_text(self.a, self.x, self.y, self.status, self.sp);
            assert(is_ascii_bytes(r)) by {
                lemma_hex_ascii(self.a, 0);
                lemma_hex_ascii(self.x, 0);
                lemma_hex_ascii(self.y, 0);
                lemma_hex_ascii(self.status, 0);
                lemma_hex_ascii(self.sp, 0);
            }
            lemma_ascii_decode(out@);
        }
        string_from_utf8_lossy(out.as_slice())
    }
}

} // verus!
