use vstd::prelude::*;
use super::opcodes::{decoded, mode_code};
use super::trace::{hex_digit, mnemonic};

verus! {

// ---------------------------------------------------------------------------
// The opcode table
// ---------------------------------------------------------------------------

/// The opcodes of a mnemonic by addressing mode, in the order immediate,
/// zero page, zero page X, zero page Y, absolute, absolute X, absolute Y,
/// indirect, indirect X, indirect Y, implied, relative; `None` where the
/// mnemonic has no such form. Unknown mnemonics have no row.
#[verifier::opaque]
pub open spec fn assembler_opcodes(name: Seq<char>) -> Option<Seq<Option<u8>>> {
    if name.len() != 3 {
        None
    } else {
        match (name[0], name[1], name[2]) {
            ('A', 'D', 'C') => Some(seq![Some(0x69u8), Some(0x65u8), Some(0x75u8), None, Some(0x6du8), Some(0x7du8), Some(0x79u8), None, Some(0x61u8), Some(0x71u8), None, None]),
            ('A', 'N', 'D') => Some(seq![Some(0x29u8), Some(0x25u8), Some(0x35u8), None, Some(0x2du8), Some(0x3du8), Some(0x39u8), None, Some(0x21u8), Some(0x31u8), None, None]),
            ('A', 'S', 'L') => Some(seq![None, Some(0x06u8), Some(0x16u8), None, Some(0x0eu8), Some(0x1eu8), None, None, None, None, Some(0x0au8), None]),
            ('B', 'I', 'T') => Some(seq![None, Some(0x24u8), None, None, Some(0x2cu8), None, None, None, None, None, None, None]),
            ('B', 'P', 'L') => Some(seq![None, None, None, None, None, None, None, None, None, None, None, Some(0x10u8)]),
            ('B', 'M', 'I') => Some(seq![None, None, None, None, None, None, None, None, None, None, None, Some(0x30u8)]),
            ('B', 'V', 'C') => Some(seq![None, None, None, None, None, None, None, None, None, None, None, Some(0x50u8)]),
            ('B', 'V', 'S') => Some(seq![None, None, None, None, None, None, None, None, None, None, None, Some(0x70u8)]),
            ('B', 'C', 'C') => Some(seq![None, None, None, None, None, None, None, None, None, None, None, Some(0x90u8)]),
            ('B', 'C', 'S') => Some(seq![None, None, None, None, None, None, None, None, None, None, None, Some(0xb0u8)]),
            ('B', 'N', 'E') => Some(seq![None, None, None, None, None, None, None, None, None, None, None, Some(0xd0u8)]),
            ('B', 'E', 'Q') => Some(seq![None, None, None, None, None, None, None, None, None, None, None, Some(0xf0u8)]),
            ('B', 'R', 'K') => Some(seq![None, None, None, None, None, None, None, None, None, None, Some(0x00u8), None]),
            ('C', 'M', 'P') => Some(seq![Some(0xc9u8), Some(0xc5u8), Some(0xd5u8), None, Some(0xcdu8), Some(0xddu8), Some(0xd9u8), None, Some(0xc1u8), Some(0xd1u8), None, None]),
            ('C', 'P', 'X') => Some(seq![Some(0xe0u8), Some(0xe4u8), None, None, Some(0xecu8), None, None, None, None, None, None, None]),
            ('C', 'P', 'Y') => Some(seq![Some(0xc0u8), Some(0xc4u8), None, None, Some(0xccu8), None, None, None, None, None, None, None]),
            ('D', 'E', 'C') => Some(seq![None, Some(0xc6u8), Some(0xd6u8), None, Some(0xceu8), Some(0xdeu8), None, None, None, None, None, None]),
            ('E', 'O', 'R') => Some(seq![Some(0x49u8), Some(0x45u8), Some(0x55u8), None, Some(0x4du8), Some(0x5du8), Some(0x59u8), None, Some(0x41u8), Some(0x51u8), None, None]),
            ('C', 'L', 'C') => Some(seq![None, None, None, None, None, None, None, None, None, None, Some(0x18u8), None]),
            ('S', 'E', 'C') => Some(seq![None, None, None, None, None, None, None, None, None, None, Some(0x38u8), None]),
            ('C', 'L', 'I') => Some(seq![None, None, None, None, None, None, None, None, None, None, Some(0x58u8), None]),
            ('S', 'E', 'I') => Some(seq![None, None, None, None, None, None, None, None, None, None, Some(0x78u8), None]),
            ('C', 'L', 'V') => Some(seq![None, None, None, None, None, None, None, None, None, None, Some(0xb8u8), None]),
            ('C', 'L', 'D') => Some(seq![None, None, None, None, None, None, None, None, None, None, Some(0xd8u8), None]),
            ('S', 'E', 'D') => Some(seq![None, None, None, None, None, None, None, None, None, None, Some(0xf8u8), None]),
            ('I', 'N', 'C') => Some(seq![None, Some(0xe6u8), Some(0xf6u8), None, Some(0xeeu8), Some(0xfeu8), None, None, None, None, None, None]),
            ('J', 'M', 'P') => Some(seq![None, None, None, None, Some(0x4cu8), None, None, Some(0x6cu8), Some(0x7cu8), None, None, None]),
            ('J', 'S', 'R') => Some(seq![None, None, None, None, Some(0x20u8), None, None, None, None, None, None, None]),
            ('L', 'D', 'A') => Some(seq![Some(0xa9u8), Some(0xa5u8), Some(0xb5u8), None, Some(0xadu8), Some(0xbdu8), Some(0xb9u8), None, Some(0xa1u8), Some(0xb1u8), None, None]),
            ('L', 'D', 'X') => Some(seq![Some(0xa2u8), Some(0xa6u8), None, Some(0xb6u8), Some(0xaeu8), None, Some(0xbeu8), None, None, None, None, None]),
            ('L', 'D', 'Y') => Some(seq![Some(0xa0u8), Some(0xa4u8), Some(0xb4u8), None, Some(0xacu8), Some(0xbcu8), None, None, None, None, None, None]),
            ('L', 'S', 'R') => Some(seq![None, Some(0x46u8), Some(0x56u8), None, Some(0x4eu8), Some(0x5eu8), None, None, None, None, Some(0x4au8), None]),
            ('N', 'O', 'P') => Some(seq![None, None, None, None, None, None, None, None, None, None, Some(0xeau8), None]),
            ('O', 'R', 'A') => Some(seq![Some(0x09u8), Some(0x05u8), Some(0x15u8), None, Some(0x0du8), Some(0x1du8), Some(0x19u8), None, Some(0x01u8), Some(0x11u8), None, None]),
            ('T', 'A', 'X') => Some(seq![None, None, None, None, None, None, None, None, None, None, Some(0xaau8), None]),
            ('T', 'X', 'A') => Some(seq![None, None, None, None, None, None, None, None, None, None, Some(0x8au8), None]),
            ('D', 'E', 'X') => Some(seq![None, None, None, None, None, None, None, None, None, None, Some(0xcau8), None]),
            ('I', 'N', 'X') => Some(seq![None, None, None, None, None, None, None, None, None, None, Some(0xe8u8), None]),
            ('T', 'A', 'Y') => Some(seq![None, None, None, None, None, None, None, None, None, None, Some(0xa8u8), None]),
            ('T', 'Y', 'A') => Some(seq![None, None, None, None, None, None, None, None, None, None, Some(0x98u8), None]),
            ('D', 'E', 'Y') => Some(seq![None, None, None, None, None, None, None, None, None, None, Some(0x88u8), None]),
            ('I', 'N', 'Y') => Some(seq![None, None, None, None, None, None, None, None, None, None, Some(0xc8u8), None]),
            ('R', 'O', 'R') => Some(seq![None, Some(0x66u8), Some(0x76u8), None, Some(0x6eu8), Some(0x7eu8), None, None, None, None, Some(0x6au8), None]),
            ('R', 'O', 'L') => Some(seq![None, Some(0x26u8), Some(0x36u8), None, Some(0x2eu8), Some(0x3eu8), None, None, None, None, Some(0x2au8), None]),
            ('R', 'T', 'I') => Some(seq![None, None, None, None, None, None, None, None, None, None, Some(0x40u8), None]),
            ('R', 'T', 'S') => Some(seq![None, None, None, None, None, None, None, None, None, None, Some(0x60u8), None]),
            ('S', 'B', 'C') => Some(seq![Some(0xe9u8), Some(0xe5u8), Some(0xf5u8), None, Some(0xedu8), Some(0xfdu8), Some(0xf9u8), None, Some(0xe1u8), Some(0xf1u8), None, None]),
            ('S', 'T', 'A') => Some(seq![None, Some(0x85u8), Some(0x95u8), None, Some(0x8du8), Some(0x9du8), Some(0x99u8), None, Some(0x81u8), Some(0x91u8), None, None]),
            ('T', 'X', 'S') => Some(seq![None, None, None, None, None, None, None, None, None, None, Some(0x9au8), None]),
            ('T', 'S', 'X') => Some(seq![None, None, None, None, None, None, None, None, None, None, Some(0xbau8), None]),
            ('P', 'H', 'A') => Some(seq![None, None, None, None, None, None, None, None, None, None, Some(0x48u8), None]),
            ('P', 'L', 'A') => Some(seq![None, None, None, None, None, None, None, None, None, None, Some(0x68u8), None]),
            ('P', 'H', 'P') => Some(seq![None, None, None, None, None, None, None, None, None, None, Some(0x08u8), None]),
            ('P', 'L', 'P') => Some(seq![None, None, None, None, None, None, None, None, None, None, Some(0x28u8), None]),
            ('S', 'T', 'X') => Some(seq![None, Some(0x86u8), None, Some(0x96u8), Some(0x8eu8), None, None, None, None, None, None, None]),
            ('S', 'T', 'Y') => Some(seq![None, Some(0x84u8), Some(0x94u8), None, Some(0x8cu8), None, None, None, None, None, None, None]),
            _ => None,
        }
    }
}

/// The row of the opcode table for `name`.
fn opcode_row(name: &[char]) -> (r: Option<[Option<u8>; 12]>)
    ensures
        match r {
            Some(a) => assembler_opcodes(name@) == Some(a@),
            None => assembler_opcodes(name@) is None,
        },
{
    reveal(assembler_opcodes);
    if name.len() != 3 {
        return None;
    }
    match (name[0], name[1], name[2]) {
        ('A', 'D', 'C') => Some([Some(0x69), Some(0x65), Some(0x75), None, Some(0x6d), Some(0x7d), Some(0x79), None, Some(0x61), Some(0x71), None, None]),
        ('A', 'N', 'D') => Some([Some(0x29), Some(0x25), Some(0x35), None, Some(0x2d), Some(0x3d), Some(0x39), None, Some(0x21), Some(0x31), None, None]),
        ('A', 'S', 'L') => Some([None, Some(0x06), Some(0x16), None, Some(0x0e), Some(0x1e), None, None, None, None, Some(0x0a), None]),
        ('B', 'I', 'T') => Some([None, Some(0x24), None, None, Some(0x2c), None, None, None, None, None, None, None]),
        ('B', 'P', 'L') => Some([None, None, None, None, None, None, None, None, None, None, None, Some(0x10)]),
        ('B', 'M', 'I') => Some([None, None, None, None, None, None, None, None, None, None, None, Some(0x30)]),
        ('B', 'V', 'C') => Some([None, None, None, None, None, None, None, None, None, None, None, Some(0x50)]),
        ('B', 'V', 'S') => Some([None, None, None, None, None, None, None, None, None, None, None, Some(0x70)]),
        ('B', 'C', 'C') => Some([None, None, None, None, None, None, None, None, None, None, None, Some(0x90)]),
        ('B', 'C', 'S') => Some([None, None, None, None, None, None, None, None, None, None, None, Some(0xb0)]),
        ('B', 'N', 'E') => Some([None, None, None, None, None, None, None, None, None, None, None, Some(0xd0)]),
        ('B', 'E', 'Q') => Some([None, None, None, None, None, None, None, None, None, None, None, Some(0xf0)]),
        ('B', 'R', 'K') => Some([None, None, None, None, None, None, None, None, None, None, Some(0x00), None]),
        ('C', 'M', 'P') => Some([Some(0xc9), Some(0xc5), Some(0xd5), None, Some(0xcd), Some(0xdd), Some(0xd9), None, Some(0xc1), Some(0xd1), None, None]),
        ('C', 'P', 'X') => Some([Some(0xe0), Some(0xe4), None, None, Some(0xec), None, None, None, None, None, None, None]),
        ('C', 'P', 'Y') => Some([Some(0xc0), Some(0xc4), None, None, Some(0xcc), None, None, None, None, None, None, None]),
        ('D', 'E', 'C') => Some([None, Some(0xc6), Some(0xd6), None, Some(0xce), Some(0xde), None, None, None, None, None, None]),
        ('E', 'O', 'R') => Some([Some(0x49), Some(0x45), Some(0x55), None, Some(0x4d), Some(0x5d), Some(0x59), None, Some(0x41), Some(0x51), None, None]),
        ('C', 'L', 'C') => Some([None, None, None, None, None, None, None, None, None, None, Some(0x18), None]),
        ('S', 'E', 'C') => Some([None, None, None, None, None, None, None, None, None, None, Some(0x38), None]),
        ('C', 'L', 'I') => Some([None, None, None, None, None, None, None, None, None, None, Some(0x58), None]),
        ('S', 'E', 'I') => Some([None, None, None, None, None, None, None, None, None, None, Some(0x78), None]),
        ('C', 'L', 'V') => Some([None, None, None, None, None, None, None, None, None, None, Some(0xb8), None]),
        ('C', 'L', 'D') => Some([None, None, None, None, None, None, None, None, None, None, Some(0xd8), None]),
        ('S', 'E', 'D') => Some([None, None, None, None, None, None, None, None, None, None, Some(0xf8), None]),
        ('I', 'N', 'C') => Some([None, Some(0xe6), Some(0xf6), None, Some(0xee), Some(0xfe), None, None, None, None, None, None]),
        ('J', 'M', 'P') => Some([None, None, None, None, Some(0x4c), None, None, Some(0x6c), Some(0x7c), None, None, None]),
        ('J', 'S', 'R') => Some([None, None, None, None, Some(0x20), None, None, None, None, None, None, None]),
        ('L', 'D', 'A') => Some([Some(0xa9), Some(0xa5), Some(0xb5), None, Some(0xad), Some(0xbd), Some(0xb9), None, Some(0xa1), Some(0xb1), None, None]),
        ('L', 'D', 'X') => Some([Some(0xa2), Some(0xa6), None, Some(0xb6), Some(0xae), None, Some(0xbe), None, None, None, None, None]),
        ('L', 'D', 'Y') => Some([Some(0xa0), Some(0xa4), Some(0xb4), None, Some(0xac), Some(0xbc), None, None, None, None, None, None]),
        ('L', 'S', 'R') => Some([None, Some(0x46), Some(0x56), None, Some(0x4e), Some(0x5e), None, None, None, None, Some(0x4a), None]),
        ('N', 'O', 'P') => Some([None, None, None, None, None, None, None, None, None, None, Some(0xea), None]),
        ('O', 'R', 'A') => Some([Some(0x09), Some(0x05), Some(0x15), None, Some(0x0d), Some(0x1d), Some(0x19), None, Some(0x01), Some(0x11), None, None]),
        ('T', 'A', 'X') => Some([None, None, None, None, None, None, None, None, None, None, Some(0xaa), None]),
        ('T', 'X', 'A') => Some([None, None, None, None, None, None, None, None, None, None, Some(0x8a), None]),
        ('D', 'E', 'X') => Some([None, None, None, None, None, None, None, None, None, None, Some(0xca), None]),
        ('I', 'N', 'X') => Some([None, None, None, None, None, None, None, None, None, None, Some(0xe8), None]),
        ('T', 'A', 'Y') => Some([None, None, None, None, None, None, None, None, None, None, Some(0xa8), None]),
        ('T', 'Y', 'A') => Some([None, None, None, None, None, None, None, None, None, None, Some(0x98), None]),
        ('D', 'E', 'Y') => Some([None, None, None, None, None, None, None, None, None, None, Some(0x88), None]),
        ('I', 'N', 'Y') => Some([None, None, None, None, None, None, None, None, None, None, Some(0xc8), None]),
        ('R', 'O', 'R') => Some([None, Some(0x66), Some(0x76), None, Some(0x6e), Some(0x7e), None, None, None, None, Some(0x6a), None]),
        ('R', 'O', 'L') => Some([None, Some(0x26), Some(0x36), None, Some(0x2e), Some(0x3e), None, None, None, None, Some(0x2a), None]),
        ('R', 'T', 'I') => Some([None, None, None, None, None, None, None, None, None, None, Some(0x40), None]),
        ('R', 'T', 'S') => Some([None, None, None, None, None, None, None, None, None, None, Some(0x60), None]),
        ('S', 'B', 'C') => Some([Some(0xe9), Some(0xe5), Some(0xf5), None, Some(0xed), Some(0xfd), Some(0xf9), None, Some(0xe1), Some(0xf1), None, None]),
        ('S', 'T', 'A') => Some([None, Some(0x85), Some(0x95), None, Some(0x8d), Some(0x9d), Some(0x99), None, Some(0x81), Some(0x91), None, None]),
        ('T', 'X', 'S') => Some([None, None, None, None, None, None, None, None, None, None, Some(0x9a), None]),
        ('T', 'S', 'X') => Some([None, None, None, None, None, None, None, None, None, None, Some(0xba), None]),
        ('P', 'H', 'A') => Some([None, None, None, None, None, None, None, None, None, None, Some(0x48), None]),
        ('P', 'L', 'A') => Some([None, None, None, None, None, None, None, None, None, None, Some(0x68), None]),
        ('P', 'H', 'P') => Some([None, None, None, None, None, None, None, None, None, None, Some(0x08), None]),
        ('P', 'L', 'P') => Some([None, None, None, None, None, None, None, None, None, None, Some(0x28), None]),
        ('S', 'T', 'X') => Some([None, Some(0x86), None, Some(0x96), Some(0x8e), None, None, None, None, None, None, None]),
        ('S', 'T', 'Y') => Some([None, Some(0x84), Some(0x94), None, Some(0x8c), None, None, None, None, None, None, None]),
        _ => None,
    }
}


// ---------------------------------------------------------------------------
// Text
// ---------------------------------------------------------------------------

/// A whitespace character, as `char::is_whitespace` decides (Unicode's
/// White_Space property).
pub open spec fn is_ws(c: char) -> bool {
    ||| '\t' <= c <= '\r'
    ||| c == ' ' || c == '\u{85}' || c == '\u{a0}' || c == '\u{1680}'
    ||| '\u{2000}' <= c <= '\u{200a}'
    ||| c == '\u{2028}' || c == '\u{2029}' || c == '\u{202f}' || c == '\u{205f}' || c == '\u{3000}'
}

/// `s` without its leading whitespace.
pub open spec fn trim_start(s: Seq<char>) -> Seq<char>
    decreases s.len(),
{
    if s.len() > 0 && is_ws(s[0]) {
        trim_start(s.drop_first())
    } else {
        s
    }
}

/// `s` without its trailing whitespace.
pub open spec fn trim_end(s: Seq<char>) -> Seq<char>
    decreases s.len(),
{
    if s.len() > 0 && is_ws(s.last()) {
        trim_end(s.drop_last())
    } else {
        s
    }
}

/// `s` without leading and trailing whitespace.
pub open spec fn trim(s: Seq<char>) -> Seq<char> {
    trim_end(trim_start(s))
}

/// The lines of `s`, the pieces between newlines: `n` newlines make
/// `n + 1` lines.
pub open spec fn lines(s: Seq<char>) -> Seq<Seq<char>>
    decreases s.len(),
{
    if s.len() == 0 {
        seq![seq![]]
    } else {
        let p = lines(s.drop_last());
        if s.last() == '\n' {
            p.push(seq![])
        } else {
            p.update(p.len() - 1, p.last().push(s.last()))
        }
    }
}

// ---------------------------------------------------------------------------
// Labels
// ---------------------------------------------------------------------------

/// Where label `k` stands among `ls`, or -1.
pub open spec fn label_index(ls: Seq<(Seq<char>, int)>, k: Seq<char>) -> int
    decreases ls.len(),
{
    if ls.len() == 0 {
        -1
    } else if ls[0].0 == k {
        0
    } else {
        let r = label_index(ls.drop_first(), k);
        if r < 0 {
            -1
        } else {
            r + 1
        }
    }
}

/// `ls` with label `k` set to `v`: in place if it is there, else added.
pub open spec fn label_insert(ls: Seq<(Seq<char>, int)>, k: Seq<char>, v: int) -> Seq<(Seq<char>, int)> {
    let i = label_index(ls, k);
    if i < 0 {
        ls.push((k, v))
    } else {
        ls.update(i, (k, v))
    }
}

pub open spec fn has_label(ls: Seq<(Seq<char>, int)>, k: Seq<char>) -> bool {
    label_index(ls, k) >= 0
}

pub open spec fn label_value(ls: Seq<(Seq<char>, int)>, k: Seq<char>) -> int {
    ls[label_index(ls, k)].1
}

// ---------------------------------------------------------------------------
// The first pass: labels and instruction lines
// ---------------------------------------------------------------------------

/// What the first pass has gathered: the labels (with the line each names),
/// the count of instruction lines, and those lines.
pub struct ScanState {
    pub labels: Seq<(Seq<char>, int)>,
    pub line: int,
    pub insts: Seq<Seq<char>>,
}

/// The first pass over trimmed lines: empty lines are skipped, a line
/// ending in ':' names the next instruction line, any other line is an
/// instruction.
pub open spec fn scan(ls: Seq<Seq<char>>, labels0: Seq<(Seq<char>, int)>, line0: int) -> ScanState
    decreases ls.len(),
{
    if ls.len() == 0 {
        ScanState { labels: labels0, line: line0, insts: seq![] }
    } else {
        let st = scan(ls.drop_last(), labels0, line0);
        let l = trim(ls.last());
        if l.len() == 0 {
            st
        } else if l.last() == ':' {
            ScanState { labels: label_insert(st.labels, l.drop_last(), st.line), ..st }
        } else {
            ScanState { line: st.line + 1, insts: st.insts.push(l), ..st }
        }
    }
}

// ---------------------------------------------------------------------------
// Instructions
// ---------------------------------------------------------------------------

/// An instruction: its opcode, its addressing mode (the table's column) and
/// its operand text.
pub struct InstView {
    pub opcode: u8,
    pub mode: int,
    pub arg: Seq<char>,
}

/// The branches that take a relative operand without a label.
pub open spec fn is_relative_name(n: Seq<char>) -> bool {
    ||| n == seq!['B', 'C', 'C'] || n == seq!['B', 'C', 'S'] || n == seq!['B', 'E', 'Q']
    ||| n == seq!['B', 'M', 'I'] || n == seq!['B', 'N', 'E'] || n == seq!['B', 'P', 'L']
    ||| n == seq!['B', 'V', 'S']
}

/// The addressing mode an operand selects: a label is relative for a
/// branch and absolute otherwise; "#.." is immediate, "$." or "$.." zero
/// page, "$...." absolute, nothing implied; a branch is relative.
pub open spec fn mode_of(arg: Seq<char>, name: Seq<char>, labels: Seq<(Seq<char>, int)>) -> Option<int> {
    if has_label(labels, arg) {
        if is_relative_name(name) {
            Some(11)
        } else {
            Some(4)
        }
    } else if arg.len() > 2 && arg[0] == '#' {
        Some(0)
    } else if arg.len() > 1 && arg.len() <= 3 && arg[0] == '$' {
        Some(1)
    } else if arg.len() == 5 && arg[0] == '$' {
        Some(4)
    } else if arg.len() == 0 {
        Some(10)
    } else if is_relative_name(name) {
        Some(11)
    } else {
        None
    }
}

/// The instruction an instruction line writes: a three-letter mnemonic,
/// then the operand.
pub open spec fn inst_of(l: Seq<char>, labels: Seq<(Seq<char>, int)>) -> Option<InstView> {
    if l.len() < 3 {
        None
    } else {
        let name = l.take(3);
        let arg = trim(l.skip(3));
        match mode_of(arg, name, labels) {
            None => None,
            Some(m) => match assembler_opcodes(name) {
                None => None,
                Some(row) => match row[m] {
                    None => None,
                    Some(op) => Some(InstView { opcode: op, mode: m, arg }),
                },
            },
        }
    }
}

/// The instructions of all the lines, if each is one.
pub open spec fn insts_of(ls: Seq<Seq<char>>, labels: Seq<(Seq<char>, int)>) -> Option<Seq<InstView>>
    decreases ls.len(),
{
    if ls.len() == 0 {
        Some(seq![])
    } else {
        match (insts_of(ls.drop_last(), labels), inst_of(ls.last(), labels)) {
            (Some(is), Some(i)) => Some(is.push(i)),
            _ => None,
        }
    }
}

/// The size of an instruction in this mode, in bytes.
pub open spec fn inst_len(mode: int) -> int {
    if mode == 10 {
        1
    } else if mode == 4 {
        3
    } else {
        2
    }
}

/// The size of instructions, in bytes.
pub open spec fn total_len(is: Seq<InstView>) -> int
    decreases is.len(),
{
    if is.len() == 0 {
        0
    } else {
        total_len(is.drop_last()) + inst_len(is.last().mode)
    }
}

/// Every label names an instruction there is.
pub open spec fn labels_resolvable(ls: Seq<(Seq<char>, int)>, n: int) -> bool {
    forall|j: int| 0 <= j < ls.len() ==> 0 <= #[trigger] ls[j].1 < n
}

/// The labels with the address of the instruction each names.
pub open spec fn labels_resolved(ls: Seq<(Seq<char>, int)>, is: Seq<InstView>, pc: int) -> Seq<(Seq<char>, int)> {
    Seq::new(ls.len(), |j: int| (ls[j].0, pc + total_len(is.take(ls[j].1))))
}

// ---------------------------------------------------------------------------
// Operands
// ---------------------------------------------------------------------------

/// The value of a digit in `base`, letters of either case above 9.
pub open spec fn digit_value(c: char, base: int) -> Option<int> {
    let v = if '0' <= c <= '9' {
        c as int - '0' as int
    } else if 'a' <= c <= 'z' {
        c as int - 'a' as int + 10
    } else if 'A' <= c <= 'Z' {
        c as int - 'A' as int + 10
    } else {
        base
    };
    if v < base {
        Some(v)
    } else {
        None
    }
}

/// The number that digits `d` write in `base`.
pub open spec fn radix_acc(d: Seq<char>, base: int) -> int
    decreases d.len(),
{
    if d.len() == 0 {
        0
    } else {
        base * radix_acc(d.drop_last(), base) + match digit_value(d.last(), base) {
            Some(v) => v,
            None => 0,
        }
    }
}

/// A byte as `u8::from_str_radix` reads it: an optional '+', then at least
/// one digit, the value below 256.
/// The digits of a number, after an optional '+'.
pub open spec fn unsigned_digits(s: Seq<char>) -> Seq<char> {
    if s.len() > 0 && s[0] == '+' {
        s.drop_first()
    } else {
        s
    }
}

pub open spec fn parse_radix(s: Seq<char>, base: int) -> Option<u8> {
    let d = unsigned_digits(s);
    if d.len() > 0 && (forall|i: int| 0 <= i < d.len() ==> #[trigger] digit_value(d[i], base) is Some)
        && radix_acc(d, base) < 256 {
        Some(radix_acc(d, base) as u8)
    } else {
        None
    }
}

/// A byte operand: hexadecimal after '$', decimal otherwise.
pub open spec fn parse_byte(num: Seq<char>) -> Option<u8> {
    if num.len() > 0 && num[0] == '$' {
        parse_radix(num.skip(1), 16)
    } else {
        parse_radix(num, 10)
    }
}

/// `v` (0 to 65535) as a 16-bit two's complement number.
pub open spec fn as_i16(v: int) -> int {
    if v >= 0x8000 {
        v - 0x1_0000
    } else {
        v
    }
}

/// The offset byte of a branch at `pc` to `target`: the 16-bit difference
/// less two, which must neither overflow nor leave -128..=127.
pub open spec fn rel_byte(target: int, pc: int) -> Option<u8> {
    let d1 = as_i16(target % 0x1_0000) - as_i16(pc % 0x1_0000);
    let d = d1 - 2;
    if d1 < -0x8000 || d1 > 0x7fff || d < -128 || d > 127 {
        None
    } else {
        Some(((d + 256) % 256) as u8)
    }
}

/// The operand bytes of an instruction at `pc`, labels resolved.
pub open spec fn operand_bytes(i: InstView, pc: int, labels: Seq<(Seq<char>, int)>) -> Option<Seq<u8>> {
    let a = i.arg;
    if i.mode == 0 {
        if a.len() == 0 {
            None
        } else {
            match parse_byte(a.skip(1)) {
                Some(v) => Some(seq![v]),
                None => None,
            }
        }
    } else if i.mode == 1 {
        match parse_byte(a) {
            Some(v) => Some(seq![v]),
            None => None,
        }
    } else if i.mode == 4 {
        if has_label(labels, a) {
            let t = label_value(labels, a);
            Some(seq![(t % 256) as u8, ((t / 256) % 256) as u8])
        } else if a.len() == 5 {
            match (parse_radix(a.subrange(3, 5), 16), parse_radix(a.subrange(1, 3), 16)) {
                (Some(lo), Some(hi)) => Some(seq![lo, hi]),
                _ => None,
            }
        } else {
            None
        }
    } else if i.mode == 10 {
        Some(seq![])
    } else if has_label(labels, a) {
        match rel_byte(label_value(labels, a), pc) {
            Some(v) => Some(seq![v]),
            None => None,
        }
    } else {
        None
    }
}

/// The machine code of instructions placed from `pc` on.
pub open spec fn encoded(is: Seq<InstView>, pc: int, labels: Seq<(Seq<char>, int)>) -> Option<Seq<u8>>
    decreases is.len(),
{
    if is.len() == 0 {
        Some(seq![])
    } else {
        match (
            encoded(is.drop_last(), pc, labels),
            operand_bytes(is.last(), pc + total_len(is.drop_last()), labels),
        ) {
            (Some(b), Some(o)) => Some(b + seq![is.last().opcode] + o),
            _ => None,
        }
    }
}

// ---------------------------------------------------------------------------
// A whole assembly
// ---------------------------------------------------------------------------

/// What an assembler holds between runs: the labels, the program counter,
/// the instructions read so far and the count of instruction lines.
pub struct AssemblerView {
    pub labels: Seq<(Seq<char>, int)>,
    pub program_counter: int,
    pub instructions: Seq<InstView>,
    pub current_line: int,
}

/// Assembling `source` at `pc` from state `a`: the first pass gathers labels
/// and instruction lines, every instruction read so far (these and the
/// earlier ones) is placed from `pc` on, the labels take the addresses of
/// the instructions they name, and the machine code of all of them comes
/// out; `None` where a line, an operand or a label does not resolve.
pub open spec fn assembled(a: AssemblerView, source: Seq<char>, pc: int) -> Option<(Seq<u8>, AssemblerView)> {
    let st = scan(lines(source), a.labels, a.current_line);
    match insts_of(st.insts, st.labels) {
        None => None,
        Some(new) => {
            let all = a.instructions + new;
            if !labels_resolvable(st.labels, all.len() as int) {
                None
            } else {
                let lbl = labels_resolved(st.labels, all, pc);
                match encoded(all, pc, lbl) {
                    None => None,
                    Some(bytes) => Some(
                        (
                            bytes,
                            AssemblerView {
                                labels: lbl,
                                program_counter: pc + total_len(all),
                                instructions: all,
                                current_line: st.line,
                            },
                        ),
                    ),
                }
            }
        },
    }
}

/// Assembling `source` at `pc` from state `a` succeeds and its counters fit
/// in a `usize`.
pub open spec fn assembles(a: AssemblerView, source: Seq<char>, pc: int) -> bool {
    &&& assembled(a, source, pc) is Some
    &&& assembled(a, source, pc)->Some_0.1.program_counter <= usize::MAX
    &&& assembled(a, source, pc)->Some_0.1.current_line <= usize::MAX
}


// ---------------------------------------------------------------------------
// Text, executably
// ---------------------------------------------------------------------------

fn chars_of(s: &str) -> (v: Vec<char>)
    ensures
        v@ == s@,
{
    let mut v: Vec<char> = Vec::new();
    for c in it: s.chars()
        invariant
            v@ == it.seq().take(it.index() as int),
    {
        v.push(c);
    }
    v
}

fn is_whitespace(c: char) -> (b: bool)
    ensures
        b == is_ws(c),
{
    ('\t' <= c && c <= '\r') || c == ' ' || c == '\u{85}' || c == '\u{a0}' || c == '\u{1680}' || (
    '\u{2000}' <= c && c <= '\u{200a}') || c == '\u{2028}' || c == '\u{2029}' || c == '\u{202f}'
        || c == '\u{205f}' || c == '\u{3000}'
}

proof fn lemma_trim_start(s: Seq<char>, i: int)
    requires
        0 <= i <= s.len(),
        forall|k: int| 0 <= k < i ==> is_ws(#[trigger] s[k]),
        i == s.len() || !is_ws(s[i]),
    ensures
        trim_start(s) == s.skip(i),
    decreases i,
{
    if i > 0 {
        assert forall|k: int| 0 <= k < i - 1 implies is_ws(#[trigger] s.drop_first()[k]) by {
            assert(s.drop_first()[k] == s[k + 1]);
        }
        lemma_trim_start(s.drop_first(), i - 1);
        assert(s.drop_first().skip(i - 1) == s.skip(i));
    } else {
        assert(s.skip(0) == s);
    }
}

proof fn lemma_trim_end(s: Seq<char>, j: int)
    requires
        0 <= j <= s.len(),
        forall|k: int| j <= k < s.len() ==> is_ws(#[trigger] s[k]),
        j == 0 || !is_ws(s[j - 1]),
    ensures
        trim_end(s) == s.take(j),
    decreases s.len() - j,
{
    if j < s.len() {
        assert forall|k: int| j <= k < s.drop_last().len() implies is_ws(#[trigger] s.drop_last()[k]) by {
            assert(s.drop_last()[k] == s[k]);
        }
        lemma_trim_end(s.drop_last(), j);
        assert(s.drop_last().take(j) == s.take(j));
    } else {
        assert(s.take(j) == s);
    }
}

/// `s` without leading and trailing whitespace.
fn trim_chars(s: &[char]) -> (r: Vec<char>)
    ensures
        r@ == trim(s@),
{
    let mut i: usize = 0;
    while i < s.len() && is_whitespace(s[i])
        invariant
            i <= s@.len(),
            forall|k: int| 0 <= k < i ==> is_ws(#[trigger] s@[k]),
        decreases s@.len() - i,
    {
        i += 1;
    }
    proof {
        lemma_trim_start(s@, i as int);
    }
    let ghost t = s@.skip(i as int);
    let mut j: usize = s.len();
    while j > i && is_whitespace(s[j - 1])
        invariant
            i <= j <= s@.len(),
            forall|k: int| j <= k < s@.len() ==> is_ws(#[trigger] s@[k]),
        decreases j,
    {
        j -= 1;
    }
    proof {
        assert forall|k: int| j - i <= k < t.len() implies is_ws(#[trigger] t[k]) by {
            assert(t[k] == s@[k + i]);
        }
        if j > i {
            assert(t[j - i - 1] == s@[j - 1]);
        }
        lemma_trim_end(t, j - i);
    }
    let mut r: Vec<char> = Vec::new();
    let mut k: usize = i;
    while k < j
        invariant
            i <= k <= j <= s@.len(),
            r@ == s@.subrange(i as int, k as int),
        decreases j - k,
    {
        r.push(s[k]);
        assert(s@.subrange(i as int, k + 1) == s@.subrange(i as int, k as int).push(s@[k as int]));
        k += 1;
    }
    assert(r@ == t.take(j - i));
    r
}

/// The lines of `s`, the pieces between newlines.
fn split_lines(s: &[char]) -> (r: Vec<Vec<char>>)
    ensures
        r@.len() == lines(s@).len(),
        forall|k: int| 0 <= k < r@.len() ==> #[trigger] r@[k]@ == lines(s@)[k],
{
    let mut out: Vec<Vec<char>> = Vec::new();
    let mut cur: Vec<char> = Vec::new();
    let mut i: usize = 0;
    while i < s.len()
        invariant
            i <= s@.len(),
            lines(s@.take(i as int)).len() >= 1,
            out@.len() == lines(s@.take(i as int)).len() - 1,
            forall|k: int| 0 <= k < out@.len() ==> #[trigger] out@[k]@ == lines(s@.take(i as int))[k],
            cur@ == lines(s@.take(i as int)).last(),
        decreases s@.len() - i,
    {
        let ghost ls = lines(s@.take(i as int));
        assert(s@.take(i + 1).drop_last() == s@.take(i as int));
        assert(s@.take(i + 1).last() == s@[i as int]);
        if s[i] == '\n' {
            out.push(cur);
            cur = Vec::new();
        } else {
            cur.push(s[i]);
        }
        i += 1;
    }
    out.push(cur);
    assert(s@.take(i as int) == s@);
    out
}


// ---------------------------------------------------------------------------
// Labels, executably
// ---------------------------------------------------------------------------

/// The labels a vector of (name, value) pairs holds.
pub open spec fn labels_model(v: Seq<(Vec<char>, usize)>) -> Seq<(Seq<char>, int)> {
    Seq::new(v.len(), |i: int| (v[i].0@, v[i].1 as int))
}

proof fn lemma_label_index(ls: Seq<(Seq<char>, int)>, k: Seq<char>, i: int)
    requires
        0 <= i <= ls.len(),
        forall|j: int| 0 <= j < i ==> #[trigger] ls[j].0 != k,
        i < ls.len() ==> ls[i].0 == k,
    ensures
        label_index(ls, k) == if i < ls.len() { i } else { -1 },
    decreases i,
{
    if i > 0 {
        let t = ls.drop_first();
        assert forall|j: int| 0 <= j < i - 1 implies #[trigger] t[j].0 != k by {
            assert(t[j] == ls[j + 1]);
        }
        if i < ls.len() {
            assert(t[i - 1] == ls[i]);
        }
        assert(ls[0].0 != k);
        lemma_label_index(t, k, i - 1);
    }
}

fn chars_eq(a: &[char], b: &[char]) -> (r: bool)
    ensures
        r == (a@ == b@),
{
    if a.len() != b.len() {
        return false;
    }
    let mut i: usize = 0;
    while i < a.len()
        invariant
            a@.len() == b@.len(),
            i <= a@.len(),
            forall|j: int| 0 <= j < i ==> a@[j] == b@[j],
        decreases a@.len() - i,
    {
        if a[i] != b[i] {
            assert(a@[i as int] != b@[i as int]);
            return false;
        }
        i += 1;
    }
    assert(a@ == b@);
    true
}

/// Where label `k` stands, if it is there.
fn find_label(ls: &Vec<(Vec<char>, usize)>, k: &[char]) -> (r: Option<usize>)
    ensures
        match r {
            Some(i) => label_index(labels_model(ls@), k@) == i && i < ls@.len(),
            None => label_index(labels_model(ls@), k@) == -1,
        },
{
    let ghost m = labels_model(ls@);
    let mut i: usize = 0;
    while i < ls.len()
        invariant
            i <= ls@.len(),
            m == labels_model(ls@),
            forall|j: int| 0 <= j < i ==> #[trigger] m[j].0 != k@,
        decreases ls@.len() - i,
    {
        if chars_eq(ls[i].0.as_slice(), k) {
            proof {
                lemma_label_index(m, k@, i as int);
            }
            return Some(i);
        }
        assert(m[i as int].0 == ls@[i as int].0@);
        i += 1;
    }
    proof {
        lemma_label_index(m, k@, i as int);
    }
    None
}

fn insert_label(ls: &mut Vec<(Vec<char>, usize)>, k: Vec<char>, v: usize)
    ensures
        labels_model(final(ls)@) == label_insert(labels_model(old(ls)@), k@, v as int),
{
    match find_label(ls, k.as_slice()) {
        Some(i) => {
            ls.set(i, (k, v));
            assert(labels_model(ls@) == labels_model(old(ls)@).update(i as int, (k@, v as int)));
        },
        None => {
            ls.push((k, v));
            assert(labels_model(ls@) == labels_model(old(ls)@).push((k@, v as int)));
        },
    }
}

// ---------------------------------------------------------------------------
// Modes and operands, executably
// ---------------------------------------------------------------------------

fn is_relative(n: &[char]) -> (b: bool)
    ensures
        b == is_relative_name(n@),
{
    if n.len() != 3 {
        proof {
            assert(seq!['B', 'C', 'C'].len() == 3);
        }
        return false;
    }
    let r = n[0] == 'B' && ((n[1] == 'C' && (n[2] == 'C' || n[2] == 'S')) || (n[1] == 'E' && n[2]
        == 'Q') || (n[1] == 'M' && n[2] == 'I') || (n[1] == 'N' && n[2] == 'E') || (n[1] == 'P'
        && n[2] == 'L') || (n[1] == 'V' && n[2] == 'S'));
    proof {
        let s = n@;
        if r {
            assert(s == seq![s[0], s[1], s[2]]);
        } else {
            assert(s != seq!['B', 'C', 'C'] ==> true);
            if is_relative_name(s) {
                assert(s[0] == 'B');
            }
        }
    }
    r
}

/// The addressing mode an operand selects.
fn mode_for(arg: &[char], name: &[char], labels: &Vec<(Vec<char>, usize)>) -> (r: Option<u8>)
    ensures
        match r {
            Some(m) => mode_of(arg@, name@, labels_model(labels@)) == Some(m as int),
            None => mode_of(arg@, name@, labels_model(labels@)) is None,
        },
{
    if find_label(labels, arg).is_some() {
        if is_relative(name) {
            Some(11)
        } else {
            Some(4)
        }
    } else if arg.len() > 2 && arg[0] == '#' {
        Some(0)
    } else if arg.len() > 1 && arg.len() <= 3 && arg[0] == '$' {
        Some(1)
    } else if arg.len() == 5 && arg[0] == '$' {
        Some(4)
    } else if arg.len() == 0 {
        Some(10)
    } else if is_relative(name) {
        Some(11)
    } else {
        None
    }
}

fn digit_of(c: char, base: u32) -> (r: Option<u32>)
    requires
        base == 10 || base == 16,
    ensures
        match r {
            Some(v) => digit_value(c, base as int) == Some(v as int),
            None => digit_value(c, base as int) is None,
        },
{
    let v: u32 = if '0' <= c && c <= '9' {
        (c as u32) - ('0' as u32)
    } else if 'a' <= c && c <= 'z' {
        (c as u32) - ('a' as u32) + 10
    } else if 'A' <= c && c <= 'Z' {
        (c as u32) - ('A' as u32) + 10
    } else {
        base
    };
    if v < base {
        Some(v)
    } else {
        None
    }
}

/// The value of digits in `base`, capped at 256.
pub open spec fn capped_acc(d: Seq<char>, base: int) -> int {
    if radix_acc(d, base) < 256 {
        radix_acc(d, base)
    } else {
        256
    }
}

proof fn lemma_radix_acc_nonneg(d: Seq<char>, base: int)
    requires
        base == 10 || base == 16,
    ensures
        radix_acc(d, base) >= 0,
    decreases d.len(),
{
    if d.len() > 0 {
        lemma_radix_acc_nonneg(d.drop_last(), base);
    }
}

/// A byte as `u8::from_str_radix` reads it.
fn radix_parse(s: &[char], base: u32) -> (r: Option<u8>)
    requires
        base == 10 || base == 16,
    ensures
        r == parse_radix(s@, base as int),
{
    let ghost d = unsigned_digits(s@);
    let start: usize = if s.len() > 0 && s[0] == '+' {
        1
    } else {
        0
    };
    assert(d == s@.skip(start as int));
    if start >= s.len() {
        return None;
    }
    let mut acc: u32 = 0;
    let mut i: usize = start;
    while i < s.len()
        invariant
            base == 10 || base == 16,
            start <= i <= s@.len(),
            d == s@.skip(start as int),
            d == unsigned_digits(s@),
            acc as int == capped_acc(d.take(i - start), base as int),
            forall|k: int| 0 <= k < i - start ==> #[trigger] digit_value(d[k], base as int) is Some,
        decreases s@.len() - i,
    {
        let ghost p = d.take(i - start);
        assert(d[i - start] == s@[i as int]);
        match digit_of(s[i], base) {
            None => {
                proof {
                    let k = i - start;
                    assert(digit_value(d[k], base as int) is None);
                    assert(!(forall|j: int| 0 <= j < d.len() ==> #[trigger] digit_value(d[j], base as int) is Some));
                }
                return None;
            },
            Some(v) => {
                proof {
                    lemma_radix_acc_nonneg(p, base as int);
                    assert(d.take(i - start + 1).drop_last() == p);
                    assert(d.take(i - start + 1).last() == d[i - start]);
                }
                let n = base * acc + v;
                acc = if n < 256 {
                    n
                } else {
                    256
                };
            },
        }
        i += 1;
    }
    assert(d.take(i - start) == d);
    if acc < 256 {
        Some(acc as u8)
    } else {
        None
    }
}

fn byte_parse(num: &[char]) -> (r: Option<u8>)
    ensures
        r == parse_byte(num@),
{
    if num.len() > 0 && num[0] == '$' {
        let rest = vstd::slice::slice_subrange(num, 1, num.len());
        assert(rest@ == num@.skip(1));
        radix_parse(rest, 16)
    } else {
        radix_parse(num, 10)
    }
}

/// The offset byte of a branch at `pc` to `target`.
fn rel_offset(target: usize, pc: usize) -> (r: Option<u8>)
    ensures
        r == rel_byte(target as int, pc as int),
{
    let t = (target % 0x1_0000) as i64;
    let p = (pc % 0x1_0000) as i64;
    let ti = if t >= 0x8000 {
        t - 0x1_0000
    } else {
        t
    };
    let pi = if p >= 0x8000 {
        p - 0x1_0000
    } else {
        p
    };
    let d1 = ti - pi;
    let d = d1 - 2;
    if d1 < -0x8000 || d1 > 0x7fff || d < -128 || d > 127 {
        None
    } else {
        Some(((d + 256) % 256) as u8)
    }
}


/// The size of an instruction in `mode`, in bytes.
fn inst_size(mode: u8) -> (n: usize)
    ensures
        n as int == inst_len(mode as int),
{
    if mode == 10 {
        1
    } else if mode == 4 {
        3
    } else {
        2
    }
}

// ---------------------------------------------------------------------------
// Instructions, executably
// ---------------------------------------------------------------------------

/// An instruction read from a line.
struct InstInfo {
    opcode: u8,
    mode: u8,
    arg: Vec<char>,
}

spec fn inst_view(i: InstInfo) -> InstView {
    InstView { opcode: i.opcode, mode: i.mode as int, arg: i.arg@ }
}

spec fn insts_model(v: Seq<InstInfo>) -> Seq<InstView> {
    Seq::new(v.len(), |j: int| inst_view(v[j]))
}

/// The texts that a vector of lines holds.
pub open spec fn texts_model(v: Seq<Vec<char>>) -> Seq<Seq<char>> {
    Seq::new(v.len(), |j: int| v[j]@)
}

/// The instruction an instruction line writes.
fn inst_for(l: &[char], labels: &Vec<(Vec<char>, usize)>) -> (r: Option<InstInfo>)
    ensures
        match r {
            Some(i) => inst_of(l@, labels_model(labels@)) == Some(inst_view(i)),
            None => inst_of(l@, labels_model(labels@)) is None,
        },
{
    if l.len() < 3 {
        return None;
    }
    let name = vstd::slice::slice_subrange(l, 0, 3);
    let rest = vstd::slice::slice_subrange(l, 3, l.len());
    assert(name@ == l@.take(3));
    assert(rest@ == l@.skip(3));
    let arg = trim_chars(rest);
    match mode_for(arg.as_slice(), name, labels) {
        None => None,
        Some(m) => match opcode_row(name) {
            None => None,
            Some(row) => {
                assert(m < 12);
                match row[m as usize] {
                    None => None,
                    Some(op) => Some(InstInfo { opcode: op, mode: m, arg }),
                }
            },
        },
    }
}

/// The operand bytes of instruction `i` at `pc`.
fn operand_for(i: &InstInfo, pc: usize, labels: &Vec<(Vec<char>, usize)>) -> (r: Option<Vec<u8>>)
    ensures
        match r {
            Some(v) => operand_bytes(inst_view(*i), pc as int, labels_model(labels@)) == Some(v@),
            None => operand_bytes(inst_view(*i), pc as int, labels_model(labels@)) is None,
        },
{
    let a = i.arg.as_slice();
    let ghost lm = labels_model(labels@);
    let mut out: Vec<u8> = Vec::new();
    if i.mode == 0 {
        if a.len() == 0 {
            return None;
        }
        let rest = vstd::slice::slice_subrange(a, 1, a.len());
        assert(rest@ == a@.skip(1));
        match byte_parse(rest) {
            Some(v) => {
                out.push(v);
            },
            None => {
                return None;
            },
        }
    } else if i.mode == 1 {
        match byte_parse(a) {
            Some(v) => {
                out.push(v);
            },
            None => {
                return None;
            },
        }
    } else if i.mode == 4 {
        match find_label(labels, a) {
            Some(k) => {
                let t = labels[k].1;
                assert(label_value(lm, a@) == t as int);
                out.push((t % 256) as u8);
                out.push(((t / 256) % 256) as u8);
            },
            None => {
                if a.len() != 5 {
                    return None;
                }
                let lo_digits = vstd::slice::slice_subrange(a, 3, 5);
                let hi_digits = vstd::slice::slice_subrange(a, 1, 3);
                match (radix_parse(lo_digits, 16), radix_parse(hi_digits, 16)) {
                    (Some(lo), Some(hi)) => {
                        out.push(lo);
                        out.push(hi);
                    },
                    _ => {
                        return None;
                    },
                }
            },
        }
    } else if i.mode == 10 {
    } else {
        match find_label(labels, a) {
            Some(k) => {
                let t = labels[k].1;
                assert(label_value(lm, a@) == t as int);
                match rel_offset(t, pc) {
                    Some(v) => {
                        out.push(v);
                    },
                    None => {
                        return None;
                    },
                }
            },
            None => {
                return None;
            },
        }
    }
    Some(out)
}


// ---------------------------------------------------------------------------
// Lemmas on the passes
// ---------------------------------------------------------------------------

proof fn lemma_scan_line_prefix(ls: Seq<Seq<char>>, l0: Seq<(Seq<char>, int)>, c0: int, k: int)
    requires
        0 <= k <= ls.len(),
    ensures
        scan(ls.take(k), l0, c0).line <= scan(ls, l0, c0).line,
    decreases ls.len(),
{
    if k < ls.len() {
        lemma_scan_line_prefix(ls.drop_last(), l0, c0, k);
        assert(ls.drop_last().take(k) == ls.take(k));
    } else {
        assert(ls.take(k) == ls);
    }
}

proof fn lemma_insts_prefix(ls: Seq<Seq<char>>, lb: Seq<(Seq<char>, int)>, k: int)
    requires
        insts_of(ls, lb) is Some,
        0 <= k <= ls.len(),
    ensures
        insts_of(ls.take(k), lb) is Some,
    decreases ls.len(),
{
    if k < ls.len() {
        lemma_insts_prefix(ls.drop_last(), lb, k);
        assert(ls.drop_last().take(k) == ls.take(k));
    } else {
        assert(ls.take(k) == ls);
    }
}

proof fn lemma_insts_len(ls: Seq<Seq<char>>, lb: Seq<(Seq<char>, int)>)
    requires
        insts_of(ls, lb) is Some,
    ensures
        insts_of(ls, lb)->Some_0.len() == ls.len(),
    decreases ls.len(),
{
    if ls.len() > 0 {
        lemma_insts_len(ls.drop_last(), lb);
    }
}

proof fn lemma_total_len_nonneg(is: Seq<InstView>)
    ensures
        total_len(is) >= 0,
    decreases is.len(),
{
    if is.len() > 0 {
        lemma_total_len_nonneg(is.drop_last());
    }
}

proof fn lemma_total_len_prefix(is: Seq<InstView>, k: int)
    requires
        0 <= k <= is.len(),
    ensures
        0 <= total_len(is.take(k)) <= total_len(is),
    decreases is.len(),
{
    lemma_total_len_nonneg(is.take(k));
    if k < is.len() {
        lemma_total_len_prefix(is.drop_last(), k);
        assert(is.drop_last().take(k) == is.take(k));
    } else {
        assert(is.take(k) == is);
    }
}

proof fn lemma_encoded_prefix(is: Seq<InstView>, pc: int, lb: Seq<(Seq<char>, int)>, k: int)
    requires
        encoded(is, pc, lb) is Some,
        0 <= k <= is.len(),
    ensures
        encoded(is.take(k), pc, lb) is Some,
    decreases is.len(),
{
    if k < is.len() {
        lemma_encoded_prefix(is.drop_last(), pc, lb, k);
        assert(is.drop_last().take(k) == is.take(k));
    } else {
        assert(is.take(k) == is);
    }
}

/// A copy of `s[lo..hi]`.
fn copy_range(s: &[char], lo: usize, hi: usize) -> (r: Vec<char>)
    requires
        lo <= hi <= s@.len(),
    ensures
        r@ == s@.subrange(lo as int, hi as int),
{
    vstd::slice::slice_to_vec(vstd::slice::slice_subrange(s, lo, hi))
}

// ---------------------------------------------------------------------------
// The assembler
// ---------------------------------------------------------------------------

/// Machine code and the address it is meant to be loaded at.
pub struct Program {
    pub bytes: Vec<u8>,
    pub addr: usize,
}

/// A two-pass assembler for 6502 source text. Labels and instructions are
/// kept from one `assemble` to the next.
pub struct Assembler {
    labels: Vec<(Vec<char>, usize)>,
    program_counter: usize,
    instructions: Vec<InstInfo>,
    current_line: usize,
}

impl Assembler {
    /// What the assembler holds.
    pub closed spec fn model(&self) -> AssemblerView {
        AssemblerView {
            labels: labels_model(self.labels@),
            program_counter: self.program_counter as int,
            instructions: insts_model(self.instructions@),
            current_line: self.current_line as int,
        }
    }

    /// An assembler with no labels and no instructions.
    pub fn new() -> (a: Assembler)
        ensures
            a.model() == (AssemblerView {
                labels: seq![],
                program_counter: 0,
                instructions: seq![],
                current_line: 0,
            }),
    {
        let a = Assembler {
            labels: Vec::new(),
            program_counter: 0,
            instructions: Vec::new(),
            current_line: 0,
        };
        assert(labels_model(a.labels@) == Seq::<(Seq<char>, int)>::empty());
        assert(insts_model(a.instructions@) == Seq::<InstView>::empty());
        a
    }

    /// The first pass: labels take the number of the instruction line that
    /// follows them, and the instruction lines come back trimmed.
    fn gather(&mut self, ls: &Vec<Vec<char>>) -> (insts: Vec<Vec<char>>)
        requires
            scan(texts_model(ls@), labels_model(old(self).labels@), old(self).current_line as int).line
                <= usize::MAX,
        ensures
            labels_model(final(self).labels@) == scan(
                texts_model(ls@),
                labels_model(old(self).labels@),
                old(self).current_line as int,
            ).labels,
            final(self).current_line as int == scan(
                texts_model(ls@),
                labels_model(old(self).labels@),
                old(self).current_line as int,
            ).line,
            texts_model(insts@) == scan(
                texts_model(ls@),
                labels_model(old(self).labels@),
                old(self).current_line as int,
            ).insts,
            final(self).program_counter == old(self).program_counter,
            final(self).instructions@ == old(self).instructions@,
    {
        let ghost l0 = labels_model(self.labels@);
        let ghost c0 = self.current_line as int;
        let ghost lsm = texts_model(ls@);
        let mut insts: Vec<Vec<char>> = Vec::new();
        let mut k: usize = 0;
        assert(lsm.take(0) == Seq::<Seq<char>>::empty());
        assert(texts_model(insts@) == Seq::<Seq<char>>::empty());
        while k < ls.len()
            invariant
                k <= ls@.len(),
                lsm == texts_model(ls@),
                scan(lsm, l0, c0).line <= usize::MAX,
                labels_model(self.labels@) == scan(lsm.take(k as int), l0, c0).labels,
                self.current_line as int == scan(lsm.take(k as int), l0, c0).line,
                texts_model(insts@) == scan(lsm.take(k as int), l0, c0).insts,
                self.program_counter == old(self).program_counter,
                self.instructions@ == old(self).instructions@,
            decreases ls@.len() - k,
        {
            proof {
                assert(lsm.take(k + 1).drop_last() == lsm.take(k as int));
                assert(lsm.take(k + 1).last() == ls@[k as int]@);
                lemma_scan_line_prefix(lsm, l0, c0, k + 1);
            }
            let t = trim_chars(ls[k].as_slice());
            if t.len() == 0 {
            } else if t[t.len() - 1] == ':' {
                let name = copy_range(t.as_slice(), 0, t.len() - 1);
                assert(name@ == t@.drop_last());
                insert_label(&mut self.labels, name, self.current_line);
            } else {
                self.current_line = self.current_line + 1;
                let ghost before = insts@;
                insts.push(t);
                assert(texts_model(insts@) == texts_model(before).push(t@));
            }
            k += 1;
        }
        assert(lsm.take(k as int) == lsm);
        insts
    }

    /// The second pass: each instruction line becomes an instruction.
    fn decode_lines(&mut self, insts: &Vec<Vec<char>>)
        requires
            insts_of(texts_model(insts@), labels_model(old(self).labels@)) is Some,
        ensures
            insts_model(final(self).instructions@) == insts_model(old(self).instructions@) + insts_of(
                texts_model(insts@),
                labels_model(old(self).labels@),
            )->Some_0,
            final(self).labels@ == old(self).labels@,
            final(self).program_counter == old(self).program_counter,
            final(self).current_line == old(self).current_line,
    {
        let ghost lm = labels_model(self.labels@);
        let ghost tm = texts_model(insts@);
        let ghost im0 = insts_model(self.instructions@);
        let mut j: usize = 0;
        assert(tm.take(0) == Seq::<Seq<char>>::empty());
        assert(im0 + Seq::<InstView>::empty() == im0);
        while j < insts.len()
            invariant
                j <= insts@.len(),
                tm == texts_model(insts@),
                lm == labels_model(self.labels@),
                insts_of(tm, lm) is Some,
                insts_of(tm.take(j as int), lm) is Some,
                insts_model(self.instructions@) == im0 + insts_of(tm.take(j as int), lm)->Some_0,
                self.labels@ == old(self).labels@,
                self.program_counter == old(self).program_counter,
                self.current_line == old(self).current_line,
            decreases insts@.len() - j,
        {
            proof {
                lemma_insts_prefix(tm, lm, j + 1);
                assert(tm.take(j + 1).drop_last() == tm.take(j as int));
                assert(tm.take(j + 1).last() == insts@[j as int]@);
            }
            match inst_for(insts[j].as_slice(), &self.labels) {
                Some(i) => {
                    let ghost before = self.instructions@;
                    self.instructions.push(i);
                    assert(insts_model(self.instructions@) == insts_model(before).push(inst_view(i)));
                },
                None => {
                    assert(false);
                },
            }
            j += 1;
        }
        assert(tm.take(j as int) == tm);
    }

    /// Each label takes the address of the instruction it names, the
    /// instructions being placed from `pc` on.
    fn place_labels(&mut self, pc: usize)
        requires
            labels_resolvable(labels_model(old(self).labels@), old(self).instructions@.len() as int),
            pc + total_len(insts_model(old(self).instructions@)) <= usize::MAX,
        ensures
            labels_model(final(self).labels@) == labels_resolved(
                labels_model(old(self).labels@),
                insts_model(old(self).instructions@),
                pc as int,
            ),
            final(self).instructions@ == old(self).instructions@,
            final(self).program_counter == old(self).program_counter,
            final(self).current_line == old(self).current_line,
    {
        let ghost im = insts_model(self.instructions@);
        let mut addrs: Vec<usize> = Vec::new();
        let mut a: usize = pc;
        let mut j: usize = 0;
        assert(im.take(0) == Seq::<InstView>::empty());
        while j < self.instructions.len()
            invariant
                j <= self.instructions@.len(),
                im == insts_model(self.instructions@),
                pc + total_len(im) <= usize::MAX,
                a as int == pc + total_len(im.take(j as int)),
                addrs@.len() == j,
                forall|q: int| 0 <= q < j ==> #[trigger] addrs@[q] as int == pc + total_len(im.take(q)),
            decreases self.instructions@.len() - j,
        {
            proof {
                assert(im.take(j + 1).drop_last() == im.take(j as int));
                assert(im[j as int] == inst_view(self.instructions@[j as int]));
                lemma_total_len_prefix(im, j + 1);
            }
            addrs.push(a);
            a = a + inst_size(self.instructions[j].mode);
            j += 1;
        }
        let ghost lm = labels_model(self.labels@);
        let mut out: Vec<(Vec<char>, usize)> = Vec::new();
        let mut k: usize = 0;
        while k < self.labels.len()
            invariant
                k <= self.labels@.len(),
                lm == labels_model(self.labels@),
                labels_resolvable(lm, im.len() as int),
                addrs@.len() == im.len(),
                forall|q: int| 0 <= q < im.len() ==> #[trigger] addrs@[q] as int == pc + total_len(im.take(q)),
                labels_model(out@) == labels_resolved(lm, im, pc as int).take(k as int),
            decreases self.labels@.len() - k,
        {
            let name = copy_range(self.labels[k].0.as_slice(), 0, self.labels[k].0.len());
            assert(lm[k as int].1 == self.labels@[k as int].1 as int);
            let v = self.labels[k].1;
            assert(0 <= lm[k as int].1 < im.len());
            let ghost before = out@;
            out.push((name, addrs[v]));
            proof {
                assert(name@ == self.labels@[k as int].0@);
                assert(labels_model(out@) == labels_model(before).push((name@, addrs@[v as int] as int)));
                assert(labels_resolved(lm, im, pc as int).take(k + 1) == labels_resolved(lm, im, pc as int).take(
                    k as int,
                ).push(labels_resolved(lm, im, pc as int)[k as int]));
            }
            k += 1;
        }
        assert(labels_resolved(lm, im, pc as int).take(k as int) == labels_resolved(lm, im, pc as int));
        self.labels = out;
    }

    /// The machine code of every instruction, placed from the program
    /// counter on; the program counter ends past the last one.
    fn emit(&mut self) -> (bytes: Vec<u8>)
        requires
            encoded(
                insts_model(old(self).instructions@),
                old(self).program_counter as int,
                labels_model(old(self).labels@),
            ) is Some,
            old(self).program_counter + total_len(insts_model(old(self).instructions@)) <= usize::MAX,
        ensures
            Some(bytes@) == encoded(
                insts_model(old(self).instructions@),
                old(self).program_counter as int,
                labels_model(old(self).labels@),
            ),
            final(self).program_counter == old(self).program_counter + total_len(
                insts_model(old(self).instructions@),
            ),
            final(self).labels@ == old(self).labels@,
            final(self).instructions@ == old(self).instructions@,
            final(self).current_line == old(self).current_line,
    {
        let ghost im = insts_model(self.instructions@);
        let ghost pc = self.program_counter as int;
        let ghost lm = labels_model(self.labels@);
        let mut bytes: Vec<u8> = Vec::new();
        let mut j: usize = 0;
        assert(im.take(0) == Seq::<InstView>::empty());
        while j < self.instructions.len()
            invariant
                j <= self.instructions@.len(),
                im == insts_model(self.instructions@),
                lm == labels_model(self.labels@),
                encoded(im, pc, lm) is Some,
                pc + total_len(im) <= usize::MAX,
                self.program_counter as int == pc + total_len(im.take(j as int)),
                encoded(im.take(j as int), pc, lm) == Some(bytes@),
                self.labels@ == old(self).labels@,
                self.instructions@ == old(self).instructions@,
                self.current_line == old(self).current_line,
            decreases self.instructions@.len() - j,
        {
            proof {
                assert(im.take(j + 1).drop_last() == im.take(j as int));
                assert(im.take(j + 1).last() == im[j as int]);
                assert(im[j as int] == inst_view(self.instructions@[j as int]));
                lemma_encoded_prefix(im, pc, lm, j + 1);
                lemma_total_len_prefix(im, j + 1);
            }
            let inst = &self.instructions[j];
            match operand_for(inst, self.program_counter, &self.labels) {
                Some(ops) => {
                    let ghost before = bytes@;
                    bytes.push(inst.opcode);
                    let mut q: usize = 0;
                    while q < ops.len()
                        invariant
                            q <= ops@.len(),
                            bytes@ == before + seq![inst.opcode] + ops@.take(q as int),
                        decreases ops@.len() - q,
                    {
                        bytes.push(ops[q]);
                        assert(ops@.take(q + 1) == ops@.take(q as int).push(ops@[q as int]));
                        q += 1;
                    }
                    assert(ops@.take(q as int) == ops@);
                    let size = inst_size(inst.mode);
                    self.program_counter = self.program_counter + size;
                },
                None => {
                    assert(false);
                },
            }
            j += 1;
        }
        assert(im.take(j as int) == im);
        bytes
    }

    /// Assembles `source`, placing its instructions (after those of earlier
    /// calls) from `program_counter` on. Empty lines are skipped, a line
    /// ending in ':' is a label, any other line an instruction.
    pub fn assemble(&mut self, source: &str, program_counter: usize) -> (p: Program)
        requires
            assembles(old(self).model(), source@, program_counter as int),
        ensures
            p.addr == program_counter,
            p.bytes@ == assembled(old(self).model(), source@, program_counter as int)->Some_0.0,
            final(self).model() == assembled(old(self).model(), source@, program_counter as int)->Some_0.1,
    {
        let ghost a0 = self.model();
        let ghost pc = program_counter as int;
        let ghost st = scan(lines(source@), a0.labels, a0.current_line);
        self.program_counter = program_counter;
        let chars = chars_of(source);
        let ls = split_lines(chars.as_slice());
        assert(texts_model(ls@) == lines(source@));
        let insts = self.gather(&ls);
        let ghost new = insts_of(st.insts, st.labels)->Some_0;
        self.decode_lines(&insts);
        let ghost all = a0.instructions + new;
        proof {
            lemma_insts_len(st.insts, st.labels);
            assert(insts_model(self.instructions@).len() == self.instructions@.len());
        }
        self.place_labels(program_counter);
        let bytes = self.emit();
        Program { bytes, addr: program_counter }
    }
}


/// Every opcode the assembler can emit (immediate, zero page, absolute,
/// implied and relative forms) is one the CPU decodes back to the mnemonic
/// it was assembled from, in the addressing mode of its column.
#[verifier::rlimit(100)]
pub proof fn law_assembled_opcodes_decode(name: Seq<char>, m: int)
    requires
        m == 0 || m == 1 || m == 4 || m == 10 || m == 11,
        assembler_opcodes(name) is Some,
        assembler_opcodes(name)->Some_0[m] is Some,
    ensures
        ({
            let op = assembler_opcodes(name)->Some_0[m]->Some_0;
            &&& decoded(op) is Some
            &&& mnemonic(decoded(op)->Some_0.0) =~= seq![name[0] as u8, name[1] as u8, name[2] as u8]
            &&& mode_code(decoded(op)->Some_0.1) == m
        }),
{
    reveal(assembler_opcodes);
    reveal(mnemonic);
    match (name[0], name[1], name[2]) {
        ('A', 'D', 'C') => {},
        ('A', 'N', 'D') => {},
        ('A', 'S', 'L') => {},
        ('B', 'I', 'T') => {},
        ('B', 'P', 'L') => {},
        ('B', 'M', 'I') => {},
        ('B', 'V', 'C') => {},
        ('B', 'V', 'S') => {},
        ('B', 'C', 'C') => {},
        ('B', 'C', 'S') => {},
        ('B', 'N', 'E') => {},
        ('B', 'E', 'Q') => {},
        ('B', 'R', 'K') => {},
        ('C', 'M', 'P') => {},
        ('C', 'P', 'X') => {},
        ('C', 'P', 'Y') => {},
        ('D', 'E', 'C') => {},
        ('E', 'O', 'R') => {},
        ('C', 'L', 'C') => {},
        ('S', 'E', 'C') => {},
        ('C', 'L', 'I') => {},
        ('S', 'E', 'I') => {},
        ('C', 'L', 'V') => {},
        ('C', 'L', 'D') => {},
        ('S', 'E', 'D') => {},
        ('I', 'N', 'C') => {},
        ('J', 'M', 'P') => {},
        ('J', 'S', 'R') => {},
        ('L', 'D', 'A') => {},
        ('L', 'D', 'X') => {},
        ('L', 'D', 'Y') => {},
        ('L', 'S', 'R') => {},
        ('N', 'O', 'P') => {},
        ('O', 'R', 'A') => {},
        ('T', 'A', 'X') => {},
        ('T', 'X', 'A') => {},
        ('D', 'E', 'X') => {},
        ('I', 'N', 'X') => {},
        ('T', 'A', 'Y') => {},
        ('T', 'Y', 'A') => {},
        ('D', 'E', 'Y') => {},
        ('I', 'N', 'Y') => {},
        ('R', 'O', 'R') => {},
        ('R', 'O', 'L') => {},
        ('R', 'T', 'I') => {},
        ('R', 'T', 'S') => {},
        ('S', 'B', 'C') => {},
        ('S', 'T', 'A') => {},
        ('T', 'X', 'S') => {},
        ('T', 'S', 'X') => {},
        ('P', 'H', 'A') => {},
        ('P', 'L', 'A') => {},
        ('P', 'H', 'P') => {},
        ('P', 'L', 'P') => {},
        ('S', 'T', 'X') => {},
        ('S', 'T', 'Y') => {},
        _ => {},
    }
}


/// A branch reaches its target: the offset byte, read as a signed number
/// and added to the address after the two-byte branch instruction, gives
/// the target's address (both taken modulo 64 KiB).
pub proof fn law_branch_offset_reaches(target: int, pc: int)
    requires
        rel_byte(target, pc) is Some,
    ensures
        ({
            let b = rel_byte(target, pc)->Some_0;
            (pc + 2 + if b >= 128 {
                b - 256
            } else {
                b as int
            }) % 0x1_0000 == target % 0x1_0000
        }),
{
    let tm = target % 0x1_0000;
    let pm = pc % 0x1_0000;
    let d1 = as_i16(tm) - as_i16(pm);
    let d = d1 - 2;
    let b = rel_byte(target, pc)->Some_0;
    assert(b as int == if d < 0 { d + 256 } else { d });
    assert(pc == (pc / 0x1_0000) * 0x1_0000 + pm);
    assert(target == (target / 0x1_0000) * 0x1_0000 + tm);
    let k: int = (if tm >= 0x8000 { -1int } else { 0int }) - (if pm >= 0x8000 { -1int } else { 0int });
    assert(d1 == tm - pm + k * 0x1_0000);
    assert(pc + 2 + d == 0x1_0000 * (pc / 0x1_0000 + k) + tm);
    vstd::arithmetic::div_mod::lemma_mod_multiples_vanish(pc / 0x1_0000 + k, tm, 0x1_0000);
    vstd::arithmetic::div_mod::lemma_small_mod(tm as nat, 0x1_0000);
}


/// The decimal digit character for `n` (0 to 9).
pub open spec fn decimal_digit(n: int) -> char {
    ('0' as int + n) as char
}

/// Operands written the way the trace prints bytes read back as those
/// bytes: "$" and two uppercase hexadecimal digits, and also three decimal
/// digits (leading zeros allowed).
#[verifier::rlimit(40)]
pub proof fn law_byte_operands_read_back(v: u8)
    ensures
        parse_byte(seq!['$', hex_digit(v as int / 16) as char, hex_digit(v as int % 16) as char]) == Some(v),
        parse_byte(seq![decimal_digit(v as int / 100), decimal_digit((v as int / 10) % 10), decimal_digit(v as int % 10)])
            == Some(v),
{
    lemma_hex_operand(v);
    lemma_decimal_operand(v);
}

#[verifier::rlimit(40)]
proof fn lemma_hex_operand(v: u8)
    ensures
        parse_byte(seq!['$', hex_digit(v as int / 16) as char, hex_digit(v as int % 16) as char]) == Some(v),
{
    let h = seq![hex_digit(v as int / 16) as char, hex_digit(v as int % 16) as char];
    let s = seq!['$', hex_digit(v as int / 16) as char, hex_digit(v as int % 16) as char];
    assert(s.skip(1) == h);
    assert(unsigned_digits(h) == h);
    assert(digit_value(h[0], 16) == Some(v as int / 16));
    assert(digit_value(h[1], 16) == Some(v as int % 16));
    assert(h.drop_last().drop_last() == Seq::<char>::empty());
    assert(radix_acc(h.drop_last().drop_last(), 16) == 0);
    assert(h.drop_last().len() == 1 && h.drop_last().last() == h[0]);
    assert(radix_acc(h.drop_last(), 16) == v as int / 16);
    assert(radix_acc(h, 16) == v);
}

#[verifier::rlimit(40)]
proof fn lemma_decimal_operand(v: u8)
    ensures
        parse_byte(seq![decimal_digit(v as int / 100), decimal_digit((v as int / 10) % 10), decimal_digit(v as int % 10)])
            == Some(v),
{
    let d = seq![decimal_digit(v as int / 100), decimal_digit((v as int / 10) % 10), decimal_digit(v as int % 10)];
    assert(d[0] != '$');
    assert(unsigned_digits(d) == d);
    assert(digit_value(d[0], 10) == Some(v as int / 100));
    assert(digit_value(d[1], 10) == Some((v as int / 10) % 10));
    assert(digit_value(d[2], 10) == Some(v as int % 10));
    assert(d.drop_last().drop_last().drop_last() == Seq::<char>::empty());
    assert(radix_acc(d.drop_last().drop_last().drop_last(), 10) == 0);
    assert(d.drop_last().drop_last().len() == 1 && d.drop_last().drop_last().last() == d[0]);
    assert(d.drop_last().last() == d[1]);
    assert(radix_acc(d.drop_last().drop_last(), 10) == v as int / 100);
    assert(radix_acc(d.drop_last(), 10) == v as int / 10);
    assert(radix_acc(d, 10) == v);
}


/// The machine code of a run of instructions is as long as their sizes add
/// up to: one opcode byte and the operand bytes its addressing mode takes
/// for each, so every instruction starts where the sizes place it.
pub proof fn law_encoded_length(is: Seq<InstView>, pc: int, labels: Seq<(Seq<char>, int)>)
    requires
        encoded(is, pc, labels) is Some,
    ensures
        encoded(is, pc, labels)->Some_0.len() == total_len(is),
    decreases is.len(),
{
    if is.len() > 0 {
        law_encoded_length(is.drop_last(), pc, labels);
    }
}

/// An absolute operand is stored little-endian: its first byte is the low
/// byte of the address and its second the high byte, whether the address
/// comes from a label or from four hexadecimal digits after '$'.
#[verifier::rlimit(40)]
pub proof fn law_absolute_operand_order(i: InstView, pc: int, labels: Seq<(Seq<char>, int)>)
    requires
        i.mode == 4,
        operand_bytes(i, pc, labels) is Some,
    ensures
        ({
            let b = operand_bytes(i, pc, labels)->Some_0;
            &&& b.len() == 2
            &&& has_label(labels, i.arg) ==> label_value(labels, i.arg) >= 0 ==> b[0] + 256 * b[1]
                == label_value(labels, i.arg) % 0x1_0000
            &&& !has_label(labels, i.arg) && (forall|k: int|
                1 <= k < 5 ==> #[trigger] digit_value(i.arg[k], 16) is Some) ==> b[0] + 256 * b[1]
                == radix_acc(i.arg.subrange(1, 5), 16)
        }),
{
    let a = i.arg;
    if has_label(labels, a) && label_value(labels, a) >= 0 {
        let t = label_value(labels, a);
        assert(t % 0x1_0000 == t % 256 + 256 * ((t / 256) % 256)) by (nonlinear_arith)
            requires
                t >= 0,
        ;
    }
    if !has_label(labels, a) && (forall|k: int| 1 <= k < 5 ==> #[trigger] digit_value(a[k], 16) is Some) {
        let hi = a.subrange(1, 3);
        assert(digit_value(a[1], 16) is Some && digit_value(a[2], 16) is Some);
        assert(digit_value(a[3], 16) is Some && digit_value(a[4], 16) is Some);
        let lo = a.subrange(3, 5);
        let d = a.subrange(1, 5);
        assert(d.drop_last().drop_last() == hi);
        assert(d.last() == lo[1] && d.drop_last().last() == lo[0]);
        assert(lo.drop_last().drop_last() == Seq::<char>::empty());
        assert(lo.drop_last().last() == lo[0]);
        assert(lo[0] == a[3] && lo[1] == a[4] && hi[0] == a[1] && hi[1] == a[2]);
        assert(unsigned_digits(lo) == lo && unsigned_digits(hi) == hi);
        assert(hi.drop_last().drop_last() == Seq::<char>::empty());
        assert(hi.drop_last().last() == hi[0]);
        assert(d.drop_last().drop_last().drop_last() == hi.drop_last());
        assert(d.drop_last().drop_last().drop_last().drop_last() == Seq::<char>::empty());
        let h0 = digit_value(a[1], 16)->Some_0;
        let h1 = digit_value(a[2], 16)->Some_0;
        let l0 = digit_value(a[3], 16)->Some_0;
        let l1 = digit_value(a[4], 16)->Some_0;
        assert(d.drop_last().drop_last().drop_last().last() == a[1]);
        assert(d.drop_last().drop_last().last() == a[2]);
        assert(d.drop_last().last() == a[3]);
        assert(d.last() == a[4]);
        assert(radix_acc(d.drop_last().drop_last().drop_last().drop_last(), 16) == 0);
        assert(radix_acc(d.drop_last().drop_last().drop_last(), 16) == h0);
        assert(radix_acc(d.drop_last().drop_last(), 16) == 16 * h0 + h1);
        assert(radix_acc(d.drop_last(), 16) == 16 * (16 * h0 + h1) + l0);
        assert(radix_acc(d, 16) == 16 * (16 * (16 * h0 + h1) + l0) + l1);
        assert(radix_acc(hi.drop_last(), 16) == h0);
        assert(radix_acc(hi, 16) == 16 * h0 + h1);
        assert(radix_acc(lo.drop_last(), 16) == l0);
        assert(radix_acc(lo, 16) == 16 * l0 + l1);
        assert(parse_radix(lo, 16) == Some((16 * l0 + l1) as u8));
        assert(parse_radix(hi, 16) == Some((16 * h0 + h1) as u8));
    }
}

} // verus!
