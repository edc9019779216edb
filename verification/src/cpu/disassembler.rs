use vstd::prelude::*;
use vstd::utf8::encode_utf8;

verus! {

/// The pieces of `s` between spaces, in order: `n` spaces make `n + 1`
/// pieces, empty ones included.
pub open spec fn pieces(s: Seq<u8>) -> Seq<Seq<u8>>
    decreases s.len(),
{
    if s.len() == 0 {
        seq![seq![]]
    } else {
        let p = pieces(s.drop_last());
        if s.last() == ' ' as u8 {
            p.push(seq![])
        } else {
            p.update(p.len() - 1, p.last().push(s.last()))
        }
    }
}

/// The value of a hexadecimal digit, either case; other bytes count as 0.
pub open spec fn hex_digit_value(b: u8) -> int {
    if '0' as u8 <= b <= '9' as u8 {
        b - '0' as u8
    } else if 'a' as u8 <= b <= 'f' as u8 {
        b - 'a' as u8 + 10
    } else if 'A' as u8 <= b <= 'F' as u8 {
        b - 'A' as u8 + 10
    } else {
        0
    }
}

/// `b` is a hexadecimal digit.
pub open spec fn is_hex_digit(b: u8) -> bool {
    ||| '0' as u8 <= b <= '9' as u8
    ||| 'a' as u8 <= b <= 'f' as u8
    ||| 'A' as u8 <= b <= 'F' as u8
}

/// The number that the digits `d` write in base 16.
pub open spec fn hex_acc(d: Seq<u8>) -> int
    decreases d.len(),
{
    if d.len() == 0 {
        0
    } else {
        16 * hex_acc(d.drop_last()) + hex_digit_value(d.last())
    }
}

/// The digits of a number: what follows an optional leading '+'.
pub open spec fn digits_of(p: Seq<u8>) -> Seq<u8> {
    if p.len() > 0 && p[0] == '+' as u8 {
        p.drop_first()
    } else {
        p
    }
}

/// The byte that a piece of text writes in base 16, as `u8::from_str_radix`
/// reads it: an optional '+', then at least one hexadecimal digit, the
/// value below 256.
pub open spec fn parsed_u8(p: Seq<u8>) -> Option<u8> {
    let d = digits_of(p);
    if d.len() > 0 && (forall|i: int| 0 <= i < d.len() ==> is_hex_digit(#[trigger] d[i])) && hex_acc(d)
        < 256 {
        Some(hex_acc(d) as u8)
    } else {
        None
    }
}

/// The value the parser accumulates for a piece: a leading '+' skipped,
/// digits folded in base 16, capped at 256.
pub open spec fn capped_value(p: Seq<u8>) -> int
    decreases p.len(),
{
    if p.len() == 0 {
        0
    } else if p.len() == 1 && p[0] == '+' as u8 {
        0
    } else {
        let v = 16 * capped_value(p.drop_last()) + hex_digit_value(p.last());
        if v < 256 {
            v
        } else {
            256
        }
    }
}

proof fn lemma_capped_value(p: Seq<u8>)
    ensures
        hex_acc(digits_of(p)) >= 0,
        capped_value(p) == if hex_acc(digits_of(p)) < 256 { hex_acc(digits_of(p)) } else { 256 },
    decreases p.len(),
{
    if p.len() == 0 {
    } else if p.len() == 1 && p[0] == '+' as u8 {
        assert(digits_of(p).len() == 0);
    } else {
        let q = p.drop_last();
        lemma_capped_value(q);
        if p[0] == '+' as u8 {
            assert(q[0] == '+' as u8);
            assert(digits_of(p).drop_last() == digits_of(q));
            assert(digits_of(p).last() == p.last());
        } else {
            assert(q.len() > 0 ==> q[0] == p[0]);
            assert(digits_of(q) == q);
        }
    }
}

fn hex_value(b: u8) -> (v: u32)
    ensures
        v == hex_digit_value(b),
{
    if b >= 48 && b <= 57 {
        (b - 48) as u32
    } else if b >= 97 && b <= 102 {
        (b - 87) as u32
    } else if b >= 65 && b <= 70 {
        (b - 55) as u32
    } else {
        0
    }
}

/// Reads space-separated hexadecimal bytes, such as "A9 05 8D".
pub fn parse_hex(hex: &str) -> (r: Vec<u8>)
    requires
        forall|i: int|
            0 <= i < pieces(encode_utf8(hex@)).len() ==> #[trigger] parsed_u8(
                pieces(encode_utf8(hex@))[i],
            ) is Some,
    ensures
        r@.len() == pieces(encode_utf8(hex@)).len(),
        forall|i: int|
            0 <= i < r@.len() ==> r@[i] == parsed_u8(#[trigger] pieces(encode_utf8(hex@))[i])->Some_0,
{
    let bytes = hex.as_bytes();
    let ghost b = bytes@;
    let mut out: Vec<u8> = Vec::new();
    let mut acc: u32 = 0;
    let mut empty = true;
    let mut i: usize = 0;
    while i < bytes.len()
        invariant
            b == bytes@,
            i <= b.len(),
            pieces(b.take(i as int)).len() >= 1,
            out@.len() == pieces(b.take(i as int)).len() - 1,
            forall|k: int|
                0 <= k < out@.len() ==> out@[k] == capped_value(#[trigger] pieces(b.take(i as int))[k])
                    as u8,
            acc == capped_value(pieces(b.take(i as int)).last()),
            empty == (pieces(b.take(i as int)).last().len() == 0),
        decreases b.len() - i,
    {
        let ghost ps = pieces(b.take(i as int));
        let c = bytes[i];
        assert(b.take(i + 1).drop_last() == b.take(i as int));
        assert(b.take(i + 1).last() == c);
        if c == 32 {
            assert(pieces(b.take(i + 1)) == ps.push(seq![]));
            out.push(acc as u8);
            acc = 0;
            empty = true;
        } else {
            let ghost last = ps.last().push(c);
            assert(pieces(b.take(i + 1)) == ps.update(ps.len() - 1, last));
            assert(last.drop_last() == ps.last());
            if empty && c == 43 {
                assert(last.len() == 1 && last[0] == '+' as u8);
            } else {
                let v = 16 * acc + hex_value(c);
                acc = if v < 256 {
                    v
                } else {
                    256
                };
            }
            empty = false;
        }
        i += 1;
    }
    let ghost ps = pieces(b.take(i as int));
    out.push(acc as u8);
    assert(b.take(i as int) == b);
    proof {
        assert forall|k: int| 0 <= k < out@.len() implies out@[k] == parsed_u8(
            #[trigger] pieces(encode_utf8(hex@))[k],
        )->Some_0 by {
            lemma_capped_value(ps[k]);
            assert(parsed_u8(ps[k]) is Some);
        }
    }
    out
}

} // verus!
