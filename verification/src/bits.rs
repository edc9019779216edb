use vstd::prelude::*;

verus! {

/// Masks and shifts of a byte, read as arithmetic.
pub proof fn lemma_u8_bits(v: u8)
    by (bit_vector)
    ensures
        v & 1 == v % 2,
        v & 0b11 == v % 4,
        v & 0b111 == v % 8,
        v & 0b1111 == v % 16,
        v & 0b11111 == v % 32,
        v & 0x3F == v % 64,
        v & 0x7F == v % 128,
        v >> 1 == v / 2,
        v >> 2 == v / 4,
        v >> 3 == v / 8,
        v >> 4 == v / 16,
        v >> 5 == v / 32,
        v >> 6 == v / 64,
        v >> 7 == v / 128,
        v >> 0u8 == v,
{
}

/// Masks and shifts of a 16-bit value, read as arithmetic.
pub proof fn lemma_u16_bits(v: u16)
    by (bit_vector)
    ensures
        v & 1 == v % 2,
        v & 0b11 == v % 4,
        v & 0b111 == v % 8,
        v & 0x1F == v % 0x20,
        v & 0x3F == v % 0x40,
        v & 0xFF == v % 0x100,
        v & 0x3FF == v % 0x400,
        v & 0x7FF == v % 0x800,
        v & 0xFFF == v % 0x1000,
        v & 0x1FFF == v % 0x2000,
        v & 0x3FFF == v % 0x4000,
        v >> 2 == v / 4,
        v >> 4 == v / 0x10,
        v >> 5 == v / 0x20,
        v >> 8 == v / 0x100,
        v >> 10 == v / 0x400,
        v >> 12 == v / 0x1000,
        (v >> 8) as u8 == v / 0x100,
        (v & 0xff) as u8 == v % 0x100,
        (v & 0x7000 == 0x7000) == ((v / 0x1000) % 8 == 7),
        (v & 0x3E0) >> 5 == (v / 0x20) % 0x20,
        (v >> 12) & 0b111 == (v / 0x1000) % 8,
        v == 0 ==> (v & 0xF3FF) | ((v & 0b11) << 10) == 0,
{
}

/// Splitting a 32-bit value into halves and bytes.
pub proof fn lemma_u32_bits(v: u32)
    by (bit_vector)
    ensures
        (v >> 16) as u16 == v / 0x1_0000,
        (v & 0xffff) as u16 == v % 0x1_0000,
        (v & 0xff) as u8 == v % 0x100,
        ((v >> 8) & 0xff) as u8 == (v / 0x100) % 0x100,
        ((v >> 16) & 0xff) as u8 == (v / 0x1_0000) % 0x100,
        (v >> 24) as u8 == v / 0x100_0000,
        v & 1 == v % 2,
{
}

/// Splitting a 64-bit value into halves.
pub proof fn lemma_u64_bits(v: u64)
    by (bit_vector)
    ensures
        (v >> 32) as u32 == v / 0x1_0000_0000,
        (v & 0xffff_ffff) as u32 == v % 0x1_0000_0000,
        (v & 0xff) as u8 == v % 0x100,
        v & 0xF == v % 16,
        v & 0b11 == v % 4,
{
}

/// Truncating casts of a length.
pub proof fn lemma_usize_casts(n: usize, n8: u8, n32: u32, n64: u64)
    by (bit_vector)
    requires
        n8 == n as u8,
        n32 == n as u32,
        n64 == n as u64,
    ensures
        n32 == n64 % 0x1_0000_0000,
        n8 == (n64 & 0xff) as u8,
{
}

/// Joining two bytes, high first, into a 16-bit value.
pub proof fn lemma_join16(hi: u16, lo: u16)
    by (bit_vector)
    requires
        hi < 0x100,
        lo < 0x100,
    ensures
        hi << 8 | lo == hi * 0x100 + lo,
{
}

/// Joining two 16-bit halves, high first, into a 32-bit value.
pub proof fn lemma_join32(hi: u32, lo: u32)
    by (bit_vector)
    requires
        hi < 0x1_0000,
        lo < 0x1_0000,
    ensures
        hi << 16 | lo == hi * 0x1_0000 + lo,
{
}

/// Joining two 32-bit halves, high first, into a 64-bit value.
pub proof fn lemma_join64(hi: u64, lo: u64)
    by (bit_vector)
    requires
        hi < 0x1_0000_0000,
        lo < 0x1_0000_0000,
    ensures
        hi << 32 | lo == hi * 0x1_0000_0000 + lo,
{
}

/// Joining four bytes, lowest first, into a 32-bit value.
pub proof fn lemma_join_le32(b0: u32, b1: u32, b2: u32, b3: u32)
    by (bit_vector)
    requires
        b0 < 256,
        b1 < 256,
        b2 < 256,
        b3 < 256,
    ensures
        b0 | b1 << 8 | b2 << 16 | b3 << 24 == b0 + b1 * 0x100 + b2 * 0x1_0000 + b3 * 0x100_0000,
{
}

/// Bit `index` of a byte, selected by a mask or by a shift.
pub proof fn lemma_u8_select(status: u8, index: u8)
    by (bit_vector)
    requires
        index <= 7,
    ensures
        (status & (1u8 << index) != 0) == ((status >> index) & 1 == 1),
        (status >> index) & 1 <= 1,
{
}

/// Facts about the APU's register packing: timer periods assembled from a
/// low and a high write stay within 11 bits, sample address and length
/// registers scale their byte, a right shift never grows a value, and the
/// noise feedback is one bit.
pub proof fn lemma_apu_fields(p: u16, val: u8, shift8: u8, shift16: u16)
    by (bit_vector)
    ensures
        p <= 0x7FF ==> (p & 0xFF00) | (val as u16) <= 0x7FF,
        (p & 0x00FF) | (((val & 7) as u16) << 8) <= 0x7FF,
        0xC000 | ((val as u16) << 6) == 0xC000 + 64 * val,
        ((val as u16) << 4) | 1 == 16 * val + 1,
        p >> shift8 <= p,
        (p & 1) ^ ((p >> shift16) & 1) <= 1,
{
}

} // verus!
