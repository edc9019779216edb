use vstd::prelude::*;
use vstd::utf8::{decode_utf8, encode_utf8, valid_utf8};
use crate::bits::{lemma_join16, lemma_join32, lemma_join64, lemma_join_le32, lemma_u16_bits, lemma_u32_bits, lemma_u64_bits, lemma_usize_casts};

verus! {

/// Magic number that opens every save state: the bytes of "NESSIE".
pub const NESSIE: [u8; 6] = [78, 69, 83, 83, 73, 69];
pub const NESSIE_LEN: usize = 6;
/// Size of the ROM hash stored in the header, in bytes.
pub const HASH_SIZE: usize = 32;
pub const NESSIE_SAVE_VERSION: u8 = 0;
/// Size of the version field, in bytes.
pub const VERSION_SIZE: usize = 1;
/// Size of the whole header, in bytes.
pub const HEADER_SIZE: usize = NESSIE_LEN + VERSION_SIZE + HASH_SIZE;

/// A component of the emulator whose state can be written into, and read
/// back from, a section of a save state.
pub trait Save: Sized {
    /// `after` is `before` once this value has been saved into it.
    spec fn saved(&self, before: Section, after: Section) -> bool;

    /// Loading into this value from `before` returned `r` and left the value
    /// as `value` and the sections as `after`.
    spec fn loaded(
        &self,
        before: Section,
        r: Result<(), SaveStateError>,
        value: Self,
        after: Section,
    ) -> bool;

    fn save(&self, parent: &mut Section)
        ensures
            self.saved(*old(parent), *final(parent)),
    ;

    fn load(&mut self, parent: &mut Section) -> (r: Result<(), SaveStateError>)
        ensures
            old(self).loaded(*old(parent), r, *final(self), *final(parent)),
    ;
}

#[derive(Debug)]
pub enum SaveStateError {
    InvalidHeader,
    InvalidVersion(u8),
    IncoherentRomHash { save_state_rom_hash: [u8; HASH_SIZE], cart_rom_hash: [u8; HASH_SIZE] },
    MissingSection(String),
    InvalidData,
}

// ---------------------------------------------------------------------------
// Byte-level encodings
// ---------------------------------------------------------------------------

/// Big-endian bytes of a 16-bit value.
pub open spec fn u16_be_bytes(v: u16) -> Seq<u8> {
    seq![(v / 256) as u8, (v % 256) as u8]
}

/// Big-endian bytes of a 32-bit value.
pub open spec fn u32_be_bytes(v: u32) -> Seq<u8> {
    u16_be_bytes((v / 0x1_0000) as u16) + u16_be_bytes((v % 0x1_0000) as u16)
}

/// Big-endian bytes of a 64-bit value.
pub open spec fn u64_be_bytes(v: u64) -> Seq<u8> {
    u32_be_bytes((v / 0x1_0000_0000) as u32) + u32_be_bytes((v % 0x1_0000_0000) as u32)
}

/// The value of two big-endian bytes starting at `i`.
pub open spec fn be_u16_at(b: Seq<u8>, i: int) -> u16 {
    (b[i] * 256 + b[i + 1]) as u16
}

/// The value of four big-endian bytes starting at `i`.
pub open spec fn be_u32_at(b: Seq<u8>, i: int) -> u32 {
    (be_u16_at(b, i) * 0x1_0000 + be_u16_at(b, i + 2)) as u32
}

/// The value of eight big-endian bytes starting at `i`.
pub open spec fn be_u64_at(b: Seq<u8>, i: int) -> u64 {
    (be_u32_at(b, i) * 0x1_0000_0000 + be_u32_at(b, i + 4)) as u64
}

/// Little-endian bytes of a 32-bit value.
pub open spec fn u32_le_bytes(v: u32) -> Seq<u8> {
    seq![
        (v % 0x100) as u8,
        ((v / 0x100) % 0x100) as u8,
        ((v / 0x1_0000) % 0x100) as u8,
        (v / 0x100_0000) as u8,
    ]
}

/// The value of four little-endian bytes starting at `i`.
pub open spec fn le_u32_at(b: Seq<u8>, i: int) -> u32 {
    (b[i] + b[i + 1] * 0x100 + b[i + 2] * 0x1_0000 + b[i + 3] * 0x100_0000) as u32
}

/// The byte a boolean is stored as.
pub open spec fn bool_byte(b: bool) -> u8 {
    if b { 1 } else { 0 }
}

/// Reading what was written gives the value back.
pub proof fn lemma_be_roundtrip(a: u16, b: u32, c: u64)
    ensures
        be_u16_at(u16_be_bytes(a), 0) == a,
        be_u32_at(u32_be_bytes(b), 0) == b,
        be_u64_at(u64_be_bytes(c), 0) == c,
{
    let ah = u16_be_bytes((b / 0x1_0000) as u16);
    let al = u16_be_bytes((b % 0x1_0000) as u16);
    assert(be_u16_at(u32_be_bytes(b), 0) == be_u16_at(ah, 0));
    assert(be_u16_at(u32_be_bytes(b), 2) == be_u16_at(al, 0));
    let ch = (c / 0x1_0000_0000) as u32;
    let cl = (c % 0x1_0000_0000) as u32;
    let s = u64_be_bytes(c);
    assert(be_u32_at(s, 0) == be_u32_at(u32_be_bytes(ch), 0)) by {
        assert(be_u16_at(s, 0) == be_u16_at(u32_be_bytes(ch), 0));
        assert(be_u16_at(s, 2) == be_u16_at(u32_be_bytes(ch), 2));
    }
    assert(be_u32_at(s, 4) == be_u32_at(u32_be_bytes(cl), 0)) by {
        assert(be_u16_at(s, 4) == be_u16_at(u32_be_bytes(cl), 0));
        assert(be_u16_at(s, 6) == be_u16_at(u32_be_bytes(cl), 2));
    }
    lemma_be_u32(ch);
    lemma_be_u32(cl);
}

proof fn lemma_be_u32(b: u32)
    ensures
        be_u32_at(u32_be_bytes(b), 0) == b,
{
    let ah = u16_be_bytes((b / 0x1_0000) as u16);
    let al = u16_be_bytes((b % 0x1_0000) as u16);
    assert(be_u16_at(u32_be_bytes(b), 0) == be_u16_at(ah, 0));
    assert(be_u16_at(u32_be_bytes(b), 2) == be_u16_at(al, 0));
}

/// Reading four little-endian bytes gives back the value they encode.
pub proof fn lemma_le_roundtrip(v: u32)
    ensures
        le_u32_at(u32_le_bytes(v), 0) == v,
{
}

// ---------------------------------------------------------------------------
// ByteBuffer
// ---------------------------------------------------------------------------

/// A growable byte buffer that is written at its end and read from a cursor.
pub struct ByteBuffer {
    pub data: Vec<u8>,
    pub read_index: usize,
}

impl ByteBuffer {
    pub fn new() -> (b: ByteBuffer)
        ensures
            b.data@ == Seq::<u8>::empty(),
            b.read_index == 0,
    {
        ByteBuffer { data: Vec::new(), read_index: 0 }
    }

    pub fn from(data: &[u8]) -> (b: ByteBuffer)
        ensures
            b.data@ == data@,
            b.read_index == 0,
    {
        ByteBuffer { data: vstd::slice::slice_to_vec(data), read_index: 0 }
    }

    /// in bytes
    pub fn size(&self) -> (n: usize)
        ensures
            n == self.data@.len(),
    {
        self.data.len()
    }

    pub fn get_data(&self) -> (d: &Vec<u8>)
        ensures
            d@ == self.data@,
    {
        &self.data
    }

    pub fn write_slice(&mut self, data: &[u8])
        ensures
            final(self).data@ == old(self).data@ + data@,
            final(self).read_index == old(self).read_index,
    {
        let mut i: usize = 0;
        while i < data.len()
            invariant
                i <= data@.len(),
                self.data@ == old(self).data@ + data@.subrange(0, i as int),
                self.read_index == old(self).read_index,
            decreases data@.len() - i,
        {
            self.data.push(data[i]);
            assert(data@.subrange(0, i + 1) == data@.subrange(0, i as int).push(data@[i as int]));
            i += 1;
        }
        assert(data@.subrange(0, data@.len() as int) == data@);
    }

    pub fn write_bool(&mut self, data: bool)
        ensures
            final(self).data@ == old(self).data@.push(bool_byte(data)),
            final(self).read_index == old(self).read_index,
    {
        self.write_u8(if data { 1 } else { 0 });
    }

    pub fn write_u8(&mut self, data: u8)
        ensures
            final(self).data@ == old(self).data@.push(data),
            final(self).read_index == old(self).read_index,
    {
        self.data.push(data)
    }

    pub fn write_u16(&mut self, data: u16)
        ensures
            final(self).data@ == old(self).data@ + u16_be_bytes(data),
            final(self).read_index == old(self).read_index,
    {
        let hi = (data >> 8) as u8;
        let lo = (data & 0xff) as u8;
        proof {
            lemma_u16_bits(data);
        }
        self.data.push(hi);
        self.data.push(lo);
    }

    pub fn write_u32(&mut self, data: u32)
        ensures
            final(self).data@ == old(self).data@ + u32_be_bytes(data),
            final(self).read_index == old(self).read_index,
    {
        let hi = (data >> 16) as u16;
        let lo = (data & 0xffff) as u16;
        proof {
            lemma_u32_bits(data);
        }
        self.write_u16(hi);
        self.write_u16(lo);
    }

    pub fn write_u64(&mut self, data: u64)
        ensures
            final(self).data@ == old(self).data@ + u64_be_bytes(data),
            final(self).read_index == old(self).read_index,
    {
        let hi = (data >> 32) as u32;
        let lo = (data & 0xffff_ffff) as u32;
        proof {
            lemma_u64_bits(data);
        }
        self.write_u32(hi);
        self.write_u32(lo);
    }

    /// Fills `dst` from the cursor; fails, changing nothing, when fewer than
    /// `dst.len()` bytes remain.
    pub fn read_slice(&mut self, dst: &mut [u8]) -> (r: Result<(), SaveStateError>)
        ensures
            final(self).data == old(self).data,
            r is Ok <==> old(self).read_index + old(dst)@.len() <= old(self).data@.len(),
            r is Ok ==> final(dst)@ == old(self).data@.subrange(
                old(self).read_index as int,
                old(self).read_index + old(dst)@.len(),
            ) && final(self).read_index == old(self).read_index + old(dst)@.len(),
            r is Err ==> r->Err_0 is InvalidData && final(dst)@ == old(dst)@
                && final(self).read_index == old(self).read_index,
    {
        if self.read_index > self.data.len() || dst.len() > self.data.len() - self.read_index {
            return Err(SaveStateError::InvalidData);
        }
        let start = self.read_index;
        let n = self.data.len();
        let mut i: usize = 0;
        while i < dst.len()
            invariant
                n == self.data@.len(),
                i <= dst@.len(),
                dst@.len() == old(dst)@.len(),
                start + dst@.len() <= self.data@.len(),
                self.data@ == old(self).data@,
                self.read_index == start,
                start == old(self).read_index,
                forall|j: int| 0 <= j < i ==> dst@[j] == self.data@[start + j],
            decreases dst@.len() - i,
        {
            dst[i] = self.data[start + i];
            i += 1;
        }
        assert(dst@ == old(self).data@.subrange(start as int, start + dst@.len()));
        self.read_index = start + dst.len();
        Ok(())
    }

    pub fn read_u8(&mut self) -> (r: Result<u8, SaveStateError>)
        ensures
            final(self).data == old(self).data,
            r is Ok <==> old(self).read_index < old(self).data@.len(),
            r is Ok ==> r->Ok_0 == old(self).data@[old(self).read_index as int]
                && final(self).read_index == old(self).read_index + 1,
            r is Err ==> r->Err_0 is InvalidData && final(self).read_index == old(self).read_index,
    {
        if self.read_index >= self.data.len() {
            return Err(SaveStateError::InvalidData);
        }
        let value = self.data[self.read_index];
        self.read_index += 1;
        Ok(value)
    }

    pub fn read_bool(&mut self) -> (r: Result<bool, SaveStateError>)
        ensures
            final(self).data == old(self).data,
            r is Ok <==> old(self).read_index < old(self).data@.len(),
            r is Ok ==> r->Ok_0 == (old(self).data@[old(self).read_index as int] != 0)
                && final(self).read_index == old(self).read_index + 1,
            r is Err ==> r->Err_0 is InvalidData && final(self).read_index == old(self).read_index,
    {
        match self.read_u8() {
            Ok(val) => Ok(val != 0),
            Err(e) => Err(e),
        }
    }

    /// Reads a big-endian 16-bit value. On failure the cursor has consumed
    /// whatever bytes were left.
    pub fn read_u16(&mut self) -> (r: Result<u16, SaveStateError>)
        ensures
            final(self).data == old(self).data,
            r is Ok <==> old(self).read_index + 2 <= old(self).data@.len(),
            r is Ok ==> r->Ok_0 == be_u16_at(old(self).data@, old(self).read_index as int)
                && final(self).read_index == old(self).read_index + 2,
            r is Err ==> r->Err_0 is InvalidData && final(self).read_index == exhausted_index(
                old(self).read_index,
                old(self).data@.len(),
            ),
    {
        let hi = match self.read_u8() {
            Ok(v) => v as u16,
            Err(e) => return Err(e),
        };
        let lo = match self.read_u8() {
            Ok(v) => v as u16,
            Err(e) => return Err(e),
        };
        let r = hi << 8 | lo;
        proof {
            lemma_join16(hi, lo);
        }
        Ok(r)
    }

    pub fn read_u32(&mut self) -> (r: Result<u32, SaveStateError>)
        ensures
            final(self).data == old(self).data,
            r is Ok <==> old(self).read_index + 4 <= old(self).data@.len(),
            r is Ok ==> r->Ok_0 == be_u32_at(old(self).data@, old(self).read_index as int)
                && final(self).read_index == old(self).read_index + 4,
            r is Err ==> r->Err_0 is InvalidData && final(self).read_index == exhausted_index(
                old(self).read_index,
                old(self).data@.len(),
            ),
    {
        let hi = match self.read_u16() {
            Ok(v) => v as u32,
            Err(e) => return Err(e),
        };
        let lo = match self.read_u16() {
            Ok(v) => v as u32,
            Err(e) => return Err(e),
        };
        let r = hi << 16 | lo;
        proof {
            lemma_join32(hi, lo);
        }
        Ok(r)
    }

    pub fn read_u64(&mut self) -> (r: Result<u64, SaveStateError>)
        ensures
            final(self).data == old(self).data,
            r is Ok <==> old(self).read_index + 8 <= old(self).data@.len(),
            r is Ok ==> r->Ok_0 == be_u64_at(old(self).data@, old(self).read_index as int)
                && final(self).read_index == old(self).read_index + 8,
            r is Err ==> r->Err_0 is InvalidData && final(self).read_index == exhausted_index(
                old(self).read_index,
                old(self).data@.len(),
            ),
    {
        let hi = match self.read_u32() {
            Ok(v) => v as u64,
            Err(e) => return Err(e),
        };
        let lo = match self.read_u32() {
            Ok(v) => v as u64,
            Err(e) => return Err(e),
        };
        let r = hi << 32 | lo;
        proof {
            lemma_join64(hi, lo);
        }
        Ok(r)
    }

    /// Writes each value in turn, big-endian.
    pub fn write_u32_slice(&mut self, data: &[u32])
        ensures
            final(self).data@ == old(self).data@ + u32s_be_bytes(data@),
            final(self).read_index == old(self).read_index,
    {
        let mut i: usize = 0;
        while i < data.len()
            invariant
                i <= data@.len(),
                self.data@ == old(self).data@ + u32s_be_bytes(data@.take(i as int)),
                self.read_index == old(self).read_index,
            decreases data@.len() - i,
        {
            self.write_u32(data[i]);
            assert(data@.take(i + 1).drop_last() == data@.take(i as int));
            i += 1;
        }
        assert(data@.take(data@.len() as int) == data@);
    }

    /// Reads as many big-endian 32-bit values as `dst` holds, all of them or,
    /// when the data runs short, none.
    pub fn read_u32_slice(&mut self, dst: &mut [u32]) -> (r: Result<(), SaveStateError>)
        ensures
            final(self).data == old(self).data,
            r is Ok <==> old(self).read_index + 4 * old(dst)@.len() <= old(self).data@.len(),
            r is Ok ==> final(dst)@ == Seq::new(
                old(dst)@.len(),
                |k: int| be_u32_at(old(self).data@, old(self).read_index + 4 * k),
            ) && final(self).read_index == old(self).read_index + 4 * old(dst)@.len(),
            r is Err ==> r->Err_0 is InvalidData && final(dst)@ == old(dst)@
                && final(self).read_index == old(self).read_index,
    {
        if self.read_index > self.data.len() || dst.len() > (self.data.len() - self.read_index) / 4 {
            return Err(SaveStateError::InvalidData);
        }
        let ghost start = self.read_index;
        let mut i: usize = 0;
        while i < dst.len()
            invariant
                i <= dst@.len(),
                dst@.len() == old(dst)@.len(),
                start == old(self).read_index,
                start + 4 * dst@.len() <= self.data@.len(),
                self.data == old(self).data,
                self.read_index == start + 4 * i,
                forall|k: int| 0 <= k < i ==> dst@[k] == be_u32_at(self.data@, start + 4 * k),
            decreases dst@.len() - i,
        {
            let v = match self.read_u32() {
                Ok(v) => v,
                Err(e) => return Err(e),
            };
            dst[i] = v;
            i += 1;
        }
        assert(dst@ == Seq::new(
            old(dst)@.len(),
            |k: int| be_u32_at(old(self).data@, old(self).read_index + 4 * k),
        ));
        Ok(())
    }
}

/// Big-endian bytes of a sequence of 32-bit values, one after the other.
pub open spec fn u32s_be_bytes(s: Seq<u32>) -> Seq<u8>
    decreases s.len(),
{
    if s.len() == 0 {
        Seq::empty()
    } else {
        u32s_be_bytes(s.drop_last()) + u32_be_bytes(s.last())
    }
}

/// Where the cursor stands after a read that ran out of data: any bytes
/// that were left have been consumed.
pub open spec fn exhausted_index(read_index: usize, len: nat) -> usize {
    if read_index < len {
        len as usize
    } else {
        read_index
    }
}

} // verus!

verus! {

// ---------------------------------------------------------------------------
// Sections
// ---------------------------------------------------------------------------

/// A named node of the save-state tree: a byte buffer of its own and an
/// ordered list of child sections.
pub struct Section {
    pub name: String,
    pub data: ByteBuffer,
    pub children: Vec<Section>,
}

/// What a section holds, as it is encoded: its name, its bytes and its
/// children (the read cursor of its buffer is not part of it).
pub struct SectionView {
    pub name: Seq<char>,
    pub data: Seq<u8>,
    pub children: Seq<SectionView>,
}

impl Section {
    pub open spec fn view(self) -> SectionView
        decreases self,
    {
        SectionView {
            name: self.name@,
            data: self.data.data@,
            children: section_views(self.children@),
        }
    }
}

pub open spec fn section_views(cs: Seq<Section>) -> Seq<SectionView>
    decreases cs,
{
    if cs.len() == 0 {
        seq![]
    } else {
        seq![cs[0].view()] + section_views(cs.drop_first())
    }
}

/// The encoding of a section: its name in UTF-8, a zero byte, the size of
/// its data as a little-endian 32-bit number, the number of its children as
/// one byte, its data, then the encodings of its children in order.
pub open spec fn encode_view(v: SectionView) -> Seq<u8>
    decreases v,
{
    encode_utf8(v.name) + seq![0u8] + u32_le_bytes((v.data.len() % 0x1_0000_0000) as u32) + seq![
        (v.children.len() % 256) as u8,
    ] + v.data + encode_views(v.children)
}

pub open spec fn encode_views(cs: Seq<SectionView>) -> Seq<u8>
    decreases cs,
{
    if cs.len() == 0 {
        seq![]
    } else {
        encode_view(cs[0]) + encode_views(cs.drop_first())
    }
}

/// The size, in bytes, of the encoding of a section.
pub open spec fn view_size(v: SectionView) -> nat
    decreases v,
{
    encode_utf8(v.name).len() + 6 + v.data.len() + views_size(v.children)
}

pub open spec fn views_size(cs: Seq<SectionView>) -> nat
    decreases cs,
{
    if cs.len() == 0 {
        0
    } else {
        view_size(cs[0]) + views_size(cs.drop_first())
    }
}

/// A section tree that its encoding describes faithfully: names hold no
/// zero character, no section has more than 255 children and no data
/// block reaches 4 GiB.
pub open spec fn encodable(v: SectionView) -> bool
    decreases v,
{
    &&& !v.name.contains('\0')
    &&& v.children.len() < 256
    &&& v.data.len() < 0x1_0000_0000
    &&& all_encodable(v.children)
}

pub open spec fn all_encodable(cs: Seq<SectionView>) -> bool
    decreases cs,
{
    cs.len() == 0 || (encodable(cs[0]) && all_encodable(cs.drop_first()))
}

/// The name that `String::from_utf8_lossy` makes of the given bytes; where
/// they are valid UTF-8 it is their decoding.
pub uninterp spec fn utf8_lossy(bytes: Seq<u8>) -> Seq<char>;

pub open spec fn lossy_name(bytes: Seq<u8>) -> Seq<char> {
    if valid_utf8(bytes) {
        decode_utf8(bytes)
    } else {
        utf8_lossy(bytes)
    }
}

/// `String::from_utf8_lossy`: decodes UTF-8, replacing invalid sequences.
#[verifier::external_body]
pub(crate) fn string_from_utf8_lossy(bytes: &[u8]) -> (s: String)
    ensures
        valid_utf8(bytes@) ==> s@ == decode_utf8(bytes@),
        !valid_utf8(bytes@) ==> s@ == utf8_lossy(bytes@),
{
    String::from_utf8_lossy(bytes).into_owned()
}

/// The index of the first zero byte at or after `i`.
pub open spec fn first_zero_from(b: Seq<u8>, i: int) -> Option<int>
    decreases b.len() - i,
{
    if i < 0 || i >= b.len() {
        None
    } else if b[i] == 0 {
        Some(i)
    } else {
        first_zero_from(b, i + 1)
    }
}

/// The section that decoding reads from the start of `b`, following the
/// steps of `Section::decode`; `None` where those steps would index out of
/// the buffer.
pub open spec fn parse_section(b: Seq<u8>) -> Option<SectionView>
    decreases b.len(), 0nat, 0nat,
{
    match first_zero_from(b, 0) {
        None => None,
        Some(k) => {
            let off = k + 1;
            if k < 0 || off + 5 > b.len() {
                None
            } else {
                let size = le_u32_at(b, off);
                let n = b[off + 4];
                let start = off + 5;
                if start + size > b.len() {
                    None
                } else {
                    match parse_children(b.subrange(start + size, b.len() as int), n as nat) {
                        None => None,
                        Some(cs) => Some(
                            SectionView {
                                name: lossy_name(b.subrange(0, k)),
                                data: b.subrange(start, start + size),
                                children: cs,
                            },
                        ),
                    }
                }
            }
        },
    }
}

/// `n` sections read one after the other from the start of `b`, each
/// starting where the size of the previous one says it ends.
pub open spec fn parse_children(b: Seq<u8>, n: nat) -> Option<Seq<SectionView>>
    decreases b.len(), 1nat, n,
{
    if n == 0 {
        Some(seq![])
    } else {
        match parse_section(b) {
            None => None,
            Some(c) => {
                if n == 1 {
                    Some(seq![c])
                } else {
                    let sz = view_size(c);
                    if sz > b.len() {
                        None
                    } else {
                        match parse_children(b.subrange(sz as int, b.len() as int), (n - 1) as nat) {
                            None => None,
                            Some(rest) => Some(seq![c] + rest),
                        }
                    }
                }
            },
        }
    }
}

/// `s` or one of its descendants is named `name`.
pub open spec fn contains_named(s: Section, name: Seq<char>) -> bool
    decreases s,
{
    s.name@ == name || any_contains_named(s.children@, name)
}

/// One of the sections of `cs`, or one of their descendants, is named `name`.
pub open spec fn any_contains_named(cs: Seq<Section>, name: Seq<char>) -> bool
    decreases cs,
{
    cs.len() > 0 && (contains_named(cs[0], name) || any_contains_named(cs.drop_first(), name))
}

proof fn lemma_any_contains_named(cs: Seq<Section>, name: Seq<char>)
    ensures
        any_contains_named(cs, name) <==> exists|i: int|
            0 <= i < cs.len() && #[trigger] contains_named(cs[i], name),
    decreases cs.len(),
{
    if cs.len() > 0 {
        let rest = cs.drop_first();
        lemma_any_contains_named(rest, name);
        if contains_named(cs[0], name) {
            assert(any_contains_named(cs, name));
        } else if any_contains_named(rest, name) {
            let i = choose|i: int| 0 <= i < rest.len() && #[trigger] contains_named(rest[i], name);
            assert(rest[i] == cs[i + 1]);
            assert(contains_named(cs[i + 1], name));
        } else {
            assert forall|i: int| 0 <= i < cs.len() implies !#[trigger] contains_named(cs[i], name) by {
                if i > 0 {
                    assert(rest[i - 1] == cs[i]);
                    assert(!contains_named(rest[i - 1], name));
                }
            }
        }
    }
}

/// `i` is the first child whose subtree holds a section named `name`.
pub open spec fn is_first_match(cs: Seq<Section>, name: Seq<char>, i: int) -> bool {
    &&& 0 <= i < cs.len()
    &&& contains_named(cs[i], name)
    &&& forall|j: int| 0 <= j < i ==> !#[trigger] contains_named(cs[j], name)
}

pub open spec fn first_match(cs: Seq<Section>, name: Seq<char>) -> int {
    choose|i: int| is_first_match(cs, name, i)
}

/// The section that a depth-first, parent-before-children search for
/// `name` reaches first.
pub open spec fn found(s: Section, name: Seq<char>) -> Section
    decreases s,
{
    if s.name@ == name {
        s
    } else {
        let i = first_match(s.children@, name);
        if 0 <= i < s.children@.len() {
            found(s.children@[i], name)
        } else {
            s
        }
    }
}

/// `new` is `old` with the section that the search for `name` reaches
/// replaced by `leaf`.
pub open spec fn replaced(old: Section, new: Section, name: Seq<char>, leaf: Section) -> bool
    decreases old,
{
    if old.name@ == name {
        new == leaf
    } else {
        let i = first_match(old.children@, name);
        if 0 <= i < old.children@.len() {
            &&& new.name == old.name
            &&& new.data == old.data
            &&& new.children@.len() == old.children@.len()
            &&& forall|j: int|
                0 <= j < old.children@.len() && j != i ==> new.children@[j] == old.children@[j]
            &&& replaced(old.children@[i], new.children@[i], name, leaf)
        } else {
            new == old
        }
    }
}

proof fn lemma_first_match_unique(cs: Seq<Section>, name: Seq<char>, i: int)
    requires
        is_first_match(cs, name, i),
    ensures
        first_match(cs, name) == i,
{
    let k = first_match(cs, name);
    assert(is_first_match(cs, name, k));
    if k < i {
        assert(!contains_named(cs[k], name));
    } else if i < k {
        assert(!contains_named(cs[i], name));
    }
}

/// Compares two strings character by character through their UTF-8 bytes.
fn str_eq(a: &str, b: &str) -> (r: bool)
    ensures
        r == (a@ == b@),
{
    let ab = a.as_bytes();
    let bb = b.as_bytes();
    assert(ab@ == encode_utf8(a@));
    assert(bb@ == encode_utf8(b@));
    proof {
        vstd::utf8::encode_utf8_decode_utf8(a@);
        vstd::utf8::encode_utf8_decode_utf8(b@);
    }
    if ab.len() != bb.len() {
        assert(ab@ != bb@);
        return false;
    }
    let mut i: usize = 0;
    while i < ab.len()
        invariant
            ab@ == encode_utf8(a@),
            bb@ == encode_utf8(b@),
            ab@.len() == bb@.len(),
            i <= ab@.len(),
            forall|j: int| 0 <= j < i ==> ab@[j] == bb@[j],
        decreases ab@.len() - i,
    {
        if ab[i] != bb[i] {
            assert(ab@[i as int] != bb@[i as int]);
            assert(ab@ != bb@);
            return false;
        }
        i += 1;
    }
    assert(ab@ == bb@);
    true
}

} // verus!

verus! {

proof fn lemma_section_views(cs: Seq<Section>)
    ensures
        section_views(cs).len() == cs.len(),
        forall|i: int| 0 <= i < cs.len() ==> #[trigger] section_views(cs)[i] == cs[i].view(),
    decreases cs.len(),
{
    if cs.len() > 0 {
        lemma_section_views(cs.drop_first());
        assert forall|i: int| 0 <= i < cs.len() implies #[trigger] section_views(cs)[i]
            == cs[i].view() by {
            if i > 0 {
                assert(cs.drop_first()[i - 1] == cs[i]);
            }
        }
    }
}

proof fn lemma_encode_views_push(vs: Seq<SectionView>, v: SectionView)
    ensures
        encode_views(vs.push(v)) == encode_views(vs) + encode_view(v),
        views_size(vs.push(v)) == views_size(vs) + view_size(v),
    decreases vs.len(),
{
    if vs.len() == 0 {
        assert(vs.push(v).drop_first() == Seq::<SectionView>::empty());
        assert(encode_views(vs.push(v)) == encode_view(v) + encode_views(seq![]));
        assert(views_size(vs.push(v)) == view_size(v) + views_size(seq![]));
    } else {
        lemma_encode_views_push(vs.drop_first(), v);
        assert(vs.push(v).drop_first() == vs.drop_first().push(v));
        assert(encode_views(vs.push(v)) == encode_view(vs[0]) + encode_views(vs.drop_first().push(v)));
        assert(views_size(vs.push(v)) == view_size(vs[0]) + views_size(vs.drop_first().push(v)));
    }
}

proof fn lemma_views_take_push(cs: Seq<Section>, i: int)
    requires
        0 <= i < cs.len(),
    ensures
        section_views(cs.take(i + 1)) == section_views(cs.take(i)).push(cs[i].view()),
{
    lemma_section_views(cs.take(i + 1));
    lemma_section_views(cs.take(i));
    assert(section_views(cs.take(i + 1)) =~= section_views(cs.take(i)).push(cs[i].view()));
}

/// The encoding of a section is exactly `view_size` bytes long.
pub proof fn lemma_encode_len(v: SectionView)
    ensures
        encode_view(v).len() == view_size(v),
    decreases v,
{
    lemma_encode_views_len(v.children);
}

pub proof fn lemma_encode_views_len(cs: Seq<SectionView>)
    ensures
        encode_views(cs).len() == views_size(cs),
    decreases cs,
{
    if cs.len() > 0 {
        lemma_encode_len(cs[0]);
        lemma_encode_views_len(cs.drop_first());
    }
}

impl Section {
    pub fn new(name: &str) -> (s: Section)
        requires
            !name@.contains('\0'),
        ensures
            s.name@ == name@,
            s.data.data@ == Seq::<u8>::empty(),
            s.data.read_index == 0,
            s.children@ == Seq::<Section>::empty(),
    {
        Section { name: name.to_owned(), data: ByteBuffer::new(), children: Vec::new() }
    }

    /// Appends the encoding of this section, and of its children, to `buffer`.
    pub fn encode_into(&self, buffer: &mut Vec<u8>)
        ensures
            final(buffer)@ == old(buffer)@ + encode_view(self.view()),
        decreases self,
    {
        let ghost start = buffer@;
        let name_bytes = self.name.as_str().as_bytes();
        let mut i: usize = 0;
        while i < name_bytes.len()
            invariant
                i <= name_bytes@.len(),
                buffer@ == start + name_bytes@.subrange(0, i as int),
            decreases name_bytes@.len() - i,
        {
            buffer.push(name_bytes[i]);
            assert(name_bytes@.subrange(0, i + 1) == name_bytes@.subrange(0, i as int).push(
                name_bytes@[i as int],
            ));
            i += 1;
        }
        assert(name_bytes@.subrange(0, name_bytes@.len() as int) == name_bytes@);
        buffer.push(0);
        let len = self.data.data.len();
        let size = len as u32;
        let len64 = len as u64;
        let ghost n8 = len as u8;
        proof {
            lemma_usize_casts(len, n8, size, len64);
        }
        let b0 = (size & 0xff) as u8;
        let b1 = ((size >> 8) & 0xff) as u8;
        let b2 = ((size >> 16) & 0xff) as u8;
        let b3 = (size >> 24) as u8;
        proof {
            lemma_u32_bits(size);
        }
        buffer.push(b0);
        buffer.push(b1);
        buffer.push(b2);
        buffer.push(b3);
        let nchildren = self.children.len();
        let count = nchildren as u8;
        proof {
            let n32 = nchildren as u32;
            let n64 = nchildren as u64;
            lemma_usize_casts(nchildren, count, n32, n64);
            lemma_u64_bits(n64);
        }
        buffer.push(count);
        let mut j: usize = 0;
        while j < self.data.data.len()
            invariant
                j <= self.data.data@.len(),
                buffer@ == start + encode_utf8(self.name@) + seq![0u8] + u32_le_bytes(size)
                    + seq![count] + self.data.data@.subrange(0, j as int),
            decreases self.data.data@.len() - j,
        {
            buffer.push(self.data.data[j]);
            assert(self.data.data@.subrange(0, j + 1) == self.data.data@.subrange(
                0,
                j as int,
            ).push(self.data.data@[j as int]));
            j += 1;
        }
        assert(self.data.data@.subrange(0, self.data.data@.len() as int) == self.data.data@);
        let ghost header = start + encode_utf8(self.name@) + seq![0u8] + u32_le_bytes(size)
            + seq![count] + self.data.data@;
        proof {
            lemma_section_views(self.children@);
        }
        let mut k: usize = 0;
        while k < self.children.len()
            invariant
                k <= self.children@.len(),
                buffer@ == header + encode_views(section_views(self.children@.take(k as int))),
            decreases self.children@.len() - k,
        {
            proof {
                lemma_views_take_push(self.children@, k as int);
                lemma_encode_views_push(
                    section_views(self.children@.take(k as int)),
                    self.children@[k as int].view(),
                );
            }
            self.children[k].encode_into(buffer);
            k += 1;
        }
        assert(self.children@.take(self.children@.len() as int) == self.children@);
        assert(buffer@ == old(buffer)@ + encode_view(self.view()));
    }

    pub fn add_child(&mut self, child: Section)
        ensures
            final(self).name == old(self).name,
            final(self).data == old(self).data,
            final(self).children@ == old(self).children@.push(child),
    {
        self.children.push(child);
    }

    /// Appends a new, empty child named `name` and hands it out.
    pub fn create_child(&mut self, name: &str) -> (child: &mut Section)
        requires
            !name@.contains('\0'),
        ensures
            child.name@ == name@,
            child.data.data@ == Seq::<u8>::empty(),
            child.data.read_index == 0,
            child.children@ == Seq::<Section>::empty(),
            final(self).name == old(self).name,
            final(self).data == old(self).data,
            final(self).children@ == old(self).children@.push(*final(child)),
    {
        let child = Section::new(name);
        self.add_child(child);
        let n = self.children.len();
        &mut self.children[n - 1]
    }

    /// Whether this section, or a descendant, is named `name`.
    pub fn contains_name(&self, name: &str) -> (b: bool)
        ensures
            b == contains_named(*self, name@),
        decreases self,
    {
        proof {
            lemma_any_contains_named(self.children@, name@);
        }
        if str_eq(self.name.as_str(), name) {
            return true;
        }
        let mut i: usize = 0;
        while i < self.children.len()
            invariant
                i <= self.children@.len(),
                self.name@ != name@,
                any_contains_named(self.children@, name@) <==> exists|j: int|
                    0 <= j < self.children@.len() && #[trigger] contains_named(self.children@[j], name@),
                forall|j: int| 0 <= j < i ==> !#[trigger] contains_named(self.children@[j], name@),
            decreases self.children@.len() - i,
        {
            if self.children[i].contains_name(name) {
                assert(contains_named(self.children@[i as int], name@));
                return true;
            }
            i += 1;
        }
        false
    }

    /// Looks up, depth-first and parents before children, the first section
    /// named `name`, this one included.
    pub fn get(&mut self, name: &str) -> (r: Result<&mut Section, SaveStateError>)
        ensures
            r is Ok <==> contains_named(*old(self), name@),
            r matches Ok(s) ==> *s == found(*old(self), name@) && replaced(
                *old(self),
                *final(self),
                name@,
                *final(s),
            ),
            r matches Err(e) ==> e matches SaveStateError::MissingSection(n) && n@ == name@
                && *final(self) == *old(self),
    {
        if self.contains_name(name) {
            Ok(self.get_child_aux(name))
        } else {
            Err(SaveStateError::MissingSection(name.to_owned()))
        }
    }

    fn get_child_aux(&mut self, name: &str) -> (r: &mut Section)
        requires
            contains_named(*old(self), name@),
        ensures
            *r == found(*old(self), name@),
            replaced(*old(self), *final(self), name@, *final(r)),
        decreases *old(self),
    {
        proof {
            lemma_any_contains_named(self.children@, name@);
        }
        if str_eq(self.name.as_str(), name) {
            return self;
        }
        let mut i: usize = 0;
        while i < self.children.len()
            invariant
                i <= self.children@.len(),
                *self == *old(self),
                self.name@ != name@,
                contains_named(*self, name@),
                any_contains_named(self.children@, name@) <==> exists|j: int|
                    0 <= j < self.children@.len() && #[trigger] contains_named(self.children@[j], name@),
                forall|j: int| 0 <= j < i ==> !#[trigger] contains_named(self.children@[j], name@),
            decreases self.children@.len() - i,
        {
            if self.children[i].contains_name(name) {
                proof {
                    lemma_first_match_unique(self.children@, name@, i as int);
                }
                assert(decreases_to!(*old(self) => old(self).children@[i as int]));
                let child = &mut self.children[i];
                let r = child.get_child_aux(name);
                return r;
            }
            i += 1;
        }
        proof {
            let w = choose|j: int|
                0 <= j < self.children@.len() && #[trigger] contains_named(self.children@[j], name@);
            assert(contains_named(self.children@[w], name@));
        }
        self
    }

    /// in bytes
    pub fn size(&self) -> (n: usize)
        requires
            view_size(self.view()) <= usize::MAX,
        ensures
            n == view_size(self.view()),
        decreases self,
    {
        proof {
            lemma_section_views(self.children@);
            vstd::seq::Seq::<u8>::empty();
        }
        let mut total = self.name.as_str().len() + 1 + 4 + 1 + self.data.size();
        let mut i: usize = 0;
        while i < self.children.len()
            invariant
                i <= self.children@.len(),
                view_size(self.view()) <= usize::MAX,
                section_views(self.children@).len() == self.children@.len(),
                forall|j: int| 0 <= j < self.children@.len() ==> #[trigger] section_views(self.children@)[j] == self.children@[j].view(),
                total == encode_utf8(self.name@).len() + 6 + self.data.data@.len() + views_size(
                    section_views(self.children@.take(i as int)),
                ),
            decreases self.children@.len() - i,
        {
            proof {
                lemma_views_take_push(self.children@, i as int);
                lemma_encode_views_push(
                    section_views(self.children@.take(i as int)),
                    self.children@[i as int].view(),
                );
                lemma_views_size_prefix(section_views(self.children@), i as int + 1);
                assert(section_views(self.children@.take(i + 1)) == section_views(self.children@).take(i + 1)) by {
                    lemma_section_views(self.children@.take(i + 1));
                    assert(section_views(self.children@.take(i + 1)) =~= section_views(self.children@).take(i + 1));
                }
                assert(view_size(self.children@[i as int].view()) <= views_size(section_views(self.children@).take(i + 1)));
            }
            total = total + self.children[i].size();
            i += 1;
        }
        assert(self.children@.take(self.children@.len() as int) == self.children@);
        total
    }
}

/// A prefix of a list of sections is no larger than the whole list.
proof fn lemma_views_size_prefix(cs: Seq<SectionView>, i: int)
    requires
        0 <= i <= cs.len(),
    ensures
        views_size(cs.take(i)) <= views_size(cs),
        i > 0 ==> views_size(cs.take(i - 1)) + view_size(cs[i - 1]) == views_size(cs.take(i)),
    decreases cs.len() - i,
{
    if i > 0 {
        lemma_encode_views_push(cs.take(i - 1), cs[i - 1]);
        assert(cs.take(i - 1).push(cs[i - 1]) == cs.take(i));
    }
    if i < cs.len() {
        lemma_views_size_prefix(cs, i + 1);
        lemma_encode_views_push(cs.take(i), cs[i]);
        assert(cs.take(i).push(cs[i]) == cs.take(i + 1));
    } else {
        assert(cs.take(i) == cs);
    }
}

} // verus!

verus! {

/// Every buffer in the tree has its cursor at the start.
pub open spec fn at_start(s: Section) -> bool
    decreases s,
{
    s.data.read_index == 0 && all_at_start(s.children@)
}

pub open spec fn all_at_start(cs: Seq<Section>) -> bool
    decreases cs,
{
    cs.len() == 0 || (at_start(cs[0]) && all_at_start(cs.drop_first()))
}

proof fn lemma_all_at_start(cs: Seq<Section>)
    requires
        forall|j: int| 0 <= j < cs.len() ==> #[trigger] at_start(cs[j]),
    ensures
        all_at_start(cs),
    decreases cs.len(),
{
    if cs.len() > 0 {
        assert forall|j: int| 0 <= j < cs.drop_first().len() implies #[trigger] at_start(
            cs.drop_first()[j],
        ) by {
            assert(cs.drop_first()[j] == cs[j + 1]);
        }
        lemma_all_at_start(cs.drop_first());
        assert(at_start(cs[0]));
    }
}

proof fn lemma_first_zero(b: Seq<u8>, i: int, k: int)
    requires
        0 <= i <= k < b.len(),
        b[k] == 0,
        forall|j: int| 0 <= j < k ==> b[j] != 0,
    ensures
        first_zero_from(b, i) == Some(k),
    decreases k - i,
{
    if i < k {
        lemma_first_zero(b, i + 1, k);
    }
}

/// Unfolds one step of `parse_children`.
proof fn lemma_parse_children_step(b: Seq<u8>, n: nat)
    requires
        n > 0,
        parse_children(b, n) is Some,
    ensures
        parse_section(b) is Some,
        parse_children(b, n)->Some_0.len() == n,
        parse_children(b, n)->Some_0[0] == parse_section(b)->Some_0,
        n > 1 ==> view_size(parse_section(b)->Some_0) <= b.len() && parse_children(
            b.subrange(view_size(parse_section(b)->Some_0) as int, b.len() as int),
            (n - 1) as nat,
        ) == Some(parse_children(b, n)->Some_0.drop_first()),
    decreases n,
{
    let c = parse_section(b)->Some_0;
    if n > 1 {
        let sub = b.subrange(view_size(c) as int, b.len() as int);
        let rest = parse_children(sub, (n - 1) as nat)->Some_0;
        if n > 2 {
            lemma_parse_children_step(sub, (n - 1) as nat);
        } else {
            assert(rest.len() == 1);
        }
        assert((seq![c] + rest).drop_first() == rest);
    }
}

impl Section {
    /// Reads a section, and its children, from the start of `buffer`.
    pub fn decode(buffer: &[u8]) -> (s: Section)
        requires
            parse_section(buffer@) is Some,
            buffer@.len() + view_size(parse_section(buffer@)->Some_0) <= usize::MAX,
        ensures
            s.view() == parse_section(buffer@)->Some_0,
            at_start(s),
        decreases buffer@.len(),
    {
        let ghost b = buffer@;
        let ghost parsed = parse_section(b)->Some_0;
        let mut name_len: usize = 0;
        while name_len < buffer.len() && buffer[name_len] != 0
            invariant
                name_len <= b.len(),
                b == buffer@,
                forall|j: int| 0 <= j < name_len ==> b[j] != 0,
            decreases b.len() - name_len,
        {
            name_len += 1;
        }
        proof {
            if name_len == b.len() {
                assert forall|i: int| 0 <= i <= b.len() implies first_zero_from(b, i) is None by {
                    lemma_no_zero(b, i);
                }
                assert(false);
            }
            lemma_first_zero(b, 0, name_len as int);
        }
        let name = string_from_utf8_lossy(vstd::slice::slice_subrange(buffer, 0, name_len));
        let mut offset = name_len + 1;
        let b0 = buffer[offset] as u32;
        let b1 = buffer[offset + 1] as u32;
        let b2 = buffer[offset + 2] as u32;
        let b3 = buffer[offset + 3] as u32;
        let data_size = b0 | b1 << 8 | b2 << 16 | b3 << 24;
        proof {
            lemma_join_le32(b0, b1, b2, b3);
        }
        offset += 4;
        let children_len = buffer[offset];
        offset += 1;
        let data_end = offset + data_size as usize;
        let data = ByteBuffer::from(vstd::slice::slice_subrange(buffer, offset, data_end));
        offset = data_end;
        let ghost full = parsed.children;
        let ghost n = children_len as nat;
        let mut children: Vec<Section> = Vec::new();
        let mut i: u8 = 0;
        proof {
            if n > 0 {
                lemma_parse_children_step(b.subrange(offset as int, b.len() as int), n);
            }
            lemma_encode_len(parsed);
            lemma_views_size_prefix(full, full.len() as int);
            assert(full.skip(0) == full);
        }
        while i < children_len
            invariant
                b == buffer@,
                parsed == parse_section(b)->Some_0,
                full == parsed.children,
                n == children_len,
                full.len() == n,
                i <= n,
                offset >= 6,
                i < n ==> offset <= b.len(),
                b.len() + view_size(parsed) <= usize::MAX,
                view_size(parsed) >= views_size(full),
                section_views(children@) == full.take(i as int),
                forall|j: int| 0 <= j < children@.len() ==> #[trigger] at_start(children@[j]),
                i < n ==> parse_children(b.subrange(offset as int, b.len() as int), (n - i) as nat)
                    == Some(full.skip(i as int)),
            decreases n - i,
        {
            let ghost rest_buf = b.subrange(offset as int, b.len() as int);
            proof {
                lemma_parse_children_step(rest_buf, (n - i) as nat);
                lemma_views_size_prefix(full, i as int + 1);
                lemma_views_size_prefix(full, full.len() as int);
                assert(full.skip(i as int)[0] == full[i as int]);
                lemma_views_size_prefix(full, i as int);
            }
            let child = Section::decode(vstd::slice::slice_subrange(buffer, offset, buffer.len()));
            let child_size = child.size();
            offset = offset + child_size;
            proof {
                lemma_section_views(children@);
                lemma_section_views(children@.push(child));
                assert(section_views(children@.push(child)) =~= full.take(i + 1));
                if i + 1 < n {
                    assert(rest_buf.subrange(child_size as int, rest_buf.len() as int) =~= b.subrange(
                        offset as int,
                        b.len() as int,
                    ));
                    assert(full.skip(i as int).drop_first() =~= full.skip(i + 1));
                }
            }
            children.push(child);
            i += 1;
        }
        proof {
            assert(full.take(n as int) == full);
            lemma_all_at_start(children@);
        }
        Section { name, data, children }
    }
}

proof fn lemma_no_zero(b: Seq<u8>, i: int)
    requires
        0 <= i <= b.len(),
        forall|j: int| 0 <= j < b.len() ==> b[j] != 0,
    ensures
        first_zero_from(b, i) is None,
    decreases b.len() - i,
{
    if i < b.len() {
        lemma_no_zero(b, i + 1);
    }
}

} // verus!

verus! {

proof fn lemma_scalar_no_zero(c: u32)
    requires
        c != 0,
        vstd::utf8::is_scalar(c),
    ensures
        forall|i: int|
            0 <= i < vstd::utf8::encode_scalar(c).len() ==> #[trigger] vstd::utf8::encode_scalar(
                c,
            )[i] != 0,
{
    assert({
        &&& (c != 0 && c <= 0x7F ==> (c & 0x7F) as u8 != 0)
        &&& 0xC0 | ((c >> 6) & 0x1F) as u8 != 0
        &&& 0xE0 | ((c >> 12) & 0x0F) as u8 != 0
        &&& 0xF0 | ((c >> 18) & 0x7) as u8 != 0
        &&& 0x80 | (c & 0x3F) as u8 != 0
        &&& 0x80 | ((c >> 6) & 0x3F) as u8 != 0
        &&& 0x80 | ((c >> 12) & 0x3F) as u8 != 0
    }) by (bit_vector);
}

/// A name without a zero character encodes to bytes without a zero byte.
proof fn lemma_encode_utf8_no_zero(chars: Seq<char>)
    requires
        !chars.contains('\0'),
    ensures
        forall|i: int| 0 <= i < encode_utf8(chars).len() ==> #[trigger] encode_utf8(chars)[i] != 0,
    decreases chars.len(),
{
    if chars.len() > 0 {
        let c = chars[0];
        assert(c != '\0') by {
            if c == '\0' {
                assert(chars.contains('\0'));
            }
        }
        vstd::utf8::char_is_scalar(c);
        vstd::utf8::char_u32_cast(c, c as u32);
        assert((c as u32) != 0) by {
            if (c as u32) == 0 {
                assert(((c as u32) as char) == c);
                assert((0u32 as char) == '\0');
            }
        }
        lemma_scalar_no_zero(c as u32);
        let rest = chars.drop_first();
        assert(!rest.contains('\0')) by {
            if rest.contains('\0') {
                let j = choose|j: int| 0 <= j < rest.len() && rest[j] == '\0';
                assert(chars[j + 1] == '\0');
            }
        }
        lemma_encode_utf8_no_zero(rest);
        let e = vstd::utf8::encode_scalar(c as u32);
        assert forall|i: int| 0 <= i < encode_utf8(chars).len() implies #[trigger] encode_utf8(
            chars,
        )[i] != 0 by {
            if i < e.len() {
                assert(encode_utf8(chars)[i] == e[i]);
            } else {
                assert(encode_utf8(chars)[i] == encode_utf8(rest)[i - e.len()]);
            }
        }
    }
}

/// Decoding the encoding of a section, whatever bytes follow it, gives back
/// the section.
pub proof fn lemma_parse_encode(v: SectionView, rest: Seq<u8>)
    requires
        encodable(v),
    ensures
        parse_section(encode_view(v) + rest) == Some(v),
    decreases v,
{
    let nb = encode_utf8(v.name);
    let size = v.data.len();
    let n = v.children.len();
    let b = encode_view(v) + rest;
    let k = nb.len() as int;
    lemma_encode_utf8_no_zero(v.name);
    vstd::utf8::encode_utf8_valid_utf8(v.name);
    vstd::utf8::encode_utf8_decode_utf8(v.name);
    lemma_le_roundtrip(size as u32);
    let le = u32_le_bytes(size as u32);
    assert(size % 0x1_0000_0000 == size);
    assert(n % 256 == n);
    assert forall|j: int| 0 <= j < k implies b[j] != 0 by {
        assert(b[j] == nb[j]);
    }
    assert(b[k] == 0);
    lemma_first_zero(b, 0, k);
    assert(b.subrange(0, k) =~= nb);
    assert(le_u32_at(b, k + 1) == le_u32_at(le, 0)) by {
        assert(b[k + 1] == le[0]);
        assert(b[k + 2] == le[1]);
        assert(b[k + 3] == le[2]);
        assert(b[k + 4] == le[3]);
    }
    assert(b[k + 5] == n as u8);
    let start = k + 6;
    assert(b.subrange(start, start + size) =~= v.data);
    lemma_encode_views_len(v.children);
    assert(b.subrange(start + size, b.len() as int) =~= encode_views(v.children) + rest);
    lemma_parse_encode_children(v.children, rest);
}

pub proof fn lemma_parse_encode_children(cs: Seq<SectionView>, rest: Seq<u8>)
    requires
        all_encodable(cs),
    ensures
        parse_children(encode_views(cs) + rest, cs.len()) == Some(cs),
    decreases cs,
{
    if cs.len() > 0 {
        let tail = cs.drop_first();
        let after = encode_views(tail) + rest;
        let b = encode_views(cs) + rest;
        assert(b =~= encode_view(cs[0]) + after);
        lemma_parse_encode(cs[0], after);
        if cs.len() == 1 {
            assert(seq![cs[0]] =~= cs);
        } else {
            lemma_encode_len(cs[0]);
            let sz = view_size(cs[0]);
            assert(b.subrange(sz as int, b.len() as int) =~= after);
            lemma_parse_encode_children(tail, rest);
            assert(seq![cs[0]] + tail =~= cs);
        }
    }
}

} // verus!

verus! {

// ---------------------------------------------------------------------------
// Save states
// ---------------------------------------------------------------------------

/// A save state: a header (magic number, format version and the hash of the
/// ROM it belongs to) and a tree of sections.
pub struct SaveState {
    pub header: [u8; HEADER_SIZE],
    pub root: Section,
}

/// The header written for a ROM with the given hash.
pub open spec fn header_for(hash: Seq<u8>) -> Seq<u8> {
    NESSIE@ + seq![NESSIE_SAVE_VERSION] + hash
}

/// The data opens with the magic number.
pub open spec fn has_magic(data: Seq<u8>) -> bool {
    data.len() >= NESSIE_LEN && data.take(NESSIE_LEN as int) == NESSIE@
}

/// The version byte of a header.
pub open spec fn version_of(data: Seq<u8>) -> u8 {
    data[NESSIE_LEN as int]
}

/// The data would be accepted as a save state by its header alone.
pub open spec fn header_accepted(data: Seq<u8>) -> bool {
    has_magic(data) && version_of(data) <= NESSIE_SAVE_VERSION
}

/// Decoding does not index out of bounds: the header is there, and where
/// the header is accepted the root section can be read.
pub open spec fn decodable(data: Seq<u8>) -> bool {
    &&& data.len() >= HEADER_SIZE
    &&& header_accepted(data) ==> {
        let body = data.subrange(HEADER_SIZE as int, data.len() as int);
        &&& parse_section(body) is Some
        &&& body.len() + view_size(parse_section(body)->Some_0) <= usize::MAX
    }
}

impl SaveState {
    pub fn new(cart_rom_hash: &[u8; HASH_SIZE]) -> (s: SaveState)
        ensures
            s.header@ == header_for(cart_rom_hash@),
            s.root.name@ == "root"@,
            s.root.data.data@ == Seq::<u8>::empty(),
            s.root.data.read_index == 0,
            s.root.children@ == Seq::<Section>::empty(),
    {
        let mut header = [0u8; 39];
        let mut i: usize = 0;
        while i < NESSIE_LEN
            invariant
                i <= NESSIE_LEN,
                forall|j: int| 0 <= j < i ==> header@[j] == NESSIE@[j],
                forall|j: int| NESSIE_LEN <= j < HEADER_SIZE ==> header@[j] == 0,
            decreases NESSIE_LEN - i,
        {
            header[i] = NESSIE[i];
            i += 1;
        }
        header[NESSIE_LEN] = NESSIE_SAVE_VERSION;
        let mut j: usize = 0;
        while j < HASH_SIZE
            invariant
                j <= HASH_SIZE,
                forall|k: int| 0 <= k < NESSIE_LEN ==> header@[k] == NESSIE@[k],
                header@[NESSIE_LEN as int] == NESSIE_SAVE_VERSION,
                forall|k: int| 0 <= k < j ==> header@[NESSIE_LEN + VERSION_SIZE + k] == cart_rom_hash@[k],
            decreases HASH_SIZE - j,
        {
            header[NESSIE_LEN + VERSION_SIZE + j] = cart_rom_hash[j];
            j += 1;
        }
        assert(header@ =~= header_for(cart_rom_hash@));
        proof {
            reveal_strlit("root");
        }
        SaveState { header, root: Section::new("root") }
    }

    pub fn get_root_mut(&mut self) -> (root: &mut Section)
        ensures
            *root == old(self).root,
            final(self).root == *final(root),
            final(self).header == old(self).header,
    {
        &mut self.root
    }

    /// Reads a save state: fails on a wrong magic number or on a version
    /// newer than this one.
    pub fn decode(data: &[u8]) -> (r: Result<SaveState, SaveStateError>)
        requires
            decodable(data@),
        ensures
            !has_magic(data@) <==> r matches Err(SaveStateError::InvalidHeader),
            (has_magic(data@) && version_of(data@) > NESSIE_SAVE_VERSION) <==> r matches Err(
                SaveStateError::InvalidVersion(v),
            ),
            r matches Err(SaveStateError::InvalidVersion(v)) ==> v == version_of(data@),
            r is Ok <==> header_accepted(data@),
            r matches Ok(s) ==> s.header@ == data@.take(HEADER_SIZE as int) && s.root.view()
                == parse_section(data@.subrange(HEADER_SIZE as int, data@.len() as int))->Some_0
                && at_start(s.root),
    {
        let mut header = [0u8; 39];
        let mut i: usize = 0;
        while i < HEADER_SIZE
            invariant
                i <= HEADER_SIZE,
                data@.len() >= HEADER_SIZE,
                forall|j: int| 0 <= j < i ==> header@[j] == data@[j],
            decreases HEADER_SIZE - i,
        {
            header[i] = data[i];
            i += 1;
        }
        assert(header@ =~= data@.take(HEADER_SIZE as int));
        let mut k: usize = 0;
        while k < NESSIE_LEN
            invariant
                k <= NESSIE_LEN,
                data@.len() >= HEADER_SIZE,
                header@ == data@.take(HEADER_SIZE as int),
                forall|j: int| 0 <= j < k ==> header@[j] == NESSIE@[j],
            decreases NESSIE_LEN - k,
        {
            if header[k] != NESSIE[k] {
                assert(data@.take(NESSIE_LEN as int)[k as int] != NESSIE@[k as int]);
                return Err(SaveStateError::InvalidHeader);
            }
            k += 1;
        }
        assert(data@.take(NESSIE_LEN as int) =~= NESSIE@);
        let version = header[NESSIE_LEN];
        if version > NESSIE_SAVE_VERSION {
            return Err(SaveStateError::InvalidVersion(version));
        }
        let root = Section::decode(vstd::slice::slice_subrange(data, HEADER_SIZE, data.len()));
        Ok(SaveState { header, root })
    }

    pub fn get_rom_hash(&self) -> (hash: [u8; HASH_SIZE])
        ensures
            hash@ == self.header@.subrange((HEADER_SIZE - HASH_SIZE) as int, HEADER_SIZE as int),
    {
        let mut hash = [0u8; 32];
        let mut i: usize = 0;
        while i < HASH_SIZE
            invariant
                i <= HASH_SIZE,
                forall|j: int| 0 <= j < i ==> hash@[j] == self.header@[HEADER_SIZE - HASH_SIZE + j],
            decreases HASH_SIZE - i,
        {
            hash[i] = self.header[HEADER_SIZE - HASH_SIZE + i];
            i += 1;
        }
        assert(hash@ =~= self.header@.subrange((HEADER_SIZE - HASH_SIZE) as int, HEADER_SIZE as int));
        hash
    }

    /// The header followed by the encoding of the section tree.
    pub fn encode(self) -> (bytes: Vec<u8>)
        ensures
            bytes@ == self.header@ + encode_view(self.root.view()),
    {
        let mut buffer: Vec<u8> = Vec::new();
        let mut i: usize = 0;
        while i < HEADER_SIZE
            invariant
                i <= HEADER_SIZE,
                buffer@ == self.header@.take(i as int),
            decreases HEADER_SIZE - i,
        {
            buffer.push(self.header[i]);
            assert(self.header@.take(i + 1) == self.header@.take(i as int).push(self.header@[i as int]));
            i += 1;
        }
        assert(self.header@.take(HEADER_SIZE as int) == self.header@);
        self.root.encode_into(&mut buffer);
        buffer
    }
}

/// Decoding what `Section::encode_into` appends gives the same section
/// tree back (name, data and children, recursively), whatever bytes follow
/// it: they are ignored. The decoded tree's `size` is the length of the
/// encoding; where the encoded bytes and the tail fit in memory next to that
/// size, `Section::decode` accepts them and `size` can be called on its result.
pub proof fn law_section_decode_encoded(s: Section, tail: Seq<u8>)
    requires
        encodable(s.view()),
    ensures
        parse_section(encode_view(s.view()) + tail) == Some(s.view()),
        view_size(parse_section(encode_view(s.view()) + tail)->Some_0) == encode_view(s.view()).len(),
        (encode_view(s.view()) + tail).len() + encode_view(s.view()).len() <= usize::MAX ==> {
            &&& (encode_view(s.view()) + tail).len() + view_size(
                parse_section(encode_view(s.view()) + tail)->Some_0,
            ) <= usize::MAX
            &&& view_size(parse_section(encode_view(s.view()) + tail)->Some_0) <= usize::MAX
        },
{
    lemma_parse_encode(s.view(), tail);
    lemma_encode_len(s.view());
}

/// A section's size is its name's length in UTF-8, one byte for the
/// terminating zero, four for the data length, one for the child count,
/// its data's length and its children's sizes; `Section::encode_into`
/// appends exactly that many bytes, so where the encoding fits in memory
/// `size` can be called and returns its length.
pub proof fn law_section_size(s: Section)
    ensures
        view_size(s.view()) == encode_utf8(s.view().name).len() + 1 + 4 + 1 + s.view().data.len()
            + views_size(s.view().children),
        encode_view(s.view()).len() == view_size(s.view()),
        encode_view(s.view()).len() <= usize::MAX ==> view_size(s.view()) <= usize::MAX,
{
    lemma_encode_len(s.view());
}

/// A save state made for a ROM reports that ROM's hash.
pub proof fn law_rom_hash_roundtrip(hash: Seq<u8>)
    requires
        hash.len() == HASH_SIZE,
    ensures
        header_for(hash).subrange((HEADER_SIZE - HASH_SIZE) as int, HEADER_SIZE as int) == hash,
{
    assert(header_for(hash).subrange((HEADER_SIZE - HASH_SIZE) as int, HEADER_SIZE as int) =~= hash);
}

/// Decoding what `SaveState::encode` wrote for a state made by
/// `SaveState::new` accepts it and gives back the same header and the same
/// section tree, provided the tree is one that its encoding describes.
pub proof fn law_save_state_roundtrip(hash: Seq<u8>, root: SectionView)
    requires
        hash.len() == HASH_SIZE,
        encodable(root),
    ensures
        ({
            let data = header_for(hash) + encode_view(root);
            &&& header_accepted(data)
            &&& data.take(HEADER_SIZE as int) == header_for(hash)
            &&& parse_section(data.subrange(HEADER_SIZE as int, data.len() as int)) == Some(root)
        }),
{
    let h = header_for(hash);
    let data = h + encode_view(root);
    assert(data.take(NESSIE_LEN as int) =~= NESSIE@);
    assert(data[NESSIE_LEN as int] == NESSIE_SAVE_VERSION);
    assert(data.take(HEADER_SIZE as int) =~= h);
    assert(data.subrange(HEADER_SIZE as int, data.len() as int) =~= encode_view(root) + Seq::<u8>::empty());
    lemma_parse_encode(root, Seq::<u8>::empty());
}

pub proof fn lemma_be_u16_shift(d: Seq<u8>, e: Seq<u8>, n: int, m: int)
    requires
        d[n] == e[m],
        d[n + 1] == e[m + 1],
    ensures
        be_u16_at(d, n) == be_u16_at(e, m),
{
}

pub proof fn lemma_be_u32_shift(d: Seq<u8>, e: Seq<u8>, n: int, m: int)
    requires
        d[n] == e[m],
        d[n + 1] == e[m + 1],
        d[n + 2] == e[m + 2],
        d[n + 3] == e[m + 3],
    ensures
        be_u32_at(d, n) == be_u32_at(e, m),
{
    lemma_be_u16_shift(d, e, n, m);
    lemma_be_u16_shift(d, e, n + 2, m + 2);
}

pub proof fn lemma_be_u64_shift(d: Seq<u8>, e: Seq<u8>, n: int, m: int)
    requires
        d[n] == e[m],
        d[n + 1] == e[m + 1],
        d[n + 2] == e[m + 2],
        d[n + 3] == e[m + 3],
        d[n + 4] == e[m + 4],
        d[n + 5] == e[m + 5],
        d[n + 6] == e[m + 6],
        d[n + 7] == e[m + 7],
    ensures
        be_u64_at(d, n) == be_u64_at(e, m),
{
    lemma_be_u32_shift(d, e, n, m);
    lemma_be_u32_shift(d, e, n + 4, m + 4);
}

/// Bytes written to a buffer are read back, in order, from where its cursor
/// stood.
pub proof fn law_buffer_write_read(data: Seq<u8>, a: u16, b: u32, c: u64)
    ensures
        be_u16_at(data + u16_be_bytes(a), data.len() as int) == a,
        be_u32_at(data + u32_be_bytes(b), data.len() as int) == b,
        be_u64_at(data + u64_be_bytes(c), data.len() as int) == c,
{
    lemma_be_roundtrip(a, b, c);
    let n = data.len() as int;
    lemma_be_u16_shift(data + u16_be_bytes(a), u16_be_bytes(a), n, 0);
    lemma_be_u32_shift(data + u32_be_bytes(b), u32_be_bytes(b), n, 0);
    lemma_be_u64_shift(data + u64_be_bytes(c), u64_be_bytes(c), n, 0);
}


// ---------------------------------------------------------------------------
// What saving and loading a component does to a section tree
// ---------------------------------------------------------------------------

/// `after` is `before` with one more child, last, named `name`: it holds
/// `bytes`, its cursor at the start, and no children of its own.
pub open spec fn child_appended(before: Section, after: Section, name: Seq<char>, bytes: Seq<u8>) -> bool {
    &&& after.name == before.name
    &&& after.data == before.data
    &&& after.children@.len() == before.children@.len() + 1
    &&& after.children@.drop_last() == before.children@
    &&& after.children@.last().name@ == name
    &&& after.children@.last().data.data@ == bytes
    &&& after.children@.last().data.read_index == 0
    &&& after.children@.last().children@.len() == 0
}

/// Section `s` with the cursor of its buffer moved to `idx`.
pub open spec fn moved_to(s: Section, idx: usize) -> Section {
    Section { data: ByteBuffer { data: s.data.data, read_index: idx }, ..s }
}

/// The lookup of the section named `name` failed: the error names it and
/// nothing changed.
pub open spec fn missing(before: Section, name: Seq<char>, r: Result<(), SaveStateError>, after: Section) -> bool {
    &&& r matches Err(SaveStateError::MissingSection(n)) && n@ == name
    &&& after == before
}

/// `n` more bytes can be read from the cursor of section `s`.
pub open spec fn fits(s: Section, n: int) -> bool {
    s.data.read_index + n <= s.data.data@.len()
}

/// The byte `k` places past the cursor of section `s`.
pub open spec fn byte_at(s: Section, k: int) -> u8 {
    s.data.data@[s.data.read_index + k]
}

/// A read of `n` bytes from the cursor of `s`, made of reads of one or two
/// bytes, that ran out of data leaves the cursor at the end of the data.
pub open spec fn cursor_after(s: Section, n: int) -> usize {
    if fits(s, n) {
        (s.data.read_index + n) as usize
    } else {
        exhausted_index(s.data.read_index, s.data.data@.len())
    }
}

/// The load that reads `n` bytes from the section named `name` returned
/// `r` and moved that section's cursor to `idx`, all found in `before`.
pub open spec fn read_from(
    before: Section,
    name: Seq<char>,
    n: int,
    r: Result<(), SaveStateError>,
    after: Section,
    idx: usize,
) -> bool {
    let s = found(before, name);
    &&& (r is Ok <==> fits(s, n))
    &&& r is Err ==> r->Err_0 is InvalidData
    &&& replaced(before, after, name, moved_to(s, idx))
}


/// A section appended under a parent that held no section of its name is
/// the one a lookup of that name finds.
pub proof fn lemma_found_appended(before: Section, after: Section, name: Seq<char>, bytes: Seq<u8>)
    requires
        child_appended(before, after, name, bytes),
        !contains_named(before, name),
    ensures
        contains_named(after, name),
        found(after, name) == after.children@.last(),
{
    let cs = after.children@;
    let n = before.children@.len() as int;
    lemma_any_contains_named(before.children@, name);
    lemma_any_contains_named(cs, name);
    assert(cs[n] == cs.last());
    assert(contains_named(cs[n], name));
    assert forall|j: int| 0 <= j < n implies !#[trigger] contains_named(cs[j], name) by {
        assert(cs.drop_last()[j] == cs[j]);
        assert(before.children@[j] == cs[j]);
    }
    assert(is_first_match(cs, name, n));
    lemma_first_match_unique(cs, name, n);
    assert(after.name@ != name);
    assert(found(cs[n], name) == cs[n]);
    assert(found(after, name) == found(cs[n], name));
}

/// A 16-bit value written among other bytes reads back from its place.
pub proof fn lemma_read_back_u16(pre: Seq<u8>, x: u16, post: Seq<u8>)
    ensures
        be_u16_at(pre + u16_be_bytes(x) + post, pre.len() as int) == x,
{
    lemma_be_roundtrip(x, 0, 0);
    lemma_be_u16_shift(pre + u16_be_bytes(x) + post, u16_be_bytes(x), pre.len() as int, 0);
}

/// A 32-bit value written among other bytes reads back from its place.
pub proof fn lemma_read_back_u32(pre: Seq<u8>, x: u32, post: Seq<u8>)
    ensures
        be_u32_at(pre + u32_be_bytes(x) + post, pre.len() as int) == x,
{
    lemma_be_roundtrip(0, x, 0);
    lemma_be_u32_shift(pre + u32_be_bytes(x) + post, u32_be_bytes(x), pre.len() as int, 0);
}

/// `after` is `before` with `bytes` written at the end of its own buffer.
pub open spec fn data_appended(before: Section, after: Section, bytes: Seq<u8>) -> bool {
    &&& after.name == before.name
    &&& after.children == before.children
    &&& after.data.data@ == before.data.data@ + bytes
    &&& after.data.read_index == before.data.read_index
}

/// A load that reads `n` bytes from the section's own buffer returned `r`
/// and left the cursor where reads of one or two bytes leave it.
pub open spec fn read_here(before: Section, n: int, r: Result<(), SaveStateError>, after: Section) -> bool {
    &&& (r is Ok <==> fits(before, n))
    &&& r is Err ==> r->Err_0 is InvalidData
    &&& after == moved_to(before, cursor_after(before, n))
}


/// 32-bit values written one after the other among other bytes read back
/// from their places.
pub proof fn lemma_read_back_u32s(pre: Seq<u8>, s: Seq<u32>, post: Seq<u8>)
    ensures
        u32s_be_bytes(s).len() == 4 * s.len(),
        forall|k: int|
            0 <= k < s.len() ==> #[trigger] be_u32_at(
                pre + u32s_be_bytes(s) + post,
                pre.len() + 4 * k,
            ) == s[k],
    decreases s.len(),
{
    if s.len() > 0 {
        let dl = s.drop_last();
        let tail = u32_be_bytes(s.last());
        lemma_read_back_u32s(pre, dl, tail + post);
        lemma_read_back_u32(pre + u32s_be_bytes(dl), s.last(), post);
        assert(pre + u32s_be_bytes(s) + post == pre + u32s_be_bytes(dl) + (tail + post));
        assert(pre + u32s_be_bytes(s) + post == pre + u32s_be_bytes(dl) + tail + post);
        assert forall|k: int| 0 <= k < s.len() implies #[trigger] be_u32_at(
            pre + u32s_be_bytes(s) + post,
            pre.len() + 4 * k,
        ) == s[k] by {
            if k < s.len() - 1 {
                assert(dl[k] == s[k]);
                assert(be_u32_at(pre + u32s_be_bytes(dl) + (tail + post), pre.len() + 4 * k) == dl[k]);
            }
        }
    }
}


/// `after` is `before` once each of `vals` has been saved into it, in order.
pub open spec fn saved_all<T: Save>(vals: Seq<T>, before: Section, after: Section) -> bool
    decreases vals.len(),
{
    if vals.len() == 0 {
        after == before
    } else {
        exists|mid: Section| saved_all(vals.drop_last(), before, mid) && #[trigger] vals.last().saved(mid, after)
    }
}

/// Each of `olds` was loaded in turn from the section, each load succeeding,
/// and they became `news`, the section going from `before` to `after`.
pub open spec fn loaded_all<T: Save>(olds: Seq<T>, before: Section, news: Seq<T>, after: Section) -> bool
    decreases olds.len(),
{
    &&& news.len() == olds.len()
    &&& if olds.len() == 0 {
        after == before
    } else {
        exists|mid: Section|
            loaded_all(olds.drop_last(), before, news.drop_last(), mid) && #[trigger] olds.last().loaded(
                mid,
                Ok(()),
                news.last(),
                after,
            )
    }
}

impl Section {
    /// Saves each value into this section, in order.
    pub fn write_all<T: Save>(&mut self, values: &[T])
        ensures
            saved_all(values@, *old(self), *final(self)),
    {
        let mut i: usize = 0;
        while i < values.len()
            invariant
                i <= values@.len(),
                saved_all(values@.take(i as int), *old(self), *self),
            decreases values@.len() - i,
        {
            let ghost mid = *self;
            values[i].save(self);
            proof {
                let t = values@.take(i + 1);
                assert(t.drop_last() == values@.take(i as int));
                assert(t.last() == values@[i as int]);
                assert(t.last().saved(mid, *self));
            }
            i += 1;
        }
        assert(values@.take(values@.len() as int) == values@);
    }

    /// Loads each value from this section, in order, stopping at the first
    /// load that fails and returning its error.
    pub fn read_all<T: Save>(&mut self, values: &mut [T]) -> (r: Result<(), SaveStateError>)
        ensures
            final(values)@.len() == old(values)@.len(),
            r is Ok ==> loaded_all(old(values)@, *old(self), final(values)@, *final(self)),
            r is Err ==> exists|k: int, mid: Section|
                0 <= k < old(values)@.len() && loaded_all(
                    old(values)@.take(k),
                    *old(self),
                    final(values)@.take(k),
                    mid,
                ) && #[trigger] old(values)@[k].loaded(mid, r, final(values)@[k], *final(self))
                    && final(values)@.skip(k + 1) == old(values)@.skip(k + 1),
    {
        let mut i: usize = 0;
        while i < values.len()
            invariant
                i <= values@.len(),
                values@.len() == old(values)@.len(),
                loaded_all(old(values)@.take(i as int), *old(self), values@.take(i as int), *self),
                values@.skip(i as int) == old(values)@.skip(i as int),
            decreases values@.len() - i,
        {
            let ghost mid = *self;
            let ghost before = values@;
            assert(before[i as int] == before.skip(i as int)[0]);
            let res = values[i].load(self);
            match res {
                Ok(()) => {},
                Err(e) => {
                    proof {
                        assert(values@.take(i as int) == before.take(i as int));
                        assert(values@.skip(i + 1) == before.skip(i + 1));
                        assert(before.skip(i + 1) == before.skip(i as int).skip(1));
                        assert(old(values)@.skip(i + 1) == old(values)@.skip(i as int).skip(1));
                        assert(values@.skip(i + 1) == old(values)@.skip(i + 1));
                        assert(old(values)@[i as int] == before.skip(i as int)[0]);
                        assert(old(values)@[i as int].loaded(mid, Err(e), values@[i as int], *self));
                        assert(loaded_all(old(values)@.take(i as int), *old(self), values@.take(i as int), mid));
                    }
                    return Err(e);
                },
            }
            proof {
                assert(values@.take(i as int) == before.take(i as int));
                assert(old(values)@[i as int] == before.skip(i as int)[0]);
                let t = old(values)@.take(i + 1);
                let n = values@.take(i + 1);
                assert(t.drop_last() == old(values)@.take(i as int));
                assert(n.drop_last() == values@.take(i as int));
                assert(t.last() == old(values)@[i as int]);
                assert(n.last() == values@[i as int]);
                assert(res is Ok);
                let u: () = res->Ok_0;
                assert(res == Ok::<(), SaveStateError>(u));
                assert(t.last().loaded(mid, Ok(()), n.last(), *self));
                assert(values@.skip(i + 1) == before.skip(i + 1));
                assert(before.skip(i + 1) == before.skip(i as int).skip(1));
                assert(old(values)@.skip(i + 1) == old(values)@.skip(i as int).skip(1));
            }
            i += 1;
        }
        assert(values@.take(values@.len() as int) == values@);
        assert(old(values)@.take(values@.len() as int) == old(values)@);
        Ok(())
    }
}

} // verus!
