use vstd::prelude::*;
use vstd::string::StringExecFns;
use vstd::utf8::{decode_utf8, valid_utf8};

use crate::chunk_type::{byte_chars, is_ascii_letter, is_tag, push_char, ChunkType};
use crate::endian::{
    be_bytes, be_value, lemma_be_value_injective, lemma_be_value_of_bytes, u32_from_be, u32_to_be,
};
use crate::error::Error;

verus! {

/// The CRC-32/ISO-HDLC checksum of `bytes`, the one PNG uses.
pub uninterp spec fn crc32_iso_hdlc(bytes: Seq<u8>) -> u32;

/// Relies on `crc::Crc::<u32>::checksum` with the `crc::CRC_32_ISO_HDLC` parameters:
/// the checksum depends on the bytes alone.
#[verifier::external_body]
fn checksum(bytes: &[u8]) -> (r: u32)
    ensures
        r == crc32_iso_hdlc(bytes@),
{
    crc::Crc::<u32>::new(&crc::CRC_32_ISO_HDLC).checksum(bytes)
}

/// Relies on `String::from_utf8`: it succeeds exactly on valid UTF-8 and then
/// holds the decoded characters.
#[verifier::external_body]
fn string_from_utf8(bytes: &[u8]) -> (r: Option<String>)
    ensures
        r is Some <==> valid_utf8(bytes@),
        r is Some ==> r->Some_0@ == decode_utf8(bytes@),
{
    String::from_utf8(bytes.to_vec()).ok()
}

/// Appends the bytes of `src` to `out`.
fn append_bytes(out: &mut Vec<u8>, src: &[u8])
    ensures
        final(out)@ == old(out)@ + src@,
{
    let ghost start = out@;
    let mut i: usize = 0;
    while i < src.len()
        invariant
            i <= src@.len(),
            out@ =~= start + src@.take(i as int),
        decreases src@.len() - i,
    {
        out.push(src[i]);
        i = i + 1;
    }
    assert(src@.take(src@.len() as int) =~= src@);
}

/// The decimal digits of `n`, most significant first, without leading zeros.
pub open spec fn decimal(n: nat) -> Seq<char>
    decreases n,
{
    if n < 10 {
        seq![digit_char(n)]
    } else {
        decimal(n / 10).push(digit_char(n % 10))
    }
}

/// The character of a decimal digit.
pub open spec fn digit_char(d: nat) -> char {
    ('0' as u32 + d) as char
}

/// Appends the decimal digits of `n` to `out`.
fn append_decimal(out: &mut String, n: u32)
    ensures
        final(out)@ == old(out)@ + decimal(n as nat),
    decreases n,
{
    if n >= 10 {
        append_decimal(out, n / 10);
    }
    let d = (n % 10) as u8;
    push_char(out, (48u8 + d) as char);
    assert(out@ =~= old(out)@ + decimal(n as nat));
}

/// What a chunk is: its type bytes and its payload. Length and checksum follow from them.
pub struct ChunkModel {
    pub chunk_type: Seq<u8>,
    pub data: Seq<u8>,
}

impl ChunkModel {
    /// The number of payload bytes.
    pub open spec fn length(self) -> nat {
        self.data.len()
    }

    /// The checksum over type bytes and payload.
    pub open spec fn crc(self) -> u32 {
        crc32_iso_hdlc(self.chunk_type + self.data)
    }

    /// A valid chunk type, and a payload whose length fits the length field.
    pub open spec fn wf(self) -> bool {
        is_tag(self.chunk_type) && self.data.len() <= u32::MAX
    }

    /// The bytes of the chunk on the wire: length, type, payload and checksum,
    /// the two numbers big-endian.
    pub open spec fn to_bytes(self) -> Seq<u8> {
        be_bytes(self.data.len() as u32) + self.chunk_type + self.data + be_bytes(self.crc())
    }
}

/// What reading `b` as one whole chunk gives: the chunk, or the first check that fails.
/// The declared length must equal the number of payload bytes that `b` carries.
pub open spec fn parse_chunk(b: Seq<u8>) -> Result<ChunkModel, Error> {
    if b.len() < 12 {
        Err(Error::Truncated)
    } else if be_value(b.subrange(0, 4)) != b.len() - 12 {
        Err(Error::InvalidLength)
    } else if !is_tag(b.subrange(4, 8)) {
        Err(Error::InvalidTypeBytes)
    } else if be_value(b.subrange(b.len() - 4, b.len() as int)) != crc32_iso_hdlc(
        b.subrange(4, b.len() - 4),
    ) {
        Err(Error::ChecksumMismatch)
    } else {
        Ok(ChunkModel { chunk_type: b.subrange(4, 8), data: b.subrange(8, b.len() - 4) })
    }
}

/// `b` with bit `k` of byte `i` inverted.
pub open spec fn flip_bit(b: Seq<u8>, i: int, k: u8) -> Seq<u8> {
    b.update(i, b[i] ^ (1u8 << k))
}

/// Reading the bytes of a valid chunk gives the same chunk back.
pub proof fn lemma_round_trip(m: ChunkModel)
    requires
        m.wf(),
    ensures
        parse_chunk(m.to_bytes()) == Ok::<ChunkModel, Error>(m),
{
    let b = m.to_bytes();
    lemma_frame_fields(m);
    assert(b.subrange(8, b.len() - 4) =~= m.data);
}

/// The checksum of a chunk depends only on its type bytes followed by its payload:
/// chunks whose concatenations agree have the same checksum.
pub proof fn lemma_crc_follows_bytes(a: ChunkModel, b: ChunkModel)
    requires
        a.chunk_type + a.data == b.chunk_type + b.data,
    ensures
        a.crc() == b.crc(),
{
}

/// Where the fields of a valid chunk stand in its bytes.
proof fn lemma_frame_fields(m: ChunkModel)
    requires
        m.wf(),
    ensures
        ({
            let b = m.to_bytes();
            let n = b.len() as int;
            &&& n == 12 + m.data.len()
            &&& be_value(b.subrange(0, 4)) == n - 12
            &&& b.subrange(4, 8) == m.chunk_type
            &&& b.subrange(4, n - 4) == m.chunk_type + m.data
            &&& be_value(b.subrange(n - 4, n)) == m.crc()
        }),
{
    let b = m.to_bytes();
    let n = b.len() as int;
    lemma_be_value_of_bytes(m.data.len() as u32);
    lemma_be_value_of_bytes(m.crc());
    assert(b.subrange(0, 4) =~= be_bytes(m.data.len() as u32));
    assert(b.subrange(4, 8) =~= m.chunk_type);
    assert(b.subrange(4, n - 4) =~= m.chunk_type + m.data);
    assert(b.subrange(n - 4, n) =~= be_bytes(m.crc()));
}

/// Inverting a bit changes the byte.
proof fn lemma_flip_changes(x: u8, k: u8)
    requires
        k < 8,
    ensures
        x ^ (1u8 << k) != x,
{
    assert(x ^ (1u8 << k) != x) by (bit_vector)
        requires
            k < 8,
    ;
}

/// Four bytes that differ somewhere spell different numbers.
proof fn lemma_changed_field(s: Seq<u8>, t: Seq<u8>, j: int)
    requires
        s.len() == 4,
        t.len() == 4,
        0 <= j < 4,
        s[j] != t[j],
    ensures
        be_value(s) != be_value(t),
{
    if be_value(s) == be_value(t) {
        lemma_be_value_injective(s, t);
    }
}

/// Inverting any one bit of a valid chunk's bytes is caught when they are read
/// back: in the length field as a length mismatch, in the checksum field as a
/// checksum mismatch, and in the type field as bad type bytes where the byte is
/// no longer a letter. Where it is read back without error, the bit lies in the
/// type or the payload, the covered bytes differ from the original's, and their
/// checksum equals the original's: only a checksum collision lets a change through.
pub proof fn lemma_bit_flip_detected(m: ChunkModel, i: int, k: u8)
    requires
        m.wf(),
        0 <= i < m.to_bytes().len(),
        k < 8,
    ensures
        ({
            let t = flip_bit(m.to_bytes(), i, k);
            &&& i < 4 ==> parse_chunk(t) == Err::<ChunkModel, Error>(Error::InvalidLength)
            &&& 4 <= i < 8 && !is_ascii_letter(t[i]) ==> parse_chunk(t) == Err::<
                ChunkModel,
                Error,
            >(Error::InvalidTypeBytes)
            &&& t.len() - 4 <= i ==> parse_chunk(t) == Err::<ChunkModel, Error>(
                Error::ChecksumMismatch,
            )
            &&& parse_chunk(t) is Ok ==> {
                &&& 4 <= i < t.len() - 4
                &&& t.subrange(4, t.len() - 4) != m.chunk_type + m.data
                &&& crc32_iso_hdlc(t.subrange(4, t.len() - 4)) == m.crc()
            }
        }),
{
    let b = m.to_bytes();
    let n = b.len() as int;
    let t = flip_bit(b, i, k);
    lemma_frame_fields(m);
    lemma_flip_changes(b[i], k);
    assert(t.len() == n);
    if i < 4 {
        lemma_changed_field(t.subrange(0, 4), b.subrange(0, 4), i);
    } else {
        assert(t.subrange(0, 4) =~= b.subrange(0, 4));
        if i < 8 {
            assert(t.subrange(4, 8)[i - 4] == t[i]);
        } else {
            assert(t.subrange(4, 8) =~= b.subrange(4, 8));
        }
        if n - 4 <= i {
            assert(t.subrange(4, n - 4) =~= b.subrange(4, n - 4));
            lemma_changed_field(t.subrange(n - 4, n), b.subrange(n - 4, n), i - (n - 4));
        } else {
            assert(t.subrange(n - 4, n) =~= b.subrange(n - 4, n));
            assert(t.subrange(4, n - 4)[i - 4] != b.subrange(4, n - 4)[i - 4]);
        }
    }
}

/// A chunk: a type, a payload, and the payload's length and checksum.
pub struct Chunk {
    length: u32,
    chunk_type: ChunkType,
    data: Vec<u8>,
    crc: u32,
}

impl View for Chunk {
    type V = ChunkModel;

    closed spec fn view(&self) -> ChunkModel {
        ChunkModel { chunk_type: self.chunk_type@, data: self.data@ }
    }
}

impl<'a> TryFrom<&'a [u8]> for Chunk {
    type Error = Error;

    fn try_from(bytes: &'a [u8]) -> Result<Chunk, Error> {
        Chunk::try_from(bytes)
    }
}

/// What `try_from` returns is stated on the inherent `Chunk::try_from`, over the
/// chunk's view: two chunks with one view need not be one value to the verifier.
impl<'a> vstd::std_specs::convert::TryFromSpecImpl<&'a [u8]> for Chunk {
    open spec fn obeys_try_from_spec() -> bool {
        false
    }

    closed spec fn try_from_spec(bytes: &'a [u8]) -> Result<Chunk, Error> {
        match parse_chunk(bytes@) {
            Ok(m) => Ok(choose|c: Chunk| c@ == m),
            Err(e) => Err(e),
        }
    }
}

impl Chunk {
    #[verifier::type_invariant]
    closed spec fn inv(self) -> bool {
        &&& is_tag(self.chunk_type@)
        &&& self.length as nat == self.data@.len()
        &&& self.crc == crc32_iso_hdlc(self.chunk_type@ + self.data@)
    }

    /// Builds a chunk from a type and a payload, computing length and checksum.
    pub fn new(chunk_type: ChunkType, data: Vec<u8>) -> (r: Chunk)
        requires
            data@.len() <= u32::MAX,
        ensures
            r@ == (ChunkModel { chunk_type: chunk_type@, data: data@ }),
            r@.wf(),
    {
        let tag = chunk_type.bytes();
        let mut covered: Vec<u8> = Vec::new();
        append_bytes(&mut covered, &tag);
        append_bytes(&mut covered, data.as_slice());
        let crc = checksum(covered.as_slice());
        Chunk { length: data.len() as u32, chunk_type, data, crc }
    }

    /// Reads one whole chunk from `bytes`: length, type, payload and checksum.
    /// Fails where the buffer is too short, the declared length is not the
    /// payload's, the type is not four letters, or the checksum does not match.
    pub fn try_from(bytes: &[u8]) -> (r: Result<Chunk, Error>)
        ensures
            bytes@.len() < 12 ==> r == Err::<Chunk, Error>(Error::Truncated),
            match parse_chunk(bytes@) {
                Ok(m) => r is Ok && r->Ok_0@ == m,
                Err(e) => r == Err::<Chunk, Error>(e),
            },
            r is Ok ==> r->Ok_0@.wf(),
    {
        let n = bytes.len();
        if n < 12 {
            return Err(Error::Truncated);
        }
        let length = u32_from_be(bytes, 0);
        if length as u64 != (n - 12) as u64 {
            return Err(Error::InvalidLength);
        }
        let tag: [u8; 4] = [bytes[4], bytes[5], bytes[6], bytes[7]];
        assert(tag@ =~= bytes@.subrange(4, 8));
        let chunk_type = match ChunkType::try_from(tag) {
            Ok(t) => t,
            Err(e) => {
                return Err(e);
            },
        };
        let mut data: Vec<u8> = Vec::new();
        let mut i: usize = 8;
        while i < n - 4
            invariant
                8 <= i <= n - 4,
                n == bytes@.len(),
                n >= 12,
                data@ =~= bytes@.subrange(8, i as int),
            decreases n - 4 - i,
        {
            data.push(bytes[i]);
            i = i + 1;
        }
        let stored = u32_from_be(bytes, n - 4);
        let chunk = Chunk::new(chunk_type, data);
        assert(chunk_type@ + data@ =~= bytes@.subrange(4, n - 4));
        if chunk.crc() != stored {
            return Err(Error::ChecksumMismatch);
        }
        Ok(chunk)
    }

    /// The chunk's bytes on the wire: big-endian length, type, payload and
    /// big-endian checksum.
    pub fn as_bytes(&self) -> (r: Vec<u8>)
        ensures
            r@ == self@.to_bytes(),
            self@.wf(),
    {
        proof {
            use_type_invariant(self);
        }
        let mut out: Vec<u8> = Vec::new();
        append_bytes(&mut out, &u32_to_be(self.length));
        append_bytes(&mut out, &self.chunk_type.bytes());
        append_bytes(&mut out, self.data.as_slice());
        append_bytes(&mut out, &u32_to_be(self.crc));
        out
    }

    /// A one-line description: length, type and checksum.
    pub fn to_string(&self) -> (r: String)
        ensures
            r@ == "Length: "@ + decimal(self@.length()) + " Type: "@ + byte_chars(
                self@.chunk_type,
            ) + " Crc: "@ + decimal(self@.crc() as nat),
    {
        proof {
            use_type_invariant(self);
        }
        let mut out = String::new();
        out.append("Length: ");
        append_decimal(&mut out, self.length);
        out.append(" Type: ");
        out.append(self.chunk_type.to_string().as_str());
        out.append(" Crc: ");
        append_decimal(&mut out, self.crc);
        out
    }

    /// The number of payload bytes.
    pub fn length(&self) -> (r: u32)
        ensures
            r as nat == self@.length(),
    {
        proof {
            use_type_invariant(self);
        }
        self.length
    }

    /// The chunk's type.
    pub fn chunk_type(&self) -> (r: &ChunkType)
        ensures
            r@ == self@.chunk_type,
    {
        &self.chunk_type
    }

    /// The payload.
    pub fn data(&self) -> (r: &[u8])
        ensures
            r@ == self@.data,
    {
        self.data.as_slice()
    }

    /// The checksum over type bytes and payload.
    pub fn crc(&self) -> (r: u32)
        ensures
            r == self@.crc(),
    {
        proof {
            use_type_invariant(self);
        }
        self.crc
    }

    /// The payload as text, or `NotUtf8` where it is not valid UTF-8.
    pub fn data_as_string(&self) -> (r: Result<String, Error>)
        ensures
            r is Ok <==> valid_utf8(self@.data),
            r is Ok ==> r->Ok_0@ == decode_utf8(self@.data),
            r is Err ==> r->Err_0 == Error::NotUtf8,
    {
        match string_from_utf8(self.data.as_slice()) {
            Some(s) => Ok(s),
            None => Err(Error::NotUtf8),
        }
    }
}

} // verus!
