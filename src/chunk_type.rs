use vstd::prelude::*;

use crate::error::Error;
use vstd::string::StrSliceExecFns;

verus! {

/// True when `b` is an ASCII letter, `A`..=`Z` or `a`..=`z`.
pub open spec fn is_ascii_letter(b: u8) -> bool {
    (65 <= b && b <= 90) || (97 <= b && b <= 122)
}

/// True when `s` can be the bytes of a chunk type: four ASCII letters.
pub open spec fn is_tag(s: Seq<u8>) -> bool {
    s.len() == 4 && forall|i: int| 0 <= i < 4 ==> #[trigger] is_ascii_letter(s[i])
}

/// True when `c` is an ASCII letter.
pub open spec fn is_letter_char(c: char) -> bool {
    ('A' <= c && c <= 'Z') || ('a' <= c && c <= 'z')
}

/// True when bit 5 (`0x20`), the bit that makes an ASCII letter lower case, is set in `b`.
pub open spec fn case_bit(b: u8) -> bool {
    b & 0x20 == 0x20
}

/// The bytes of a text, one byte per character.
pub open spec fn text_bytes(t: Seq<char>) -> Seq<u8> {
    Seq::new(t.len(), |i: int| t[i] as u8)
}

/// The characters of a byte string, one character per byte.
pub open spec fn byte_chars(b: Seq<u8>) -> Seq<char> {
    Seq::new(b.len(), |i: int| b[i] as char)
}

/// Relies on `String::push`: the character is appended at the end.
#[verifier::external_body]
pub(crate) fn push_char(s: &mut String, c: char)
    ensures
        final(s)@ == old(s)@.push(c),
{
    s.push(c);
}

/// Whether bit 5 of `b` is set.
fn bit5(b: u8) -> (r: bool)
    ensures
        r == case_bit(b),
{
    let r = (b >> 5) & 1 == 1;
    assert(((b >> 5) & 1 == 1) == (b & 0x20 == 0x20)) by (bit_vector);
    r
}

/// A four-letter chunk type code.
#[derive(Debug, Clone, Copy)]
pub struct ChunkType {
    bytes: [u8; 4],
}

impl View for ChunkType {
    type V = Seq<u8>;

    closed spec fn view(&self) -> Seq<u8> {
        self.bytes@
    }
}

impl PartialEq for ChunkType {
    fn eq(&self, other: &ChunkType) -> (r: bool) {
        let r = self.bytes[0] == other.bytes[0] && self.bytes[1] == other.bytes[1]
            && self.bytes[2] == other.bytes[2] && self.bytes[3] == other.bytes[3];
        proof {
            if r {
                assert(self.bytes@ =~= other.bytes@);
            }
        }
        r
    }
}

impl vstd::std_specs::cmp::PartialEqSpecImpl for ChunkType {
    open spec fn obeys_eq_spec() -> bool {
        true
    }

    open spec fn eq_spec(&self, other: &ChunkType) -> bool {
        self@ == other@
    }
}

impl Eq for ChunkType {}

impl TryFrom<[u8; 4]> for ChunkType {
    type Error = Error;

    fn try_from(value: [u8; 4]) -> Result<ChunkType, Error> {
        let r = ChunkType::try_from(value);
        proof {
            if r is Ok {
                assert(r->Ok_0.bytes =~= value);
            }
        }
        r
    }
}

impl vstd::std_specs::convert::TryFromSpecImpl<[u8; 4]> for ChunkType {
    open spec fn obeys_try_from_spec() -> bool {
        true
    }

    closed spec fn try_from_spec(value: [u8; 4]) -> Result<ChunkType, Error> {
        if is_tag(value@) {
            Ok(ChunkType { bytes: value })
        } else {
            Err(Error::InvalidTypeBytes)
        }
    }
}

impl std::str::FromStr for ChunkType {
    type Err = Error;

    fn from_str(s: &str) -> Result<ChunkType, Error> {
        ChunkType::from_str(s)
    }
}

impl ChunkType {
    #[verifier::type_invariant]
    closed spec fn inv(self) -> bool {
        is_tag(self.bytes@)
    }

    /// Whether `byte` may stand in a chunk type.
    pub fn is_valid_byte(byte: u8) -> (r: bool)
        ensures
            r == is_ascii_letter(byte),
    {
        (65 <= byte && byte <= 90) || (97 <= byte && byte <= 122)
    }

    /// Builds a chunk type from four bytes, which must all be ASCII letters.
    pub fn try_from(value: [u8; 4]) -> (r: Result<ChunkType, Error>)
        ensures
            is_tag(value@) <==> r is Ok,
            r is Ok ==> r->Ok_0@ == value@,
            r is Err ==> r->Err_0 == Error::InvalidTypeBytes,
    {
        let mut i: usize = 0;
        while i < 4
            invariant
                i <= 4,
                value@.len() == 4,
                forall|j: int| 0 <= j < i ==> #[trigger] is_ascii_letter(value@[j]),
            decreases 4 - i,
        {
            if !ChunkType::is_valid_byte(value[i]) {
                return Err(Error::InvalidTypeBytes);
            }
            i = i + 1;
        }
        Ok(ChunkType { bytes: value })
    }

    /// Builds a chunk type from a text of exactly four ASCII letters.
    pub fn from_str(s: &str) -> (r: Result<ChunkType, Error>)
        ensures
            s@.len() != 4 ==> r == Err::<ChunkType, Error>(Error::InvalidLength),
            s@.len() == 4 ==> ((forall|i: int| 0 <= i < 4 ==> #[trigger] is_letter_char(s@[i]))
                <==> r is Ok),
            s@.len() == 4 && r is Err ==> r->Err_0 == Error::InvalidCharacter,
            r is Ok ==> r->Ok_0@ == text_bytes(s@),
    {
        let n = s.unicode_len();
        if n != 4 {
            return Err(Error::InvalidLength);
        }
        let mut bytes: [u8; 4] = [0; 4];
        let mut i: usize = 0;
        while i < 4
            invariant
                i <= 4,
                s@.len() == 4,
                bytes@.len() == 4,
                forall|j: int| 0 <= j < i ==> #[trigger] is_letter_char(s@[j]),
                forall|j: int| 0 <= j < i ==> #[trigger] bytes@[j] == s@[j] as u8,
                forall|j: int| 0 <= j < i ==> #[trigger] is_ascii_letter(bytes@[j]),
            decreases 4 - i,
        {
            let c = s.get_char(i);
            if !(('A' <= c && c <= 'Z') || ('a' <= c && c <= 'z')) {
                assert(!is_letter_char(s@[i as int]));
                return Err(Error::InvalidCharacter);
            }
            bytes[i] = c as u8;
            assert(is_ascii_letter(bytes@[i as int]));
            i = i + 1;
        }
        assert(bytes@ =~= text_bytes(s@));
        Ok(ChunkType { bytes })
    }

    /// The four bytes of this chunk type.
    pub fn bytes(&self) -> (r: [u8; 4])
        ensures
            r@ == self@,
            is_tag(r@),
    {
        proof {
            use_type_invariant(self);
        }
        self.bytes
    }
    /// Whether the chunk is critical: bit 5 of the first byte is clear.
    pub fn is_critical(&self) -> (r: bool)
        ensures
            r == !case_bit(self@[0]),
    {
        proof {
            use_type_invariant(self);
        }
        !bit5(self.bytes[0])
    }

    /// Whether the chunk is public: bit 5 of the second byte is clear.
    pub fn is_public(&self) -> (r: bool)
        ensures
            r == !case_bit(self@[1]),
    {
        proof {
            use_type_invariant(self);
        }
        !bit5(self.bytes[1])
    }

    /// Whether the reserved bit, bit 5 of the third byte, is clear.
    pub fn is_reserved_bit_valid(&self) -> (r: bool)
        ensures
            r == !case_bit(self@[2]),
    {
        proof {
            use_type_invariant(self);
        }
        !bit5(self.bytes[2])
    }

    /// Whether the chunk is safe to copy: bit 5 of the fourth byte is set.
    pub fn is_safe_to_copy(&self) -> (r: bool)
        ensures
            r == case_bit(self@[3]),
    {
        proof {
            use_type_invariant(self);
        }
        bit5(self.bytes[3])
    }

    /// Whether the chunk type is valid; only the reserved bit decides.
    pub fn is_valid(&self) -> (r: bool)
        ensures
            r == !case_bit(self@[2]),
    {
        self.is_reserved_bit_valid()
    }

    /// The chunk type as text: one character per byte.
    pub fn to_string(&self) -> (r: String)
        ensures
            r@ == byte_chars(self@),
    {
        proof {
            use_type_invariant(self);
        }
        let mut r = String::new();
        let mut i: usize = 0;
        while i < 4
            invariant
                i <= 4,
                self.bytes@.len() == 4,
                r@ =~= byte_chars(self.bytes@).take(i as int),
            decreases 4 - i,
        {
            push_char(&mut r, self.bytes[i] as char);
            i = i + 1;
        }
        r
    }
}

} // verus!
