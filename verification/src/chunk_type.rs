//! The 4-byte type code of a chunk.
//!
//! Each byte of a type code carries one boolean property in its ASCII case:
//! byte 0 critical/ancillary, byte 1 public/private, byte 2 the reserved bit
//! (uppercase means well-formed), byte 3 safe-to-copy (lowercase means safe).

use vstd::prelude::*;

use crate::chunk::ChunkDecodingError;
use crate::text::utf8_to_string;

verus! {

use vstd::string::StringSliceAdditionalSpecFns;
use vstd::utf8::{
    valid_utf8, decode_utf8, encode_utf8, is_ascii_chars, is_ascii_chars_encode_utf8,
    encode_utf8_valid_utf8, encode_utf8_decode_utf8,
};

/// True of a byte that is an ASCII uppercase letter (`A`..`Z`).
pub open spec fn is_uppercase_byte(b: u8) -> bool {
    65 <= b && b <= 90
}

/// True of a byte that is an ASCII lowercase letter (`a`..`z`).
pub open spec fn is_lowercase_byte(b: u8) -> bool {
    97 <= b && b <= 122
}

/// True of a byte that is an ASCII letter.
pub open spec fn is_alphabetic_byte(b: u8) -> bool {
    is_uppercase_byte(b) || is_lowercase_byte(b)
}

/// True of a byte in the ASCII range.
pub open spec fn is_ascii_byte(b: u8) -> bool {
    b < 128
}

/// True of a character that is an ASCII letter.
pub open spec fn is_alphabetic_char(c: char) -> bool {
    ('A' <= c && c <= 'Z') || ('a' <= c && c <= 'z')
}

/// Text round trip: the UTF-8 bytes of any 4-character ASCII-alphabetic
/// string are 4 alphabetic bytes — exactly the input that `from_str`
/// accepts and stores — and rendering those bytes as text (`to_text`)
/// decodes them back to the original characters.
pub proof fn lemma_text_round_trip(s: Seq<char>)
    requires
        s.len() == 4,
        forall|i: int| 0 <= i < 4 ==> is_alphabetic_char(#[trigger] s[i]),
    ensures
        encode_utf8(s).len() == 4,
        forall|i: int| 0 <= i < 4 ==> is_alphabetic_byte(#[trigger] encode_utf8(s)[i]),
        valid_utf8(encode_utf8(s)),
        decode_utf8(encode_utf8(s)) == s,
{
    assert(is_ascii_chars(s));
    is_ascii_chars_encode_utf8(s);
    encode_utf8_valid_utf8(s);
    encode_utf8_decode_utf8(s);
    assert forall|i: int| 0 <= i < 4 implies is_alphabetic_byte(#[trigger] encode_utf8(s)[i]) by {
        assert(encode_utf8(s)[i] == s[i] as u8);
    }
}

/// The 4-byte tag of a chunk. Construction from raw bytes accepts any bytes;
/// construction from text demands exactly four ASCII-alphabetic characters.
#[derive(Debug, Clone, Copy, PartialEq, Eq)]
pub struct ChunkType {
    bytes: [u8; 4],
}

impl View for ChunkType {
    type V = Seq<u8>;

    closed spec fn view(&self) -> Seq<u8> {
        self.bytes@
    }
}

impl ChunkType {
    /// Well-formed: every byte is ASCII and the reserved byte is uppercase.
    pub open spec fn spec_is_valid(&self) -> bool {
        (forall|i: int| 0 <= i < 4 ==> is_ascii_byte(self@[i])) && is_uppercase_byte(self@[2])
    }

    /// Trusted construction from 4 raw bytes: always succeeds, the bytes are
    /// stored unchanged and only classified by the accessors.
    pub fn try_from(bytes: [u8; 4]) -> (r: Result<ChunkType, ChunkDecodingError>)
        ensures
            r is Ok,
            r matches Ok(t) ==> t@ == bytes@,
    {
        Ok(ChunkType { bytes })
    }

    /// Validated construction from text: the input must be exactly 4 bytes of
    /// ASCII-alphabetic text, else the construction fails with `InvalidByte`.
    pub fn from_str(s: &str) -> (r: Result<ChunkType, ChunkDecodingError>)
        ensures
            r is Ok <==> (s.spec_bytes().len() == 4 && (forall|i: int|
                0 <= i < 4 ==> is_alphabetic_byte(s.spec_bytes()[i]))),
            r matches Ok(t) ==> t@ == s.spec_bytes(),
            r matches Err(e) ==> e == ChunkDecodingError::InvalidByte,
    {
        let b: &[u8] = s.as_bytes();
        if b.len() != 4 {
            return Err(ChunkDecodingError::InvalidByte);
        }
        if !(Self::is_valid_byte(b[0]) && Self::is_valid_byte(b[1]) && Self::is_valid_byte(b[2])
            && Self::is_valid_byte(b[3])) {
            return Err(ChunkDecodingError::InvalidByte);
        }
        let bytes: [u8; 4] = [b[0], b[1], b[2], b[3]];
        proof {
            assert(bytes@ =~= s.spec_bytes());
        }
        Ok(ChunkType { bytes })
    }

    /// The underlying 4 raw bytes, unchanged.
    pub fn bytes(&self) -> (r: [u8; 4])
        ensures
            r@ == self@,
    {
        self.bytes
    }

    /// True iff all 4 bytes are ASCII and the reserved byte (position 2) is
    /// uppercase.
    pub fn is_valid(&self) -> (r: bool)
        ensures
            r == self.spec_is_valid(),
    {
        let ascii = self.bytes[0] < 128 && self.bytes[1] < 128 && self.bytes[2] < 128
            && self.bytes[3] < 128;
        ascii && 65 <= self.bytes[2] && self.bytes[2] <= 90
    }

    /// True iff byte 0 is uppercase: the chunk must be understood by a
    /// conforming reader; lowercase marks it ancillary.
    pub fn is_critical(&self) -> (r: bool)
        ensures
            r == is_uppercase_byte(self@[0]),
    {
        65 <= self.bytes[0] && self.bytes[0] <= 90
    }

    /// True iff byte 1 is uppercase: a registered tag rather than a private,
    /// application-specific one.
    pub fn is_public(&self) -> (r: bool)
        ensures
            r == is_uppercase_byte(self@[1]),
    {
        65 <= self.bytes[1] && self.bytes[1] <= 90
    }

    /// True iff byte 2 is uppercase. The bit is reserved for future format
    /// revisions; a producer must always set it uppercase.
    pub fn is_reserved_bit_valid(&self) -> (r: bool)
        ensures
            r == is_uppercase_byte(self@[2]),
    {
        65 <= self.bytes[2] && self.bytes[2] <= 90
    }

    /// True iff byte 3 is lowercase: a generic copier may duplicate the chunk
    /// into a modified stream. The polarity is the inverse of the other flags.
    pub fn is_safe_to_copy(&self) -> (r: bool)
        ensures
            r == is_lowercase_byte(self@[3]),
    {
        97 <= self.bytes[3] && self.bytes[3] <= 122
    }

    /// True iff the byte is ASCII-alphabetic, the only content allowed in a
    /// type code constructed from text.
    pub fn is_valid_byte(byte: u8) -> (r: bool)
        ensures
            r == is_alphabetic_byte(byte),
    {
        (65 <= byte && byte <= 90) || (97 <= byte && byte <= 122)
    }

    /// The 4 bytes reinterpreted as text; fails with `InvalidUtf8` where the
    /// bytes are not a valid text encoding.
    pub fn to_text(&self) -> (r: Result<String, ChunkDecodingError>)
        ensures
            r is Ok <==> valid_utf8(self@),
            r matches Ok(s) ==> s@ == decode_utf8(self@),
            r matches Err(e) ==> e == ChunkDecodingError::InvalidUtf8,
    {
        match utf8_to_string(self.bytes.as_slice()) {
            Some(s) => Ok(s),
            None => Err(ChunkDecodingError::InvalidUtf8),
        }
    }
}

} // verus!
