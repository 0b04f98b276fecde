//! The chunk record: a type code, a payload, and a CRC-32 integrity check,
//! with conversion to and from the on-wire byte layout.

use vstd::prelude::*;

use crate::chunk_type::ChunkType;
use crate::text::utf8_to_string;

verus! {

use vstd::string::StringExecFns;
use vstd::utf8::{valid_utf8, decode_utf8};

/// The largest payload length a chunk may declare or carry.
pub const MAXIMUM_LENGTH: u32 = 0x7fff_ffff;

/// Why a byte buffer or a piece of text was rejected.
#[derive(Debug, Clone, Copy, PartialEq, Eq, Structural)]
pub enum ChunkDecodingError {
    /// Text-based type-code construction saw a byte outside the
    /// ASCII-alphabetic range.
    InvalidByte,
    /// A declared chunk length exceeds the maximum.
    LengthExceeded,
    /// Fewer bytes are available than the declared length requires.
    TruncatedInput,
    /// The recomputed checksum differs from the declared one.
    CrcMismatch,
    /// A payload requested as text is not valid UTF-8.
    InvalidUtf8,
}

/// The 4 bytes of `x` in big-endian order.
pub open spec fn u32_to_be_bytes(x: u32) -> Seq<u8> {
    seq![(x >> 24) as u8, (x >> 16) as u8, (x >> 8) as u8, x as u8]
}

/// The value that 4 bytes in big-endian order denote.
pub open spec fn u32_from_be_bytes(b: Seq<u8>) -> u32
    recommends
        b.len() == 4,
{
    ((b[0] as u32) << 24) | ((b[1] as u32) << 16) | ((b[2] as u32) << 8) | (b[3] as u32)
}

/// Reading back the big-endian bytes of a value yields the value.
pub proof fn lemma_u32_be_bytes_round_trip(x: u32)
    ensures
        u32_from_be_bytes(u32_to_be_bytes(x)) == x,
{
    assert(((((x >> 24) as u8) as u32) << 24) | ((((x >> 16) as u8) as u32) << 16)
        | ((((x >> 8) as u8) as u32) << 8) | ((x as u8) as u32) == x) by (bit_vector);
}

fn u32_to_be_vec(x: u32) -> (r: Vec<u8>)
    ensures
        r@ == u32_to_be_bytes(x),
{
    let mut r: Vec<u8> = Vec::new();
    r.push((x >> 24) as u8);
    r.push((x >> 16) as u8);
    r.push((x >> 8) as u8);
    r.push(x as u8);
    proof {
        assert(r@ =~= u32_to_be_bytes(x));
    }
    r
}

fn u32_from_be_slice(b: &[u8], start: usize) -> (x: u32)
    requires
        start + 4 <= b@.len(),
    ensures
        x == u32_from_be_bytes(b@.subrange(start as int, start as int + 4)),
{
    let x = ((b[start] as u32) << 24) | ((b[start + 1] as u32) << 16)
        | ((b[start + 2] as u32) << 8) | (b[start + 3] as u32);
    proof {
        let s = b@.subrange(start as int, start as int + 4);
        assert(s[0] == b@[start as int]);
        assert(s[1] == b@[start as int + 1]);
        assert(s[2] == b@[start as int + 2]);
        assert(s[3] == b@[start as int + 3]);
    }
    x
}

/// The CRC-32 (ISO-HDLC) checksum of a byte sequence.
pub uninterp spec fn crc32_iso_hdlc_of(bytes: Seq<u8>) -> u32;

/// Relies on the `crc` crate: `Crc::<u32>::new(&CRC_32_ISO_HDLC).checksum`
/// computes the CRC-32 (ISO-HDLC) digest, a pure function of the input bytes.
#[verifier::external_body]
fn crc32_iso_hdlc(bytes: &[u8]) -> (r: u32)
    ensures
        r == crc32_iso_hdlc_of(bytes@),
{
    crc::Crc::<u32>::new(&crc::CRC_32_ISO_HDLC).checksum(bytes)
}

/// What a chunk is: its 4 type-code bytes and its payload bytes.
#[verifier::ext_equal]
pub struct ChunkModel {
    pub type_bytes: Seq<u8>,
    pub data: Seq<u8>,
}

impl ChunkModel {
    /// The bytes the checksum is computed over: the type code followed by the
    /// payload, never the length field.
    pub open spec fn checksum_input(self) -> Seq<u8> {
        self.type_bytes + self.data
    }
}

/// The canonical on-wire form: 4-byte big-endian length, 4 type-code bytes,
/// the payload, and the 4-byte big-endian checksum over type code and payload.
pub open spec fn spec_serialize(m: ChunkModel) -> Seq<u8> {
    u32_to_be_bytes(m.data.len() as u32) + m.type_bytes + m.data + u32_to_be_bytes(
        crc32_iso_hdlc_of(m.checksum_input()),
    )
}

/// Parsing a byte buffer: read the declared length and refuse one over the
/// maximum, take 4 type bytes and `length` payload bytes, refusing a buffer
/// with too few, then compare the declared checksum with the recomputed one.
/// Bytes past the end of the record are ignored.
pub open spec fn spec_deserialize(b: Seq<u8>) -> Result<ChunkModel, ChunkDecodingError> {
    if b.len() < 4 {
        Err(ChunkDecodingError::TruncatedInput)
    } else {
        let length = u32_from_be_bytes(b.subrange(0, 4));
        if length > MAXIMUM_LENGTH {
            Err(ChunkDecodingError::LengthExceeded)
        } else if b.len() < 12 + length {
            Err(ChunkDecodingError::TruncatedInput)
        } else {
            let m = ChunkModel {
                type_bytes: b.subrange(4, 8),
                data: b.subrange(8, 8 + length),
            };
            let declared = u32_from_be_bytes(b.subrange(8 + length, 12 + length));
            if declared != crc32_iso_hdlc_of(m.checksum_input()) {
                Err(ChunkDecodingError::CrcMismatch)
            } else {
                Ok(m)
            }
        }
    }
}

/// Wire-format round trip: serializing a chunk of any 4-byte type code and
/// any payload within the length bound, then parsing the bytes, succeeds and
/// yields the same type code and payload.
pub proof fn lemma_serialize_deserialize_round_trip(m: ChunkModel)
    requires
        m.type_bytes.len() == 4,
        m.data.len() <= MAXIMUM_LENGTH,
    ensures
        spec_deserialize(spec_serialize(m)) == Ok::<ChunkModel, ChunkDecodingError>(m),
{
    let b = spec_serialize(m);
    let len_u32 = m.data.len() as u32;
    let crc = crc32_iso_hdlc_of(m.checksum_input());
    lemma_u32_be_bytes_round_trip(len_u32);
    lemma_u32_be_bytes_round_trip(crc);
    assert(b.len() == 12 + m.data.len());
    assert(b.subrange(0, 4) =~= u32_to_be_bytes(len_u32));
    let length = u32_from_be_bytes(b.subrange(0, 4));
    assert(length == len_u32);
    assert(b.subrange(4, 8) =~= m.type_bytes);
    assert(b.subrange(8, 8 + length as int) =~= m.data);
    assert(b.subrange(8 + length as int, 12 + length as int) =~= u32_to_be_bytes(crc));
    let parsed = ChunkModel {
        type_bytes: b.subrange(4, 8),
        data: b.subrange(8, 8 + length as int),
    };
    assert(parsed.checksum_input() == m.checksum_input());
    assert(parsed =~= m);
}

/// What the payload contributes to the human-readable rendering of a chunk:
/// its text where it is valid UTF-8, a fixed placeholder where it is not.
pub open spec fn rendered_payload(data: Seq<u8>) -> Seq<char> {
    if valid_utf8(data) {
        decode_utf8(data)
    } else {
        seq!['[', 'd', 'a', 't', 'a', ']']
    }
}

/// A self-contained binary record: one type code and an opaque payload. The
/// payload never exceeds `MAXIMUM_LENGTH` bytes.
#[derive(Debug)]
pub struct Chunk {
    chunk_type: ChunkType,
    chunk_data: Vec<u8>,
}

impl View for Chunk {
    type V = ChunkModel;

    closed spec fn view(&self) -> ChunkModel {
        ChunkModel { type_bytes: self.chunk_type@, data: self.chunk_data@ }
    }
}

impl Chunk {
    #[verifier::type_invariant]
    spec fn wf(self) -> bool {
        self.chunk_data@.len() <= MAXIMUM_LENGTH
    }

    /// A chunk made of the given type code and payload.
    pub fn new(chunk_type: ChunkType, chunk_data: Vec<u8>) -> (r: Chunk)
        requires
            chunk_data@.len() <= MAXIMUM_LENGTH,
        ensures
            r@.type_bytes == chunk_type@,
            r@.data == chunk_data@,
    {
        Chunk { chunk_type, chunk_data }
    }

    /// The payload byte count.
    pub fn length(&self) -> (r: u32)
        ensures
            r == self@.data.len(),
    {
        proof {
            use_type_invariant(self);
        }
        self.chunk_data.len() as u32
    }

    /// The owned type code, by reference.
    pub fn chunk_type(&self) -> (r: &ChunkType)
        ensures
            r@ == self@.type_bytes,
    {
        &self.chunk_type
    }

    /// The payload bytes, by reference.
    pub fn data(&self) -> (r: &[u8])
        ensures
            r@ == self@.data,
    {
        self.chunk_data.as_slice()
    }

    /// The CRC-32 (ISO-HDLC) checksum over the type-code bytes followed by
    /// the payload bytes, recomputed from the current contents.
    pub fn crc(&self) -> (r: u32)
        ensures
            r == crc32_iso_hdlc_of(self@.checksum_input()),
    {
        let type_bytes = self.chunk_type.bytes();
        let mut bytes: Vec<u8> = Vec::new();
        bytes.push(type_bytes[0]);
        bytes.push(type_bytes[1]);
        bytes.push(type_bytes[2]);
        bytes.push(type_bytes[3]);
        let mut i: usize = 0;
        while i < self.chunk_data.len()
            invariant
                i <= self.chunk_data@.len(),
                bytes@ =~= self@.type_bytes + self@.data.subrange(0, i as int),
            decreases self.chunk_data@.len() - i,
        {
            bytes.push(self.chunk_data[i]);
            i = i + 1;
        }
        proof {
            assert(bytes@ =~= self@.checksum_input());
        }
        crc32_iso_hdlc(bytes.as_slice())
    }

    /// The payload decoded as UTF-8 text; fails with `InvalidUtf8` where the
    /// bytes are not a valid encoding. The payload itself is untouched.
    pub fn data_as_string(&self) -> (r: Result<String, ChunkDecodingError>)
        ensures
            r is Ok <==> valid_utf8(self@.data),
            r matches Ok(s) ==> s@ == decode_utf8(self@.data),
            r matches Err(e) ==> e == ChunkDecodingError::InvalidUtf8,
    {
        match utf8_to_string(self.chunk_data.as_slice()) {
            Some(s) => Ok(s),
            None => Err(ChunkDecodingError::InvalidUtf8),
        }
    }

    /// A chunk parsed from a byte buffer, or the reason the buffer was
    /// rejected, exactly as `spec_deserialize` lays it out.
    pub fn try_from(bytes: &[u8]) -> (r: Result<Chunk, ChunkDecodingError>)
        ensures
            r is Ok <==> spec_deserialize(bytes@) is Ok,
            r matches Ok(c) ==> c@ == spec_deserialize(bytes@)->Ok_0,
            r matches Err(e) ==> e == spec_deserialize(bytes@)->Err_0,
    {
        if bytes.len() < 4 {
            return Err(ChunkDecodingError::TruncatedInput);
        }
        let length = u32_from_be_slice(bytes, 0);
        if length > MAXIMUM_LENGTH {
            return Err(ChunkDecodingError::LengthExceeded);
        }
        let length_usize = length as usize;
        if bytes.len() < 12 || bytes.len() - 12 < length_usize {
            return Err(ChunkDecodingError::TruncatedInput);
        }
        let type_array: [u8; 4] = [bytes[4], bytes[5], bytes[6], bytes[7]];
        let chunk_type = match ChunkType::try_from(type_array) {
            Ok(t) => t,
            Err(e) => return Err(e),
        };
        let n: usize = bytes.len();
        let mut chunk_data: Vec<u8> = Vec::new();
        let mut i: usize = 0;
        while i < length_usize
            invariant
                i <= length_usize,
                n == bytes@.len(),
                n >= 12 + length_usize,
                chunk_data@ =~= bytes@.subrange(8, 8 + i as int),
            decreases length_usize - i,
        {
            chunk_data.push(bytes[8 + i]);
            i = i + 1;
        }
        let declared = u32_from_be_slice(bytes, 8 + length_usize);
        let chunk = Chunk { chunk_type, chunk_data };
        let computed = chunk.crc();
        proof {
            let ty = bytes@.subrange(4, 8);
            let data = bytes@.subrange(8, 8 + length as int);
            assert(chunk@.type_bytes =~= ty);
            assert(chunk@.data =~= data);
            assert(chunk@.checksum_input() =~= ty + data);
        }
        if declared != computed {
            return Err(ChunkDecodingError::CrcMismatch);
        }
        proof {
            assert(chunk@ =~= spec_deserialize(bytes@)->Ok_0);
        }
        Ok(chunk)
    }

    /// A human-readable line: the type code's text, a tab, and the payload's
    /// text, with a fixed placeholder where the payload is not valid text.
    /// Fails only where the type code itself is not a valid text encoding.
    pub fn to_text_line(&self) -> (r: Result<String, ChunkDecodingError>)
        ensures
            r is Ok <==> valid_utf8(self@.type_bytes),
            r matches Ok(s) ==> s@ == decode_utf8(self@.type_bytes) + seq!['\t']
                + rendered_payload(self@.data),
            r matches Err(e) ==> e == ChunkDecodingError::InvalidUtf8,
    {
        let mut out = match self.chunk_type.to_text() {
            Ok(s) => s,
            Err(e) => return Err(e),
        };
        out.append("\t");
        match self.data_as_string() {
            Ok(s) => out.append(s.as_str()),
            Err(_) => out.append("[data]"),
        }
        proof {
            reveal_strlit("\t");
            reveal_strlit("[data]");
            assert("\t"@ =~= seq!['\t']);
            assert("[data]"@ =~= seq!['[', 'd', 'a', 't', 'a', ']']);
        }
        Ok(out)
    }

    /// The canonical on-wire byte sequence of this chunk.
    pub fn as_bytes(&self) -> (r: Vec<u8>)
        ensures
            r@ == spec_serialize(self@),
    {
        proof {
            use_type_invariant(self);
        }
        let mut out = u32_to_be_vec(self.length());
        let type_bytes = self.chunk_type.bytes();
        out.push(type_bytes[0]);
        out.push(type_bytes[1]);
        out.push(type_bytes[2]);
        out.push(type_bytes[3]);
        let mut i: usize = 0;
        while i < self.chunk_data.len()
            invariant
                i <= self.chunk_data@.len(),
                out@ =~= u32_to_be_bytes(self@.data.len() as u32) + self@.type_bytes
                    + self@.data.subrange(0, i as int),
            decreases self.chunk_data@.len() - i,
        {
            out.push(self.chunk_data[i]);
            i = i + 1;
        }
        let crc_bytes = u32_to_be_vec(self.crc());
        out.push(crc_bytes[0]);
        out.push(crc_bytes[1]);
        out.push(crc_bytes[2]);
        out.push(crc_bytes[3]);
        proof {
            assert(out@ =~= spec_serialize(self@));
        }
        out
    }
}

} // verus!
