//! A binary chunk codec in the style of the PNG chunk format: length-prefixed,
//! type-tagged, CRC-checksummed records.
//!
//! A [`chunk_type::ChunkType`] is the 4-byte tag of a chunk; the ASCII case of
//! each of its bytes encodes one boolean property. A [`chunk::Chunk`] owns a
//! type code and a payload, computes a CRC-32 (ISO-HDLC) checksum over the
//! type bytes followed by the payload, and converts to and from the on-wire
//! layout: 4-byte big-endian length, 4 type bytes, payload, 4-byte big-endian
//! checksum.

pub mod chunk;
pub mod chunk_type;
mod text;
