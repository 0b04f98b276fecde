use chunk_codec::chunk::ChunkDecodingError;
use chunk_codec::chunk_type::ChunkType;

#[test]
pub fn test_chunk_type_from_bytes() {
    let expected = [82, 117, 83, 116];
    let actual = ChunkType::try_from([82, 117, 83, 116]).unwrap();

    assert_eq!(expected, actual.bytes());
}

#[test]
pub fn test_chunk_type_from_str() {
    let expected = ChunkType::try_from([82, 117, 83, 116]).unwrap();
    let actual = ChunkType::from_str("RuSt").unwrap();
    assert_eq!(expected, actual);
}

#[test]
pub fn test_chunk_type_is_critical() {
    let chunk = ChunkType::from_str("RuSt").unwrap();
    assert!(chunk.is_critical());
}

#[test]
pub fn test_chunk_type_is_not_critical() {
    let chunk = ChunkType::from_str("ruSt").unwrap();
    assert!(!chunk.is_critical());
}

#[test]
pub fn test_chunk_type_is_public() {
    let chunk = ChunkType::from_str("RUSt").unwrap();
    assert!(chunk.is_public());
}

#[test]
pub fn test_chunk_type_is_not_public() {
    let chunk = ChunkType::from_str("RuSt").unwrap();
    assert!(!chunk.is_public());
}

#[test]
pub fn test_chunk_type_is_reserved_bit_valid() {
    let chunk = ChunkType::from_str("RuSt").unwrap();
    assert!(chunk.is_reserved_bit_valid());
}

#[test]
pub fn test_chunk_type_is_reserved_bit_invalid() {
    let chunk = ChunkType::from_str("Rust").unwrap();
    assert!(!chunk.is_reserved_bit_valid());
}

#[test]
pub fn test_chunk_type_is_safe_to_copy() {
    let chunk = ChunkType::from_str("RuSt").unwrap();
    assert!(chunk.is_safe_to_copy());
}

#[test]
pub fn test_chunk_type_is_unsafe_to_copy() {
    let chunk = ChunkType::from_str("RuST").unwrap();
    assert!(!chunk.is_safe_to_copy());
}

#[test]
pub fn test_valid_chunk_is_valid() {
    let chunk = ChunkType::from_str("RuSt").unwrap();
    assert!(chunk.is_valid());
}

#[test]
pub fn test_invalid_chunk_is_valid() {
    let chunk = ChunkType::from_str("Rust").unwrap();
    assert!(!chunk.is_valid());

    let chunk = ChunkType::from_str("Ru1t");
    assert!(chunk.is_err());
}

#[test]
pub fn test_chunk_type_string() {
    let chunk = ChunkType::from_str("RuSt").unwrap();
    assert_eq!(chunk.to_text().unwrap(), "RuSt");
}

#[test]
pub fn test_chunk_type_trait_impls() {
    let chunk_type_1: ChunkType = ChunkType::try_from([82, 117, 83, 116]).unwrap();
    let chunk_type_2: ChunkType = ChunkType::from_str("RuSt").unwrap();
    assert_eq!(chunk_type_1, chunk_type_2);
    let _chunk_string = chunk_type_1.to_text().unwrap();
}

#[test]
fn test_flag_case_table() {
    // Every combination of upper and lower case over the four positions.
    for mask in 0u8..16 {
        let b0 = if mask & 8 != 0 { b'R' } else { b'r' };
        let b1 = if mask & 4 != 0 { b'U' } else { b'u' };
        let b2 = if mask & 2 != 0 { b'S' } else { b's' };
        let b3 = if mask & 1 != 0 { b'T' } else { b't' };
        let t = ChunkType::try_from([b0, b1, b2, b3]).unwrap();
        assert_eq!(t.is_critical(), mask & 8 != 0);
        assert_eq!(t.is_public(), mask & 4 != 0);
        assert_eq!(t.is_reserved_bit_valid(), mask & 2 != 0);
        assert_eq!(t.is_safe_to_copy(), mask & 1 == 0);
        assert_eq!(t.is_valid(), mask & 2 != 0);
    }
}

#[test]
fn test_from_str_rejects_wrong_length() {
    assert_eq!(
        ChunkType::from_str("RuS").unwrap_err(),
        ChunkDecodingError::InvalidByte
    );
    assert_eq!(
        ChunkType::from_str("RuStX").unwrap_err(),
        ChunkDecodingError::InvalidByte
    );
    assert_eq!(
        ChunkType::from_str("").unwrap_err(),
        ChunkDecodingError::InvalidByte
    );
}

#[test]
fn test_from_str_round_trips() {
    for s in ["RuSt", "ruSt", "RUSt", "RuST", "abCd", "WXyZ"] {
        let t = ChunkType::from_str(s).unwrap();
        assert_eq!(t.to_text().unwrap(), s);
    }
}

#[test]
fn test_to_text_rejects_invalid_encoding() {
    let t = ChunkType::try_from([0xff, 0xfe, 0x80, 0x00]).unwrap();
    assert_eq!(t.to_text().unwrap_err(), ChunkDecodingError::InvalidUtf8);
}

#[test]
fn test_is_valid_byte() {
    assert!(ChunkType::is_valid_byte(b'A'));
    assert!(ChunkType::is_valid_byte(b'Z'));
    assert!(ChunkType::is_valid_byte(b'a'));
    assert!(ChunkType::is_valid_byte(b'z'));
    assert!(!ChunkType::is_valid_byte(b'1'));
    assert!(!ChunkType::is_valid_byte(b' '));
    assert!(!ChunkType::is_valid_byte(0x80));
}
