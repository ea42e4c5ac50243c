use pngchunk::{Chunk, ChunkError, ChunkType};
use std::convert::TryFrom;
use std::str::FromStr;

fn testing_chunk() -> Chunk {
    let chunk_type = ChunkType::from_str("RuSt").unwrap();
    let data: Vec<u8> = "This is where your secret message will be!"
        .bytes()
        .collect();
    Chunk::new(chunk_type, data)
}

fn frame(data_length: u32, chunk_type: &[u8], message_bytes: &[u8], crc: u32) -> Vec<u8> {
    data_length
        .to_be_bytes()
        .iter()
        .chain(chunk_type.iter())
        .chain(message_bytes.iter())
        .chain(crc.to_be_bytes().iter())
        .copied()
        .collect()
}

#[test]
fn test_new_chunk() {
    let chunk_type = ChunkType::from_str("RuSt").unwrap();
    let data = "This is where your secret message will be!"
        .as_bytes()
        .to_vec();
    let chunk = Chunk::new(chunk_type, data);
    assert_eq!(chunk.length(), 42);
    assert_eq!(chunk.crc(), 2882656334);
}

#[test]
fn test_chunk_length() {
    let chunk = testing_chunk();
    assert_eq!(chunk.length(), 42);
}

#[test]
fn test_chunk_type() {
    let chunk = testing_chunk();
    assert_eq!(chunk.chunk_type().to_string().unwrap(), String::from("RuSt"));
}

#[test]
fn test_chunk_string() {
    let chunk = testing_chunk();
    let chunk_string = chunk.data_as_string().unwrap();
    let expected_chunk_string = String::from("This is where your secret message will be!");
    assert_eq!(chunk_string, expected_chunk_string);
}

#[test]
fn test_chunk_crc() {
    let chunk = testing_chunk();
    assert_eq!(chunk.crc(), 2882656334);
}

#[test]
fn test_valid_chunk_from_bytes() {
    let data_length: u32 = 42;
    let chunk_type = b"RuSt";
    let message_bytes = "This is where your secret message will be!".as_bytes();
    let crc: u32 = 2882656334;

    let chunk_data: Vec<u8> = data_length
        .to_be_bytes()
        .iter()
        .chain(chunk_type.iter())
        .chain(message_bytes.iter())
        .chain(crc.to_be_bytes().iter())
        .copied()
        .collect();

    let chunk = Chunk::try_from(chunk_data.as_ref()).unwrap();

    let chunk_string = chunk.data_as_string().unwrap();
    let expected_chunk_string = String::from("This is where your secret message will be!");

    assert_eq!(chunk.length(), 42);
    assert_eq!(chunk.chunk_type().to_string().unwrap(), String::from("RuSt"));
    assert_eq!(chunk_string, expected_chunk_string);
    assert_eq!(chunk.crc(), 2882656334);
}

#[test]
fn test_invalid_chunk_from_bytes() {
    let data_length: u32 = 42;
    let chunk_type = "RuSt".as_bytes();
    let message_bytes = "This is where your secret message will be!".as_bytes();
    let crc: u32 = 2882656333;

    let chunk_data: Vec<u8> = data_length
        .to_be_bytes()
        .iter()
        .chain(chunk_type.iter())
        .chain(message_bytes.iter())
        .chain(crc.to_be_bytes().iter())
        .copied()
        .collect();

    let chunk = Chunk::try_from(chunk_data.as_ref());

    assert!(chunk.is_err());
}

#[test]
pub fn test_chunk_trait_impls() {
    let data_length: u32 = 42;
    let chunk_type = "RuSt".as_bytes();
    let message_bytes = "This is where your secret message will be!".as_bytes();
    let crc: u32 = 2882656334;

    let chunk_data: Vec<u8> = data_length
        .to_be_bytes()
        .iter()
        .chain(chunk_type.iter())
        .chain(message_bytes.iter())
        .chain(crc.to_be_bytes().iter())
        .copied()
        .collect();

    let chunk: Chunk = Chunk::try_from(chunk_data.as_ref()).unwrap();

    let _chunk_string = chunk.to_string();
}

#[test]
fn serialized_layout_is_exact() {
    let chunk = testing_chunk();
    let bytes = chunk.as_bytes();
    let message = "This is where your secret message will be!".as_bytes();
    assert_eq!(bytes, frame(42, b"RuSt", message, 2882656334));
    assert_eq!(bytes.len(), 12 + 42);
}

#[test]
fn serialized_with_given_crc() {
    let chunk = Chunk::new(ChunkType::from_str("IEND").unwrap(), vec![1, 2]);
    assert_eq!(
        chunk.as_bytes_with_crc(0x0102_0304),
        vec![0, 0, 0, 2, b'I', b'E', b'N', b'D', 1, 2, 1, 2, 3, 4]
    );
}

#[test]
fn empty_iend_chunk_has_standard_crc() {
    // The IEND chunk of every PNG file: empty payload, CRC AE 42 60 82.
    let chunk = Chunk::new(ChunkType::from_str("IEND").unwrap(), Vec::new());
    assert_eq!(chunk.length(), 0);
    assert_eq!(chunk.crc(), 0xAE42_6082);
    assert_eq!(
        chunk.as_bytes(),
        vec![0, 0, 0, 0, b'I', b'E', b'N', b'D', 0xAE, 0x42, 0x60, 0x82]
    );
}

#[test]
fn crc_is_the_same_on_each_call() {
    let chunk = testing_chunk();
    assert_eq!(chunk.crc(), chunk.crc());
    let copy = Chunk::new(*chunk.chunk_type(), chunk.chunk_data.clone());
    assert_eq!(chunk.crc(), copy.crc());
}

#[test]
fn round_trip_keeps_tag_payload_and_crc() {
    let payloads: Vec<Vec<u8>> = vec![Vec::new(), vec![0], vec![0xff; 300], b"hello".to_vec()];
    for p in payloads {
        let chunk = Chunk::new(ChunkType::from_str("ruSt").unwrap(), p.clone());
        let parsed = Chunk::try_from(chunk.as_bytes().as_slice()).unwrap();
        assert_eq!(parsed.chunk_type().bytes(), *b"ruSt");
        assert_eq!(parsed.chunk_data, p);
        assert_eq!(parsed.crc(), chunk.crc());
    }
}

#[test]
fn trailing_bytes_are_left_alone() {
    let mut bytes = testing_chunk().as_bytes();
    bytes.extend_from_slice(&[9, 9, 9]);
    let parsed = Chunk::try_from(bytes.as_slice()).unwrap();
    assert_eq!(parsed.length(), 42);
}

#[test]
fn short_buffer_is_too_small() {
    for n in 0..12 {
        let bytes = vec![0u8; n];
        assert!(matches!(Chunk::try_from(bytes.as_slice()), Err(ChunkError::InvalidInput(_))));
    }
}

#[test]
fn length_past_end_is_invalid_input() {
    let bytes = frame(5, b"RuSt", &[1, 2], 0);
    assert!(matches!(Chunk::try_from(bytes.as_slice()), Err(ChunkError::InvalidInput(_))));
}

#[test]
fn tampered_crc_reports_both_values() {
    let mut bytes = testing_chunk().as_bytes();
    let last = bytes.len() - 1;
    bytes[last] ^= 0x01;
    let claimed = 2882656334u32 ^ 0x01;
    assert_eq!(
        Chunk::try_from(bytes.as_slice()).unwrap_err(),
        ChunkError::InvalidCheckSum(claimed, 2882656334)
    );
    let mut bytes = testing_chunk().as_bytes();
    bytes[8 + 42] ^= 0x80;
    assert_eq!(
        Chunk::try_from(bytes.as_slice()).unwrap_err(),
        ChunkError::InvalidCheckSum(2882656334 ^ 0x8000_0000, 2882656334)
    );
}

#[test]
fn invalid_tag_rejected_before_crc() {
    let message = "This is where your secret message will be!".as_bytes();
    let tampered = Chunk::new(ChunkType::try_from(*b"Rust").unwrap(), message.to_vec());
    // The CRC field matches the tampered tag, and still the type is refused.
    let bytes = tampered.as_bytes();
    assert_eq!(Chunk::try_from(bytes.as_slice()).unwrap_err(), ChunkError::InvalidChunkType);
    // Even with a length field that overruns the buffer, the type is checked first.
    let bytes = frame(1000, b"Ru1t", &[], 0);
    assert_eq!(Chunk::try_from(bytes.as_slice()).unwrap_err(), ChunkError::InvalidChunkType);
}

#[test]
fn non_utf8_payload_is_not_text() {
    let chunk = Chunk::new(ChunkType::from_str("RuSt").unwrap(), vec![0xff, 0xfe]);
    assert_eq!(chunk.data_as_string(), Err(ChunkError::NotText));
    assert_eq!(chunk.to_string(), "Err(NotText)");
}

#[test]
fn chunk_renders_payload_text() {
    let chunk = testing_chunk();
    assert_eq!(chunk.to_string(), "Ok(\"This is where your secret message will be!\")");
}

#[test]
fn chunk_rendering_escapes_text() {
    let chunk = Chunk::new(ChunkType::from_str("RuSt").unwrap(), b"a\"b\n".to_vec());
    assert_eq!(chunk.to_string(), "Ok(\"a\\\"b\\n\")");
    let empty = Chunk::new(ChunkType::from_str("RuSt").unwrap(), Vec::new());
    assert_eq!(empty.to_string(), "Ok(\"\")");
}

#[test]
fn render_ok_wraps_given_debug_form() {
    assert_eq!(Chunk::render_ok("\"ab\""), "Ok(\"ab\")");
    assert_eq!(Chunk::render_ok(""), "Ok()");
}

#[test]
fn chunks_compare_by_tag_and_payload() {
    let a = testing_chunk();
    let b = testing_chunk();
    assert!(a == b);
    let c = Chunk::new(ChunkType::from_str("RuST").unwrap(), a.chunk_data.clone());
    assert!(a != c);
    let d = Chunk::new(*a.chunk_type(), b"This is where your secret message will be?".to_vec());
    assert!(a != d);
    let e = Chunk::new(*a.chunk_type(), Vec::new());
    assert!(a != e);
}

#[test]
fn layout_constants() {
    assert_eq!(Chunk::LEN_DATA_LENGTH, 4);
    assert_eq!(Chunk::CHUNK_TYPE_LENGTH, 4);
    assert_eq!(Chunk::CRC_LENGTH, 4);
    assert_eq!(Chunk::META_DATA_LENGTH, 12);
}

#[test]
fn chunk_error_messages() {
    assert_eq!(
        ChunkError::InvalidCheckSum(2882656333, 2882656334).to_string(),
        "The checksum should be '2882656333' but found '2882656334' instead"
    );
    assert_eq!(
        ChunkError::InvalidChunkType.to_string(),
        "A chunk contains an invalid chunk type"
    );
    assert_eq!(ChunkError::InvalidInput(String::from("short")).to_string(), "short");
    assert_eq!(
        ChunkError::InvalidCheckSum(0, u32::MAX).to_string(),
        "The checksum should be '0' but found '4294967295' instead"
    );
}
