//! Chunk framing: decode, encode, classification, stream termination.
use png_rs::chunk::{
    u32_from_be, u32_to_be, Chunk, ChunkError, ChunkLocation, ChunkProperties, ChunkStage, Chunks,
    MAX_CHUNK_LENGTH,
};

/// The serialized record of one chunk, checksum recomputed.
fn record(ch_type: [u8; 4], payload: &[u8]) -> Vec<u8> {
    let chunk = Chunk::new(payload.len() as u32, ch_type, payload.to_vec(), [0u8; 4]);
    let mut out: Vec<u8> = Vec::new();
    chunk.write_to(&mut out);
    out
}

#[test]
fn classification_idat() {
    let mut props = ChunkProperties::new();
    ChunkProperties::from_type(b"IDAT", &mut props);
    assert!(!props.ancillary);
    assert!(!props.private);
    assert!(!props.reserved);
    assert!(!props.safe_to_copy);
}

#[test]
fn classification_text() {
    let mut props = ChunkProperties::new();
    ChunkProperties::from_type(b"tEXt", &mut props);
    assert!(props.ancillary);
    assert!(!props.private);
    assert!(!props.reserved);
    assert!(props.safe_to_copy);
}

#[test]
fn default_properties_are_ancillary() {
    let props = ChunkProperties::new();
    assert!(props.ancillary);
    assert!(!props.private);
    assert!(!props.reserved);
    assert!(!props.safe_to_copy);
}

#[test]
fn locations() {
    assert_eq!(Chunk::get_location(b"IHDR"), ChunkLocation::Start);
    assert_eq!(Chunk::get_location(b"IEND"), ChunkLocation::End);
    assert_eq!(Chunk::get_location(b"IDAT"), ChunkLocation::Unknown);
    assert_eq!(Chunk::get_location(b"pHYs"), ChunkLocation::Unknown);
}

#[test]
fn empty_chunk() {
    let c = Chunk::empty();
    assert_eq!(c.length, 0);
    assert_eq!(c.ch_type, [0u8; 4]);
    assert_eq!(c.data.len(), 0);
    assert_eq!(c.crc, [0u8; 4]);
    assert_eq!(c.location, ChunkLocation::Unknown);
}

#[test]
fn u32_conversions() {
    assert_eq!(u32_from_be(0x12, 0x34, 0x56, 0x78), 0x12345678);
    assert_eq!(u32_to_be(0x12345678), [0x12, 0x34, 0x56, 0x78]);
    assert_eq!(u32_to_be(0xFFFFFFFF), [0xFF, 0xFF, 0xFF, 0xFF]);
    assert_eq!(u32_from_be(0, 0, 0, 0), 0);
}

#[test]
fn known_end_record() {
    // The end-marker record is fully determined: zero length, "IEND", and
    // the checksum of the bare type code.
    let out = record(*b"IEND", &[]);
    assert_eq!(
        out,
        vec![0x00, 0x00, 0x00, 0x00, 0x49, 0x45, 0x4E, 0x44, 0xAE, 0x42, 0x60, 0x82]
    );
}

#[test]
fn chunk_round_trip() {
    let payload = vec![10u8, 20, 30, 40, 50];
    let bytes = record(*b"IDAT", &payload);
    let mut pos: usize = 0;
    let chunk = Chunk::next_from_buffer(&bytes, &mut pos).expect("decode failed");
    assert_eq!(pos, bytes.len());
    assert_eq!(chunk.length, 5);
    assert_eq!(chunk.ch_type, *b"IDAT");
    assert_eq!(chunk.data, payload);
    let mut out: Vec<u8> = Vec::new();
    chunk.write_to(&mut out);
    assert_eq!(out, bytes);
}

#[test]
fn stream_round_trip() {
    let mut bytes: Vec<u8> = Vec::new();
    bytes.extend_from_slice(&record(
        *b"IHDR",
        &[0, 0, 0, 1, 0, 0, 0, 1, 8, 2, 0, 0, 0],
    ));
    bytes.extend_from_slice(&record(*b"IDAT", &[1, 2, 3]));
    bytes.extend_from_slice(&record(*b"IEND", &[]));

    let mut stream = Chunks::new(bytes.clone());
    let mut out: Vec<u8> = Vec::new();
    while let Some(item) = stream.next() {
        let chunk = item.expect("decode failed");
        chunk.write_to(&mut out);
    }
    assert_eq!(out, bytes);
}

#[test]
fn checksum_enforcement() {
    let mut bytes = record(*b"IDAT", &[7u8, 8, 9]);
    let last: usize = bytes.len() - 1;
    bytes[last] ^= 0x01;  // flip one bit of the stored checksum
    let mut stream = Chunks::new(bytes);
    match stream.next() {
        Some(Err(ChunkError::ChecksumMismatch { expected, actual })) => {
            assert_ne!(expected, actual);
        },
        other => panic!("expected a checksum mismatch, got {:?}", other),
    }
    // The stream is ended: nothing further is ever yielded.
    assert!(stream.next().is_none());
    assert!(stream.next().is_none());
}

#[test]
fn termination_ignores_trailing_garbage() {
    let mut bytes: Vec<u8> = Vec::new();
    bytes.extend_from_slice(&record(
        *b"IHDR",
        &[0, 0, 0, 1, 0, 0, 0, 1, 8, 2, 0, 0, 0],
    ));
    bytes.extend_from_slice(&record(*b"IDAT", &[1, 2, 3]));
    bytes.extend_from_slice(&record(*b"IEND", &[]));
    let end_of_chunks: usize = bytes.len();
    bytes.extend_from_slice(&[0xDE, 0xAD, 0xBE]);  // trailing garbage

    let mut stream = Chunks::new(bytes);
    let mut yielded: usize = 0;
    while let Some(item) = stream.next() {
        item.expect("decode failed");
        yielded += 1;
    }
    assert_eq!(yielded, 3usize);
    // The trailing bytes were never read.
    assert_eq!(stream.position(), end_of_chunks);
}

#[test]
fn truncation_in_length_field() {
    let bytes = vec![0x00u8, 0x01];
    let mut pos: usize = 0;
    let r = Chunk::next_from_buffer(&bytes, &mut pos);
    assert_eq!(r.unwrap_err(), ChunkError::Truncated { stage: ChunkStage::Length });
}

#[test]
fn truncation_in_type_field() {
    let bytes = vec![0x00u8, 0x00, 0x00, 0x00, 0x49, 0x45];
    let mut pos: usize = 0;
    let r = Chunk::next_from_buffer(&bytes, &mut pos);
    assert_eq!(r.unwrap_err(), ChunkError::Truncated { stage: ChunkStage::Type });
}

#[test]
fn truncation_in_data() {
    // Declares 5 payload bytes but holds only 2.
    let bytes = vec![0x00u8, 0x00, 0x00, 0x05, 0x49, 0x44, 0x41, 0x54, 0x01, 0x02];
    let mut pos: usize = 0;
    let r = Chunk::next_from_buffer(&bytes, &mut pos);
    assert_eq!(r.unwrap_err(), ChunkError::Truncated { stage: ChunkStage::Data });
}

#[test]
fn truncation_in_checksum() {
    // A full zero-length chunk header but only 2 of the 4 checksum bytes.
    let bytes = vec![0x00u8, 0x00, 0x00, 0x00, 0x49, 0x45, 0x4E, 0x44, 0xAE, 0x42];
    let mut pos: usize = 0;
    let r = Chunk::next_from_buffer(&bytes, &mut pos);
    assert_eq!(r.unwrap_err(), ChunkError::Truncated { stage: ChunkStage::Checksum });
}

#[test]
fn length_guard() {
    let mut bytes = vec![0xFFu8, 0xFF, 0xFF, 0xFF, 0x49, 0x44, 0x41, 0x54];
    bytes.extend_from_slice(&[0u8; 32]);
    let mut pos: usize = 0;
    let r = Chunk::next_from_buffer(&bytes, &mut pos);
    assert_eq!(r.unwrap_err(), ChunkError::LengthOutOfBounds);
    assert_eq!(pos, 8);
    assert!(0xFFFFFFFFu32 > MAX_CHUNK_LENGTH);
}

#[test]
fn new_chunk_classifies_its_type() {
    let c = Chunk::new(0, *b"tEXt", Vec::new(), [0u8; 4]);
    assert!(c.properties.ancillary);
    assert!(!c.properties.private);
    assert!(!c.properties.reserved);
    assert!(c.properties.safe_to_copy);
    assert_eq!(c.location, ChunkLocation::Unknown);
    let d = Chunk::new(0, *b"IDAT", Vec::new(), [0u8; 4]);
    assert!(!d.properties.ancillary);
    assert!(!d.properties.safe_to_copy);
}

#[test]
fn clone_keeps_fields() {
    let chunk = Chunk::new(3, *b"IDAT", vec![1, 2, 3], [9, 9, 9, 9]);
    let copy = chunk.clone();
    assert_eq!(copy.length, chunk.length);
    assert_eq!(copy.ch_type, chunk.ch_type);
    assert_eq!(copy.data, chunk.data);
    assert_eq!(copy.crc, chunk.crc);
    assert_eq!(copy.location, chunk.location);
}
