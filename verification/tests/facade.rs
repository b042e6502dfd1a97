//! The decode/encode facades and payload routing: signature handling,
//! header, time, text and pixel-data chunks.
use png_rs::chunk::{Chunk, ChunkError};
use png_rs::data::{is_data_chunk, ImageData};
use png_rs::decoder::{signature_bytes, ImageDecoder};
use png_rs::encoder::ImageEncoder;
use png_rs::image::{is_header_chunk, ColorType, FormatError, ImageInfo};
use png_rs::Image;

/// A zlib stream (one stored deflate block) whose decompressed content is
/// "abc".
const ZLIB_ABC: [u8; 14] = [
    0x78, 0x01, 0x01, 0x03, 0x00, 0xFC, 0xFF, 0x61, 0x62, 0x63, 0x02, 0x4D, 0x01, 0x27,
];

const HEADER_PAYLOAD: [u8; 13] = [0, 0, 0, 1, 0, 0, 0, 1, 8, 2, 0, 0, 0];

fn chunk(ch_type: [u8; 4], payload: &[u8]) -> Chunk {
    Chunk::new(payload.len() as u32, ch_type, payload.to_vec(), [0u8; 4])
}

/// A complete image: signature, header, time, text, pixel data, end marker.
fn sample_image() -> Vec<u8> {
    let mut enc = ImageEncoder::new();
    enc.write_chunk(&chunk(*b"IHDR", &HEADER_PAYLOAD));
    enc.write_chunk(&chunk(*b"tIME", &[0x07, 0xD4, 12, 31, 23, 59, 58]));
    enc.write_chunk(&chunk(*b"tEXt", b"Title\0Hello"));
    enc.write_chunk(&chunk(*b"IDAT", &ZLIB_ABC));
    enc.write_chunk(&chunk(*b"IEND", &[]));
    enc.into_bytes()
}

#[test]
fn header_decode() {
    let c = chunk(*b"IHDR", &HEADER_PAYLOAD);
    let info = ImageInfo::from_ihdr(&c).expect("header decode failed");
    assert_eq!(info.width, 1);
    assert_eq!(info.height, 1);
    assert_eq!(info.bit_depth, 8);
    assert_eq!(info.color_type, ColorType::Truecolor);
    assert_eq!(info.compression_method, 0);
    assert_eq!(info.filter_method, 0);
    assert_eq!(info.interlace_method, 0);
}

#[test]
fn header_decode_rejects_other_chunks() {
    let c = chunk(*b"IDAT", &HEADER_PAYLOAD);
    assert_eq!(ImageInfo::from_ihdr(&c).unwrap_err(), FormatError::NotHeaderChunk);
}

#[test]
fn header_decode_rejects_short_payload() {
    let c = chunk(*b"IHDR", &[0, 0, 0, 1, 0]);
    assert_eq!(ImageInfo::from_ihdr(&c).unwrap_err(), FormatError::TruncatedHeader);
}

#[test]
fn header_from_info_keeps_filepath() {
    let c = chunk(*b"IHDR", &HEADER_PAYLOAD);
    let info = ImageInfo::from_info("sample.png", &c).expect("header decode failed");
    assert_eq!(info.filepath, "sample.png");
    assert_eq!(info.width, 1);
}

#[test]
fn color_types() {
    assert_eq!(ColorType::from(0isize), ColorType::Greyscale);
    assert_eq!(ColorType::from(2isize), ColorType::Truecolor);
    assert_eq!(ColorType::from(3isize), ColorType::IndexedColor);
    assert_eq!(ColorType::from(4isize), ColorType::GreyscaleAlpha);
    assert_eq!(ColorType::from(6isize), ColorType::TruecolorAlpha);
    assert_eq!(ColorType::from(5isize), ColorType::Unknown);
    assert_eq!(ColorType::from(-1isize), ColorType::Unknown);
}

#[test]
fn chunk_kind_predicates() {
    assert!(is_header_chunk(&chunk(*b"IHDR", &[])));
    assert!(!is_header_chunk(&chunk(*b"IDAT", &[])));
    assert!(is_data_chunk(&chunk(*b"IDAT", &[])));
    assert!(!is_data_chunk(&chunk(*b"IHDR", &[])));
}

#[test]
fn decoder_accepts_signature() {
    let image = sample_image();
    let mut dec = ImageDecoder::from_bytes(image).expect("signature rejected");
    let first = dec.next_chunk().expect("decode failed");
    assert_eq!(first.ch_type, *b"IHDR");
}

#[test]
fn decoder_rejects_bad_signature() {
    let mut image = sample_image();
    image[0] ^= 0x40;
    let r = ImageDecoder::from_bytes(image);
    assert_eq!(r.unwrap_err().message, "Invalid image signature");
}

#[test]
fn decoder_chunks_walks_the_stream() {
    let image = sample_image();
    let dec = ImageDecoder::from_bytes(image).expect("signature rejected");
    let mut stream = dec.chunks();
    let mut types: Vec<[u8; 4]> = Vec::new();
    while let Some(item) = stream.next() {
        types.push(item.expect("decode failed").ch_type);
    }
    assert_eq!(types, vec![*b"IHDR", *b"tIME", *b"tEXt", *b"IDAT", *b"IEND"]);
}

#[test]
fn encoder_starts_with_signature() {
    let enc = ImageEncoder::new();
    let bytes = enc.into_bytes();
    assert_eq!(bytes, signature_bytes().to_vec());
}

#[test]
fn image_data_collects_pixels() {
    let mut data = ImageData::empty();
    let c = chunk(*b"IDAT", &ZLIB_ABC);
    data.add_data(&c).expect("decompression failed");
    assert_eq!(data.pixels, b"abc".to_vec());
    data.add_data(&c).expect("decompression failed");
    assert_eq!(data.pixels, b"abcabc".to_vec());
}

#[test]
fn image_data_rejects_other_chunks() {
    let mut data = ImageData::empty();
    let c = chunk(*b"IHDR", &HEADER_PAYLOAD);
    assert_eq!(data.add_data(&c).unwrap_err(), ChunkError::NotDataChunk);
    assert_eq!(data.pixels.len(), 0);
}

#[test]
fn image_data_rejects_garbage_payload() {
    let mut data = ImageData::empty();
    let c = chunk(*b"IDAT", &[1, 2, 3]);
    let e = data.add_data(&c).unwrap_err();
    assert!(matches!(e, ChunkError::DecompressFailed { .. }));
    assert_eq!(data.pixels.len(), 0);
}

#[test]
fn image_routes_all_payloads() {
    let mut image = Image::from_bytes(sample_image());
    image.read_sig().expect("signature rejected");
    for _ in 0..5 {
        image.read_chunk().expect("chunk read failed");
    }
    assert_eq!(image.chunks.len(), 5);
    assert_eq!(image.info.width, 1);
    assert_eq!(image.info.height, 1);
    assert_eq!(image.info.bit_depth, 8);
    assert_eq!(image.info.color_type, 2);
    assert_eq!(image.time.year, 2004);
    assert_eq!(image.time.month, 12);
    assert_eq!(image.time.day, 31);
    assert_eq!(image.time.hour, 23);
    assert_eq!(image.time.minute, 59);
    assert_eq!(image.time.second, 58);
    assert_eq!(image.keywords.len(), 1);
    assert_eq!(image.keywords[0].0, "Title");
    assert_eq!(image.keywords[0].1, "Hello");
    assert_eq!(image.data.data, b"abc".to_vec());
}

#[test]
fn image_read_sig_consumes_bytes_on_failure() {
    let mut bytes = sample_image();
    bytes[7] = 0;
    let mut image = Image::from_bytes(bytes);
    let e = image.read_sig().unwrap_err();
    assert_eq!(e.message, "Invalid image signature");
    // The 8 bytes are consumed even though validation failed.
    let e2 = image.read_sig().unwrap_err();
    assert_eq!(e2.message, "Invalid image signature");
}

#[test]
fn image_read_sig_short_stream() {
    let mut image = Image::from_bytes(vec![137, 80, 78]);
    let e = image.read_sig().unwrap_err();
    assert_eq!(e.message, "Couldn't read the image signature");
}

#[test]
fn text_chunk_with_multibyte_key() {
    let mut image = Image::from_bytes(Vec::new());
    // "ké" in UTF-8, a zero separator, then "v".
    let c = chunk(*b"tEXt", &[0x6B, 0xC3, 0xA9, 0x00, 0x76]);
    image.parse_chunk(&c).expect("text routing failed");
    assert_eq!(image.keywords[0].0, "k\u{e9}");
    assert_eq!(image.keywords[0].1, "v");
}

#[test]
fn text_chunk_replaces_duplicate_key() {
    let mut image = Image::from_bytes(Vec::new());
    image.parse_chunk(&chunk(*b"tEXt", b"Title\0Hello")).expect("text routing failed");
    image.parse_chunk(&chunk(*b"tEXt", b"Author\0Me")).expect("text routing failed");
    image.parse_chunk(&chunk(*b"tEXt", b"Title\0Replaced")).expect("text routing failed");
    assert_eq!(image.keywords.len(), 2);
    assert_eq!(image.keywords[0].0, "Title");
    assert_eq!(image.keywords[0].1, "Replaced");
    assert_eq!(image.keywords[1].0, "Author");
    assert_eq!(image.keywords[1].1, "Me");
}

#[test]
fn read_chunk_reports_truncation() {
    let mut bytes = signature_bytes().to_vec();
    bytes.extend_from_slice(&[0x00, 0x01]);
    let mut image = Image::from_bytes(bytes);
    image.read_sig().expect("signature rejected");
    let e = image.read_chunk().unwrap_err();
    assert_eq!(e.message, "Failed to read chunk length");
}

#[test]
fn text_chunk_without_separator() {
    let mut image = Image::from_bytes(Vec::new());
    let c = chunk(*b"tEXt", b"OnlyAKey");
    let e = image.parse_chunk(&c).unwrap_err();
    assert_eq!(e.message, "Couldn't read the value of a tEXt chunk");
    assert_eq!(image.keywords.len(), 0);
}

#[test]
fn text_chunk_with_invalid_key() {
    let mut image = Image::from_bytes(Vec::new());
    let c = chunk(*b"tEXt", &[0xFF, 0x00, 0x41]);
    let e = image.parse_chunk(&c).unwrap_err();
    assert_eq!(e.message, "Couldn't read the key of a tEXt chunk");
}

#[test]
fn text_chunk_with_invalid_value() {
    let mut image = Image::from_bytes(Vec::new());
    let c = chunk(*b"tEXt", &[0x41, 0x00, 0xFF]);
    let e = image.parse_chunk(&c).unwrap_err();
    assert_eq!(e.message, "Couldn't read the value of a tEXt chunk");
}

#[test]
fn time_chunk_with_short_payload() {
    let mut image = Image::from_bytes(Vec::new());
    let c = chunk(*b"tIME", &[0x07, 0xD4, 12]);
    let e = image.parse_chunk(&c).unwrap_err();
    assert_eq!(e.message, "Truncated time chunk");
}

#[test]
fn header_chunk_with_short_payload() {
    let mut image = Image::from_bytes(Vec::new());
    let c = chunk(*b"IHDR", &[0, 0, 0, 1]);
    let e = image.parse_chunk(&c).unwrap_err();
    assert_eq!(e.message, "Truncated header chunk");
}

#[test]
fn unknown_chunks_are_passed_over() {
    let mut image = Image::from_bytes(Vec::new());
    let c = chunk(*b"pHYs", &[0, 0, 0, 1, 0, 0, 0, 1, 1]);
    image.parse_chunk(&c).expect("unknown chunk should be ignored");
    assert_eq!(image.chunks.len(), 0);
    assert_eq!(image.keywords.len(), 0);
}

#[test]
fn read_chunk_fails_on_corrupt_stream() {
    let mut bytes = sample_image();
    let last: usize = bytes.len() - 1;
    bytes[last] ^= 0x01;
    let mut image = Image::from_bytes(bytes);
    image.read_sig().expect("signature rejected");
    for _ in 0..4 {
        image.read_chunk().expect("chunk read failed");
    }
    let e = image.read_chunk().unwrap_err();
    assert_eq!(e.message, "Chunk data may be corrupted");
    assert_eq!(image.chunks.len(), 4);
}
