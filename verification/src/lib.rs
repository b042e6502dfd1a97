//! A verified codec for a chunk-based raster image container format.
//!
//! The format is a fixed 8-byte signature followed by a sequence of
//! self-describing records ("chunks"), each carrying a length, a 4-byte
//! type code, a payload and a 32-bit cyclic redundancy checksum over the
//! type code and payload. This root module ties the pieces together: an
//! [`Image`] walks one byte cursor, validates the signature, pulls chunks
//! and routes the recognized payloads (header, time, text, pixel data) into
//! structured fields.
use vstd::prelude::*;

pub mod chunk;
pub mod data;
pub mod decoder;
pub mod encoder;
pub mod image;

use crate::chunk::{
    be16, be32, chunk_wf, idat_type, ihdr_type, spec_chunk_at, spec_pos_after, text_type,
    time_type, u16_from_be, u32_from_be, Chunk, ChunkError, ChunkStage,
};
use crate::data::{inflate, inflate_of, is_data_chunk};
use crate::decoder::{signature_seq, ImageDecoder};

verus! {

#[derive(Debug)]
pub struct ImageError {
    pub message: String,
}

impl ImageError {
    pub fn new(message: String) -> (r: Self)
        ensures
            r.message == message,
    {
        ImageError { message }
    }
}

/// The header chunk's metadata with the color type kept as the raw code
/// byte.
#[derive(Debug, PartialEq, Eq, Clone, Copy, Structural)]
pub struct ImageInfo {
    pub width: u32,
    pub height: u32,
    pub bit_depth: u8,
    pub color_type: u8,
    pub compression_method: u8,
    pub filter_method: u8,
    pub interlace_method: u8,
}

/// The header chunk's 13-byte payload layout, with the color type kept raw.
pub open spec fn info_fields_ok(info: ImageInfo, d: Seq<u8>) -> bool
    recommends
        d.len() == 13,
{
    &&& info.width == be32(d.subrange(0, 4))
    &&& info.height == be32(d.subrange(4, 8))
    &&& info.bit_depth == d[8]
    &&& info.color_type == d[9]
    &&& info.compression_method == d[10]
    &&& info.filter_method == d[11]
    &&& info.interlace_method == d[12]
}

impl ImageInfo {
    pub fn empty() -> (r: Self)
        ensures
            r == (ImageInfo {
                width: 0,
                height: 0,
                bit_depth: 0,
                color_type: 0,
                compression_method: 0,
                filter_method: 0,
                interlace_method: 0,
            }),
    {
        ImageInfo {
            width: 0,
            height: 0,
            bit_depth: 0,
            color_type: 0,
            compression_method: 0,
            filter_method: 0,
            interlace_method: 0,
        }
    }
}

#[derive(Debug, PartialEq, Eq, Clone, Copy, Structural)]
pub struct ImageTime {
    pub year: u16,
    pub month: u8,
    pub day: u8,
    pub hour: u8,
    pub minute: u8,
    pub second: u8,
}

/// The time chunk's 7-byte payload layout: a big-endian 16-bit year, then
/// month, day, hour, minute and second, one byte each.
pub open spec fn time_fields_ok(t: ImageTime, d: Seq<u8>) -> bool
    recommends
        d.len() == 7,
{
    &&& t.year == be16(d.subrange(0, 2))
    &&& t.month == d[2]
    &&& t.day == d[3]
    &&& t.hour == d[4]
    &&& t.minute == d[5]
    &&& t.second == d[6]
}

impl ImageTime {
    pub fn empty() -> (r: Self)
        ensures
            r == (ImageTime { year: 0, month: 0, day: 0, hour: 0, minute: 0, second: 0 }),
    {
        ImageTime { year: 0, month: 0, day: 0, hour: 0, minute: 0, second: 0 }
    }
}

/// The decompressed pixel bytes of the image, as the external decompression
/// collaborator handed them back.
pub struct ImageData {
    pub info: ImageInfo,
    pub data: Vec<u8>,
    pub index: usize,
}

impl ImageData {
    pub fn new(info: ImageInfo) -> (r: Self)
        ensures
            r.info == info,
            r.data@ == Seq::<u8>::empty(),
            r.index == 0,
    {
        ImageData { info, data: Vec::new(), index: 0 }
    }

    /// Replace the held pixel bytes with a freshly decompressed batch.
    pub fn load_data(&mut self, data: Vec<u8>)
        ensures
            final(self).data == data,
            final(self).info == old(self).info,
            final(self).index == old(self).index,
    {
        self.data = data;
    }
}

// ---------------------------------------------------------------------------
// Text payloads
// ---------------------------------------------------------------------------

/// What UTF-8 decoding makes of a byte sequence: its characters, or nothing
/// where the bytes are not valid UTF-8.
pub uninterp spec fn utf8_of(bytes: Seq<u8>) -> Option<Seq<char>>;

/// Relies on str::from_utf8: it accepts exactly the valid UTF-8 byte
/// sequences, and the characters decoded are a function of the bytes alone.
#[verifier::external_body]
fn utf8_to_string(bytes: &Vec<u8>) -> (r: Option<String>)
    ensures
        match r {
            Some(s) => utf8_of(bytes@) == Some(s@),
            None => utf8_of(bytes@) is None,
        },
{
    match std::str::from_utf8(bytes.as_slice()) {
        Ok(s) => Some(s.to_owned()),
        Err(_) => None,
    }
}

/// The smallest index at or after `i` holding a zero byte, or the length of
/// `d` where there is none.
pub open spec fn first_zero_from(d: Seq<u8>, i: int) -> int
    recommends
        0 <= i <= d.len(),
    decreases d.len() - i,
    when 0 <= i <= d.len()
{
    if i >= d.len() {
        d.len() as int
    } else if d[i] == 0 {
        i
    } else {
        first_zero_from(d, i + 1)
    }
}

/// A text payload's key: the bytes before the first zero separator.
pub open spec fn text_key_bytes(d: Seq<u8>) -> Seq<u8> {
    d.subrange(0, first_zero_from(d, 0))
}

/// Whether a text payload has a zero separator at all, and with it a value.
pub open spec fn text_has_value(d: Seq<u8>) -> bool {
    first_zero_from(d, 0) < d.len()
}

/// A text payload's value: the bytes between the first zero separator and
/// the next zero (or the payload's end).
pub open spec fn text_value_bytes(d: Seq<u8>) -> Seq<u8> {
    d.subrange(first_zero_from(d, 0) + 1, first_zero_from(d, first_zero_from(d, 0) + 1))
}

fn find_zero(d: &Vec<u8>, start: usize) -> (r: usize)
    requires
        start <= d@.len(),
    ensures
        r == first_zero_from(d@, start as int),
        start <= r <= d@.len(),
{
    let n = d.len();
    let mut i: usize = start;
    while i < n
        invariant
            start <= i <= n,
            n == d@.len(),
            first_zero_from(d@, start as int) == first_zero_from(d@, i as int),
        decreases n - i,
    {
        if d[i] == 0 {
            return i;
        }
        i += 1;
    }
    i
}

// ---------------------------------------------------------------------------
// The image facade
// ---------------------------------------------------------------------------

/// One image being decoded: the byte cursor, the chunks pulled so far, and
/// the structured payloads routed out of them.
pub struct Image {
    pub bytes: Vec<u8>,
    pub pos: usize,
    pub chunks: Vec<Chunk>,
    pub info: ImageInfo,
    pub time: ImageTime,
    pub keywords: Vec<(String, String)>,
    pub data: ImageData,
}

/// The smallest index whose entry's key reads `k`, starting the search at
/// `i`, or the length of `ks` where no entry's does.
pub open spec fn first_key_index(ks: Seq<(String, String)>, k: Seq<char>, i: int) -> int
    recommends
        0 <= i <= ks.len(),
    decreases ks.len() - i,
    when 0 <= i <= ks.len()
{
    if i >= ks.len() {
        ks.len() as int
    } else if ks[i].0@ == k {
        i
    } else {
        first_key_index(ks, k, i + 1)
    }
}

/// No two stored text entries share a key.
pub open spec fn keywords_unique(ks: Seq<(String, String)>) -> bool {
    forall|i: int, j: int| 0 <= i < j < ks.len() ==> ks[i].0@ != ks[j].0@
}

/// One text entry recorded: where an entry's key already reads `k`, the
/// first such entry is replaced in place; otherwise the pair is appended.
pub open spec fn keywords_updated(
    pre: Seq<(String, String)>,
    post: Seq<(String, String)>,
    k: Seq<char>,
    v: Seq<char>,
) -> bool {
    let i0 = first_key_index(pre, k, 0);
    if i0 < pre.len() {
        &&& post.len() == pre.len()
        &&& (forall|j: int| 0 <= j < pre.len() && j != i0 ==> post[j] == pre[j])
        &&& post[i0].0@ == k
        &&& post[i0].1@ == v
    } else {
        &&& post.len() == pre.len() + 1
        &&& post.subrange(0, pre.len() as int) == pre
        &&& post[pre.len() as int].0@ == k
        &&& post[pre.len() as int].1@ == v
    }
}

/// Whether routing one chunk's payload succeeds: the header payload must be
/// exactly 13 bytes, the time payload exactly 7, a text payload must hold a
/// separator and two valid UTF-8 pieces, a data payload must decompress,
/// and every unrecognized chunk is passed over successfully.
pub open spec fn spec_parse_ok(t: Seq<u8>, d: Seq<u8>) -> bool {
    if t == ihdr_type() {
        d.len() == 13
    } else if t == time_type() {
        d.len() == 7
    } else if t == text_type() {
        utf8_of(text_key_bytes(d)) is Some && text_has_value(d) && utf8_of(text_value_bytes(d))
            is Some
    } else if t == idat_type() {
        inflate_of(d) is Some
    } else {
        true
    }
}

/// How routing one chunk's payload changes the structured fields: the
/// header chunk fills `info`, the time chunk fills `time`, a text chunk
/// records one key/value pair (replacing the value of an already-seen key),
/// a data chunk replaces the pixel bytes, and anything else, or any rejected
/// payload, changes nothing.
pub open spec fn spec_parse_effect(pre: Image, post: Image, t: Seq<u8>, d: Seq<u8>) -> bool {
    if t == ihdr_type() && d.len() == 13 {
        &&& info_fields_ok(post.info, d)
        &&& post.time == pre.time
        &&& post.keywords == pre.keywords
        &&& post.data == pre.data
    } else if t == time_type() && d.len() == 7 {
        &&& time_fields_ok(post.time, d)
        &&& post.info == pre.info
        &&& post.keywords == pre.keywords
        &&& post.data == pre.data
    } else if t == text_type() && spec_parse_ok(t, d) {
        &&& (utf8_of(text_key_bytes(d)) matches Some(ks) && utf8_of(text_value_bytes(d)) matches Some(
        vs) && keywords_updated(pre.keywords@, post.keywords@, ks, vs))
        &&& post.info == pre.info
        &&& post.time == pre.time
        &&& post.data == pre.data
    } else if t == idat_type() && inflate_of(d) is Some {
        &&& (inflate_of(d) matches Some(v) && post.data.data@ == v)
        &&& post.data.info == pre.data.info
        &&& post.data.index == pre.data.index
        &&& post.info == pre.info
        &&& post.time == pre.time
        &&& post.keywords == pre.keywords
    } else {
        &&& post.info == pre.info
        &&& post.time == pre.time
        &&& post.keywords == pre.keywords
        &&& post.data == pre.data
    }
}

fn is_time_chunk(chunk: &Chunk) -> (r: bool)
    ensures
        r == (chunk.ch_type@ == time_type()),
{
    if chunk.ch_type[0] == 0x74 && chunk.ch_type[1] == 0x49 && chunk.ch_type[2] == 0x4D
        && chunk.ch_type[3] == 0x45 {
        proof {
            assert(chunk.ch_type@ =~= time_type());
        }
        true
    } else {
        false
    }
}

fn is_text_chunk(chunk: &Chunk) -> (r: bool)
    ensures
        r == (chunk.ch_type@ == text_type()),
{
    if chunk.ch_type[0] == 0x74 && chunk.ch_type[1] == 0x45 && chunk.ch_type[2] == 0x58
        && chunk.ch_type[3] == 0x74 {
        proof {
            assert(chunk.ch_type@ =~= text_type());
        }
        true
    } else {
        false
    }
}

impl Image {
    pub open spec fn wf(&self) -> bool {
        self.pos <= self.bytes@.len()
    }

    /// Begin decoding an image held in memory; nothing is consumed yet.
    pub fn from_bytes(bytes: Vec<u8>) -> (r: Self)
        ensures
            r.bytes == bytes,
            r.pos == 0,
            r.chunks@ == Seq::<Chunk>::empty(),
            r.info == (ImageInfo {
                width: 0,
                height: 0,
                bit_depth: 0,
                color_type: 0,
                compression_method: 0,
                filter_method: 0,
                interlace_method: 0,
            }),
            r.time == (ImageTime { year: 0, month: 0, day: 0, hour: 0, minute: 0, second: 0 }),
            r.keywords@ == Seq::<(String, String)>::empty(),
            r.data.data@ == Seq::<u8>::empty(),
            r.wf(),
    {
        Image {
            bytes,
            pos: 0,
            chunks: Vec::new(),
            info: ImageInfo::empty(),
            time: ImageTime::empty(),
            keywords: Vec::new(),
            data: ImageData::new(ImageInfo::empty()),
        }
    }

    /// Read and verify the image's signature. The 8 bytes are consumed
    /// whether or not they match; a failed check cannot be retried.
    pub fn read_sig(&mut self) -> (r: Result<(), ImageError>)
        requires
            old(self).wf(),
        ensures
            final(self).wf(),
            final(self).bytes == old(self).bytes,
            final(self).chunks == old(self).chunks,
            final(self).info == old(self).info,
            final(self).time == old(self).time,
            final(self).keywords == old(self).keywords,
            final(self).data == old(self).data,
            ({
                let s = old(self).bytes@;
                let p = old(self).pos as int;
                if s.len() < p + 8 {
                    &&& (r matches Err(e) && e.message@ == "Couldn't read the image signature"@)
                    &&& final(self).pos == s.len()
                } else {
                    &&& final(self).pos == p + 8
                    &&& (if s.subrange(p, p + 8) == signature_seq() {
                        r is Ok
                    } else {
                        (r matches Err(e) && e.message@ == "Invalid image signature"@)
                    })
                }
            }),
    {
        let n = self.bytes.len();
        if n - self.pos < 8 {
            self.pos = n;
            return Err(ImageError::new("Couldn't read the image signature".to_owned()));
        }
        match ImageDecoder::check_sig(&self.bytes, &mut self.pos) {
            Ok(_) => Ok(()),
            Err(_) => Err(ImageError::new("Invalid image signature".to_owned())),
        }
    }

    /// Route one chunk's payload into the structured fields. The cursor and
    /// the collected chunks are untouched; exactly the payloads that
    /// `spec_parse_ok` accepts are taken, with the effect `spec_parse_effect`
    /// states.
    pub fn parse_chunk(&mut self, chunk: &Chunk) -> (r: Result<(), ImageError>)
        ensures
            final(self).bytes == old(self).bytes,
            final(self).pos == old(self).pos,
            final(self).chunks == old(self).chunks,
            r is Ok <==> spec_parse_ok(chunk.ch_type@, chunk.data@),
            spec_parse_effect(*old(self), *final(self), chunk.ch_type@, chunk.data@),
            keywords_unique(old(self).keywords@) ==> keywords_unique(final(self).keywords@),
            chunk.ch_type@ == ihdr_type() && chunk.data@.len() != 13 ==> (r matches Err(e)
                && e.message@ == "Truncated header chunk"@),
            chunk.ch_type@ == time_type() && chunk.data@.len() != 7 ==> (r matches Err(e)
                && e.message@ == "Truncated time chunk"@),
            chunk.ch_type@ == text_type() && utf8_of(text_key_bytes(chunk.data@)) is None ==> (
            r matches Err(e) && e.message@ == "Couldn't read the key of a tEXt chunk"@),
            chunk.ch_type@ == text_type() && utf8_of(text_key_bytes(chunk.data@)) is Some && !(
            text_has_value(chunk.data@) && utf8_of(text_value_bytes(chunk.data@)) is Some) ==> (
            r matches Err(e) && e.message@ == "Couldn't read the value of a tEXt chunk"@),
    {
        if crate::image::is_header_chunk(chunk) {
            if chunk.data.len() != 13 {
                return Err(ImageError::new("Truncated header chunk".to_owned()));
            }
            let ghost d = chunk.data@;
            let width = u32_from_be(chunk.data[0], chunk.data[1], chunk.data[2], chunk.data[3]);
            let height = u32_from_be(chunk.data[4], chunk.data[5], chunk.data[6], chunk.data[7]);
            proof {
                assert(seq![d[0], d[1], d[2], d[3]] =~= d.subrange(0, 4));
                assert(seq![d[4], d[5], d[6], d[7]] =~= d.subrange(4, 8));
            }
            self.info = ImageInfo {
                width,
                height,
                bit_depth: chunk.data[8],
                color_type: chunk.data[9],
                compression_method: chunk.data[10],
                filter_method: chunk.data[11],
                interlace_method: chunk.data[12],
            };
            Ok(())
        } else if is_time_chunk(chunk) {
            if chunk.data.len() != 7 {
                return Err(ImageError::new("Truncated time chunk".to_owned()));
            }
            let ghost d = chunk.data@;
            let year = u16_from_be(chunk.data[0], chunk.data[1]);
            proof {
                assert(seq![d[0], d[1]] =~= d.subrange(0, 2));
            }
            self.time = ImageTime {
                year,
                month: chunk.data[2],
                day: chunk.data[3],
                hour: chunk.data[4],
                minute: chunk.data[5],
                second: chunk.data[6],
            };
            Ok(())
        } else if is_text_chunk(chunk) {
            let z0 = find_zero(&chunk.data, 0);
            let mut key_bytes: Vec<u8> = Vec::new();
            crate::chunk::push_range(&mut key_bytes, &chunk.data, 0, z0);
            let key = match utf8_to_string(&key_bytes) {
                Some(k) => k,
                None => {
                    return Err(ImageError::new("Couldn't read the key of a tEXt chunk".to_owned()));
                },
            };
            if z0 == chunk.data.len() {
                return Err(ImageError::new("Couldn't read the value of a tEXt chunk".to_owned()));
            }
            let z1 = find_zero(&chunk.data, z0 + 1);
            let mut value_bytes: Vec<u8> = Vec::new();
            crate::chunk::push_range(&mut value_bytes, &chunk.data, z0 + 1, z1);
            let value = match utf8_to_string(&value_bytes) {
                Some(v) => v,
                None => {
                    return Err(
                        ImageError::new("Couldn't read the value of a tEXt chunk".to_owned()),
                    );
                },
            };
            let ghost ks = key@;
            let ghost vs = value@;
            let ghost pre = old(self).keywords@;
            let n = self.keywords.len();
            let mut idx: usize = 0;
            #[verifier::loop_isolation(false)]
            while idx < n
                invariant
                    idx <= n,
                    *self == *old(self),
                    forall|j: int| 0 <= j < idx ==> pre[j].0@ != ks,
                    first_key_index(pre, ks, 0) == first_key_index(pre, ks, idx as int),
                decreases n - idx,
            {
                if self.keywords[idx].0 == key {
                    let ghost i0 = idx as int;
                    let ghost gpair = (key, value);
                    proof {
                        assert(first_key_index(pre, ks, 0) == i0);
                        pre.remove_ensures(i0);
                    }
                    let _replaced = self.keywords.remove(idx);
                    let ghost mid = self.keywords@;
                    self.keywords.insert(idx, (key, value));
                    proof {
                        mid.insert_ensures(i0, gpair);
                        let post = self.keywords@;
                        assert(post[i0] == gpair);
                        assert forall|j: int| 0 <= j < pre.len() && j != i0 implies post[j]
                            == pre[j] by {
                            if j < i0 {
                                assert(post[j] == mid[j]);
                                assert(mid[j] == pre[j]);
                            } else {
                                assert(post[j] == mid[j - 1]);
                                assert(mid[j - 1] == pre[j]);
                            }
                        }
                        assert(keywords_updated(pre, post, ks, vs));
                    }
                    return Ok(());
                }
                idx += 1;
            }
            self.keywords.push((key, value));
            proof {
                let post = self.keywords@;
                assert(first_key_index(pre, ks, 0) == pre.len());
                assert(post.subrange(0, pre.len() as int) =~= pre);
                assert(keywords_updated(pre, post, ks, vs));
                assert(keywords_unique(pre) ==> keywords_unique(post));
            }
            Ok(())
        } else if is_data_chunk(chunk) {
            match inflate(&chunk.data) {
                Ok(decoded) => {
                    self.data.load_data(decoded);
                    Ok(())
                },
                Err(message) => Err(ImageError::new(message)),
            }
        } else {
            Ok(())
        }
    }

    /// Pull the next chunk from the cursor, route its payload, and keep it.
    /// Fails exactly where chunk decoding fails or the payload is rejected;
    /// nothing is retained from a failed step.
    pub fn read_chunk(&mut self) -> (r: Result<Chunk, ImageError>)
        requires
            old(self).wf(),
        ensures
            final(self).wf(),
            final(self).bytes == old(self).bytes,
            final(self).pos == spec_pos_after(old(self).bytes@, old(self).pos as int),
            keywords_unique(old(self).keywords@) ==> keywords_unique(final(self).keywords@),
            ({
                let s = old(self).bytes@;
                let p = old(self).pos as int;
                match spec_chunk_at(s, p) {
                    Ok(m) => {
                        &&& spec_parse_effect(*old(self), *final(self), m.ch_type, m.data)
                        &&& if spec_parse_ok(m.ch_type, m.data) {
                            &&& (r matches Ok(c) && c@ == m && chunk_wf(c))
                            &&& final(self).chunks@.len() == old(self).chunks@.len() + 1
                            &&& final(self).chunks@.subrange(0, old(self).chunks@.len() as int)
                                == old(self).chunks@
                            &&& final(self).chunks@[old(self).chunks@.len() as int]@ == m
                        } else {
                            &&& r is Err
                            &&& final(self).chunks == old(self).chunks
                        }
                    },
                    Err(e) => {
                        &&& (r matches Err(ie) && ie.message@ == chunk_error_text(e))
                        &&& final(self).chunks == old(self).chunks
                        &&& final(self).info == old(self).info
                        &&& final(self).time == old(self).time
                        &&& final(self).keywords == old(self).keywords
                        &&& final(self).data == old(self).data
                    },
                }
            }),
    {
        match Chunk::next_from_buffer(&self.bytes, &mut self.pos) {
            Ok(chunk) => {
                match self.parse_chunk(&chunk) {
                    Ok(_) => {},
                    Err(e) => {
                        return Err(e);
                    },
                }
                let copy = chunk.clone();
                self.chunks.push(chunk);
                proof {
                    assert(final(self).chunks@.subrange(0, old(self).chunks@.len() as int)
                        =~= old(self).chunks@);
                }
                Ok(copy)
            },
            Err(ce) => Err(ImageError::new(chunk_error_message(&ce))),
        }
    }
}

/// The text each chunk decoding failure is reported with.
pub open spec fn chunk_error_text(e: ChunkError) -> Seq<char> {
    match e {
        ChunkError::Truncated { stage: ChunkStage::Length } => "Failed to read chunk length"@,
        ChunkError::Truncated { stage: ChunkStage::Type } => "Failed to read chunk type"@,
        ChunkError::Truncated { stage: ChunkStage::Data } => "Failed to read chunk data"@,
        ChunkError::Truncated { stage: ChunkStage::Checksum } => "Failed to read chunk CRC"@,
        ChunkError::ChecksumMismatch { .. } => "Chunk data may be corrupted"@,
        ChunkError::LengthOutOfBounds => "Chunk length out of bounds"@,
        ChunkError::NotDataChunk => "Not a data chunk"@,
        ChunkError::DecompressFailed { message } => message@,
    }
}

/// The human-readable account of a chunk decoding failure.
fn chunk_error_message(e: &ChunkError) -> (r: String)
    ensures
        r@ == chunk_error_text(*e),
{
    match e {
        ChunkError::Truncated { stage: ChunkStage::Length } => "Failed to read chunk length".to_owned(),
        ChunkError::Truncated { stage: ChunkStage::Type } => "Failed to read chunk type".to_owned(),
        ChunkError::Truncated { stage: ChunkStage::Data } => "Failed to read chunk data".to_owned(),
        ChunkError::Truncated { stage: ChunkStage::Checksum } => "Failed to read chunk CRC".to_owned(),
        ChunkError::ChecksumMismatch { .. } => "Chunk data may be corrupted".to_owned(),
        ChunkError::LengthOutOfBounds => "Chunk length out of bounds".to_owned(),
        ChunkError::NotDataChunk => "Not a data chunk".to_owned(),
        ChunkError::DecompressFailed { message } => message.clone(),
    }
}

} // verus!
