//! Collecting decompressed pixel bytes from data chunks. Decompression
//! itself is the external collaborator's job; this module hands it a data
//! chunk's raw payload and accumulates whatever comes back.
use vstd::prelude::*;

use std::io::Read;

use crate::chunk::{idat_type, Chunk, ChunkError};
use crate::image::ImageInfo;

verus! {

/// What the decompression collaborator makes of a raw data payload: the
/// decompressed bytes, or nothing where the payload is not a valid
/// compressed stream.
pub uninterp spec fn inflate_of(bytes: Seq<u8>) -> Option<Seq<u8>>;

/// Relies on flate2::read::ZlibDecoder, read to its end from an in-memory
/// slice: the outcome is a function of the input bytes alone. Nothing is
/// promised of the failure text.
#[verifier::external_body]
pub(crate) fn inflate(data: &Vec<u8>) -> (r: Result<Vec<u8>, String>)
    ensures
        match r {
            Ok(v) => inflate_of(data@) == Some(v@),
            Err(_) => inflate_of(data@) is None,
        },
{
    let mut decoder = flate2::read::ZlibDecoder::new(data.as_slice());
    let mut decoded = Vec::new();
    match decoder.read_to_end(&mut decoded) {
        Ok(_) => Ok(decoded),
        Err(e) => Err(format!("Couldn't decompress pixel data: {}", e)),
    }
}

pub fn is_data_chunk(chunk: &Chunk) -> (r: bool)
    ensures
        r == (chunk.ch_type@ == idat_type()),
{
    if chunk.ch_type[0] == 0x49 && chunk.ch_type[1] == 0x44 && chunk.ch_type[2] == 0x41
        && chunk.ch_type[3] == 0x54 {
        proof {
            assert(chunk.ch_type@ =~= idat_type());
        }
        true
    } else {
        false
    }
}

pub struct ImageData<'a> {
    pub info: ImageInfo<'a>,
    pub pixels: Vec<u8>,
}

impl<'a> ImageData<'a> {
    pub fn empty() -> (r: Self)
        ensures
            r.pixels@ == Seq::<u8>::empty(),
            r.info.width == 0,
            r.info.height == 0,
    {
        ImageData { info: ImageInfo::empty(), pixels: Vec::new() }
    }

    pub fn from_info(info: ImageInfo<'a>) -> (r: Self)
        ensures
            r.info == info,
            r.pixels@ == Seq::<u8>::empty(),
    {
        ImageData { info, pixels: Vec::new() }
    }

    pub fn add_info(&mut self, info: ImageInfo<'a>)
        ensures
            final(self).info == info,
            final(self).pixels == old(self).pixels,
    {
        self.info = info;
    }

    /// Decompress a data chunk's payload and append the pixel bytes.
    /// Rejects any chunk that is not a data chunk; fails, leaving the pixels
    /// unchanged, where the collaborator rejects the payload.
    pub fn add_data(&mut self, data_chunk: &Chunk) -> (r: Result<(), ChunkError>)
        ensures
            final(self).info == old(self).info,
            data_chunk.ch_type@ != idat_type() ==> r == Err::<(), ChunkError>(
                ChunkError::NotDataChunk,
            ) && final(self).pixels == old(self).pixels,
            data_chunk.ch_type@ == idat_type() ==> match inflate_of(data_chunk.data@) {
                Some(v) => r is Ok && final(self).pixels@ == old(self).pixels@ + v,
                None => (r matches Err(e) && e matches ChunkError::DecompressFailed { .. })
                    && final(self).pixels == old(self).pixels,
            },
    {
        if !is_data_chunk(data_chunk) {
            return Err(ChunkError::NotDataChunk);
        }
        self.decode_data(data_chunk)
    }

    fn decode_data(&mut self, data_chunk: &Chunk) -> (r: Result<(), ChunkError>)
        ensures
            final(self).info == old(self).info,
            match inflate_of(data_chunk.data@) {
                Some(v) => r is Ok && final(self).pixels@ == old(self).pixels@ + v,
                None => (r matches Err(e) && e matches ChunkError::DecompressFailed { .. })
                    && final(self).pixels == old(self).pixels,
            },
    {
        match inflate(&data_chunk.data) {
            Ok(mut decoded) => {
                self.pixels.append(&mut decoded);
                Ok(())
            },
            Err(message) => Err(ChunkError::DecompressFailed { message }),
        }
    }
}

} // verus!
