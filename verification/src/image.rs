//! Decoding the mandatory header chunk's payload into structured metadata:
//! dimensions, bit depth, color type and encoding parameters.
use vstd::prelude::*;

use crate::chunk::{be32, ihdr_type, u32_from_be, Chunk};

verus! {

/// Failures of the format outside chunk framing: the magic preamble and the
/// header chunk's payload.
#[derive(Debug, PartialEq, Eq, Clone, Copy, Structural)]
pub enum FormatError {
    /// The stream does not begin with the fixed 8-byte magic value.
    InvalidSignature,
    /// A chunk handed to the header extractor is not the header chunk.
    NotHeaderChunk,
    /// The header chunk's payload is not exactly 13 bytes.
    TruncatedHeader,
}

#[derive(Debug, PartialEq, Eq, Clone, Copy, Structural)]
pub enum ColorType {
    Unknown,
    Greyscale,
    Truecolor,
    IndexedColor,
    GreyscaleAlpha,
    TruecolorAlpha,
}

/// The color type encoded by the header chunk's tenth payload byte.
pub open spec fn color_type_spec(num: int) -> ColorType {
    if num == 0 {
        ColorType::Greyscale
    } else if num == 2 {
        ColorType::Truecolor
    } else if num == 3 {
        ColorType::IndexedColor
    } else if num == 4 {
        ColorType::GreyscaleAlpha
    } else if num == 6 {
        ColorType::TruecolorAlpha
    } else {
        ColorType::Unknown
    }
}

impl From<isize> for ColorType {
    fn from(num: isize) -> (r: Self) {
        match num {
            0 => Self::Greyscale,
            2 => Self::Truecolor,
            3 => Self::IndexedColor,
            4 => Self::GreyscaleAlpha,
            6 => Self::TruecolorAlpha,
            _ => Self::Unknown,
        }
    }
}

impl vstd::std_specs::convert::FromSpecImpl<isize> for ColorType {
    open spec fn obeys_from_spec() -> bool {
        true
    }

    open spec fn from_spec(num: isize) -> Self {
        color_type_spec(num as int)
    }
}

#[derive(Debug)]
pub struct ImageInfo<'a> {
    pub filepath: &'a str,
    pub width: u32,
    pub height: u32,
    pub bit_depth: u8,
    pub color_type: ColorType,
    pub compression_method: u8,
    pub filter_method: u8,
    pub interlace_method: u8,
}

/// The header chunk's 13-byte payload layout: width and height as big-endian
/// 32-bit values, then bit depth, color type, compression method, filter
/// method and interlace method, one byte each.
pub open spec fn header_fields_ok<'a>(info: ImageInfo<'a>, d: Seq<u8>) -> bool
    recommends
        d.len() == 13,
{
    &&& info.width == be32(d.subrange(0, 4))
    &&& info.height == be32(d.subrange(4, 8))
    &&& info.bit_depth == d[8]
    &&& info.color_type == color_type_spec(d[9] as int)
    &&& info.compression_method == d[10]
    &&& info.filter_method == d[11]
    &&& info.interlace_method == d[12]
}

impl<'a> ImageInfo<'a> {
    pub fn empty() -> (r: Self)
        ensures
            r.filepath@.len() == 0,
            r.width == 0,
            r.height == 0,
            r.bit_depth == 0,
            r.color_type == ColorType::Unknown,
            r.compression_method == 0,
            r.filter_method == 0,
            r.interlace_method == 0,
    {
        proof {
            reveal_strlit("");
        }
        ImageInfo {
            filepath: "",
            width: 0,
            height: 0,
            bit_depth: 0,
            color_type: ColorType::Unknown,
            compression_method: 0,
            filter_method: 0,
            interlace_method: 0,
        }
    }

    /// Decode the header chunk's payload, then record where the image came
    /// from.
    pub fn from_info(filepath: &'a str, ihdr_chunk: &Chunk) -> (r: Result<Self, FormatError>)
        ensures
            ihdr_chunk.ch_type@ != ihdr_type() ==> r == Err::<Self, FormatError>(
                FormatError::NotHeaderChunk,
            ),
            ihdr_chunk.ch_type@ == ihdr_type() && ihdr_chunk.data@.len() != 13 ==> r == Err::<
                Self,
                FormatError,
            >(FormatError::TruncatedHeader),
            ihdr_chunk.ch_type@ == ihdr_type() && ihdr_chunk.data@.len() == 13 ==> (r matches Ok(
                info,
            ) && header_fields_ok(info, ihdr_chunk.data@) && info.filepath == filepath),
    {
        match Self::from_ihdr(ihdr_chunk) {
            Ok(info) => Ok(ImageInfo { filepath, ..info }),
            Err(e) => Err(e),
        }
    }

    /// Decode the header chunk's 13-byte payload: fails with
    /// `NotHeaderChunk` on any other chunk and with `TruncatedHeader` on a
    /// payload that is not exactly 13 bytes, and succeeds otherwise.
    pub fn from_ihdr(chunk: &Chunk) -> (r: Result<Self, FormatError>)
        ensures
            chunk.ch_type@ != ihdr_type() ==> r == Err::<Self, FormatError>(
                FormatError::NotHeaderChunk,
            ),
            chunk.ch_type@ == ihdr_type() && chunk.data@.len() != 13 ==> r == Err::<
                Self,
                FormatError,
            >(FormatError::TruncatedHeader),
            chunk.ch_type@ == ihdr_type() && chunk.data@.len() == 13 ==> (r matches Ok(info)
                && header_fields_ok(info, chunk.data@) && info.filepath@.len() == 0),
    {
        if !is_header_chunk(chunk) {
            return Err(FormatError::NotHeaderChunk);
        }
        if chunk.data.len() != 13 {
            return Err(FormatError::TruncatedHeader);
        }
        let ghost d = chunk.data@;
        let width = u32_from_be(chunk.data[0], chunk.data[1], chunk.data[2], chunk.data[3]);
        let height = u32_from_be(chunk.data[4], chunk.data[5], chunk.data[6], chunk.data[7]);
        proof {
            assert(seq![d[0], d[1], d[2], d[3]] =~= d.subrange(0, 4));
            assert(seq![d[4], d[5], d[6], d[7]] =~= d.subrange(4, 8));
            reveal_strlit("");
        }
        Ok(
            ImageInfo {
                filepath: "",
                width,
                height,
                bit_depth: chunk.data[8],
                color_type: ColorType::from(chunk.data[9] as isize),
                compression_method: chunk.data[10],
                filter_method: chunk.data[11],
                interlace_method: chunk.data[12],
            },
        )
    }
}

pub fn is_header_chunk(chunk: &Chunk) -> (r: bool)
    ensures
        r == (chunk.ch_type@ == ihdr_type()),
{
    if chunk.ch_type[0] == 0x49 && chunk.ch_type[1] == 0x48 && chunk.ch_type[2] == 0x44
        && chunk.ch_type[3] == 0x52 {
        proof {
            assert(chunk.ch_type@ =~= ihdr_type());
        }
        true
    } else {
        false
    }
}

} // verus!
