//! The decode facade: validate the magic preamble over a byte cursor, then
//! hand out chunks one at a time or as a stream.
use vstd::prelude::*;

use crate::chunk::{
    chunk_wf, spec_chunk_at, spec_pos_after, Chunk, ChunkError, ChunkModel, Chunks,
};
use crate::image::FormatError;

verus! {

/// The fixed 8-byte magic value every stream must begin with.
pub open spec fn signature_seq() -> Seq<u8> {
    seq![137u8, 80u8, 78u8, 71u8, 13u8, 10u8, 26u8, 10u8]
}

pub fn signature_bytes() -> (r: [u8; 8])
    ensures
        r@ == signature_seq(),
{
    let r = [137u8, 80u8, 78u8, 71u8, 13u8, 10u8, 26u8, 10u8];
    proof {
        assert(r@ =~= signature_seq());
    }
    r
}

#[derive(Debug)]
pub struct DecoderError {
    pub message: String,
}

impl DecoderError {
    pub fn new(message: String) -> (r: Self)
        ensures
            r.message == message,
    {
        DecoderError { message }
    }
}

/// A decode session over one byte cursor whose signature has been verified.
#[derive(Debug)]
pub struct ImageDecoder {
    pub bytes: Vec<u8>,
    pub pos: usize,
}

impl ImageDecoder {
    pub open spec fn wf(&self) -> bool {
        self.pos <= self.bytes@.len()
    }

    /// Consume and validate the 8-byte signature at `*pos`. The bytes are
    /// consumed whether or not they match: a failed validation cannot be
    /// rewound and retried against the same cursor.
    pub fn check_sig(bytes: &Vec<u8>, pos: &mut usize) -> (r: Result<(), FormatError>)
        requires
            *old(pos) <= bytes@.len(),
        ensures
            *old(pos) <= *final(pos) <= bytes@.len(),
            ({
                let s = bytes@;
                let p = *old(pos) as int;
                if s.len() < p + 8 {
                    r == Err::<(), FormatError>(FormatError::InvalidSignature) && *final(pos)
                        == s.len()
                } else {
                    &&& *final(pos) == p + 8
                    &&& r == (if s.subrange(p, p + 8) == signature_seq() {
                        Ok::<(), FormatError>(())
                    } else {
                        Err::<(), FormatError>(FormatError::InvalidSignature)
                    })
                }
            }),
    {
        let n = bytes.len();
        let p = *pos;
        if n - p < 8 {
            *pos = n;
            return Err(FormatError::InvalidSignature);
        }
        *pos = p + 8;
        let expected = signature_bytes();
        let mut i: usize = 0;
        while i < 8
            invariant
                i <= 8,
                p + 8 <= n,
                n == bytes@.len(),
                p == *old(pos),
                *pos == p + 8,
                expected@ == signature_seq(),
                forall|k: int| 0 <= k < i ==> bytes@[p + k] == signature_seq()[k],
            decreases 8 - i,
        {
            if bytes[p + i] != expected[i] {
                proof {
                    let s = bytes@;
                    assert(s.subrange(p as int, p + 8)[i as int] == s[p + i]);
                    assert(s[p + i] != signature_seq()[i as int]);
                    assert(s.subrange(p as int, p + 8) != signature_seq());
                }
                return Err(FormatError::InvalidSignature);
            }
            i += 1;
        }
        proof {
            assert(bytes@.subrange(p as int, p + 8) =~= signature_seq());
        }
        Ok(())
    }

    /// Open a decode session on a byte stream: the signature is consumed and
    /// validated, and chunk decoding continues from the ninth byte.
    pub fn from_bytes(bytes: Vec<u8>) -> (r: Result<ImageDecoder, DecoderError>)
        ensures
            ({
                let s = bytes@;
                if s.len() >= 8 && s.subrange(0, 8) == signature_seq() {
                    (r matches Ok(d) && d.bytes@ == s && d.pos == 8 && d.wf())
                } else {
                    (r matches Err(e) && e.message@ == "Invalid image signature"@)
                }
            }),
    {
        let mut pos: usize = 0;
        match Self::check_sig(&bytes, &mut pos) {
            Ok(_) => Ok(ImageDecoder { bytes, pos }),
            Err(_) => Err(DecoderError::new("Invalid image signature".to_owned())),
        }
    }

    /// Decode the next chunk record, moving the cursor strictly forward.
    pub fn next_chunk(&mut self) -> (r: Result<Chunk, ChunkError>)
        requires
            old(self).wf(),
        ensures
            final(self).wf(),
            final(self).bytes == old(self).bytes,
            final(self).pos == spec_pos_after(old(self).bytes@, old(self).pos as int),
            match r {
                Ok(c) => {
                    &&& spec_chunk_at(old(self).bytes@, old(self).pos as int) == Ok::<
                        ChunkModel,
                        ChunkError,
                    >(c@)
                    &&& chunk_wf(c)
                },
                Err(e) => spec_chunk_at(old(self).bytes@, old(self).pos as int) == Err::<
                    ChunkModel,
                    ChunkError,
                >(e),
            },
    {
        Chunk::next_from_buffer(&self.bytes, &mut self.pos)
    }

    /// Turn the rest of this session into a single-pass chunk stream.
    pub fn chunks(self) -> (r: Chunks)
        requires
            self.wf(),
        ensures
            r.bytes == self.bytes,
            r.pos == self.pos,
            !r.is_end,
            r.wf(),
    {
        Chunks { bytes: self.bytes, pos: self.pos, is_end: false }
    }
}

} // verus!
