//! The encode facade: a byte sink that starts with the signature and then
//! takes chunks in order, serializing each with a recomputed checksum.
use vstd::prelude::*;

use crate::chunk::{chunk_wire, Chunk};
use crate::decoder::signature_seq;

verus! {

#[derive(Debug)]
pub struct EncoderError {
    pub message: String,
}

impl EncoderError {
    pub fn new(message: String) -> (r: Self)
        ensures
            r.message == message,
    {
        EncoderError { message }
    }
}

/// An encode session: the signature is written once, at the start, and every
/// chunk handed in is appended after it.
pub struct ImageEncoder {
    pub buffer: Vec<u8>,
}

impl ImageEncoder {
    /// Begin an encode session; the sink opens with the 8-byte signature.
    pub fn new() -> (r: Self)
        ensures
            r.buffer@ == signature_seq(),
    {
        let mut buffer: Vec<u8> = Vec::new();
        Self::write_sig(&mut buffer);
        ImageEncoder { buffer }
    }

    /// Append the fixed 8-byte signature to the sink, unconditionally.
    pub fn write_sig(buffer: &mut Vec<u8>)
        ensures
            final(buffer)@ == old(buffer)@ + signature_seq(),
    {
        buffer.push(137);
        buffer.push(80);
        buffer.push(78);
        buffer.push(71);
        buffer.push(13);
        buffer.push(10);
        buffer.push(26);
        buffer.push(10);
        proof {
            assert(final(buffer)@ =~= old(buffer)@ + signature_seq());
        }
    }

    /// Serialize one chunk to the sink: length, type code, payload, then a
    /// checksum recomputed over type code and payload.
    pub fn write_chunk(&mut self, chunk: &Chunk)
        requires
            chunk.data@.len() == chunk.length as int,
        ensures
            final(self).buffer@ == old(self).buffer@ + chunk_wire(chunk.ch_type@, chunk.data@),
    {
        chunk.write_to(&mut self.buffer)
    }

    /// Close the session and hand the encoded bytes to the caller.
    pub fn into_bytes(self) -> (r: Vec<u8>)
        ensures
            r == self.buffer,
    {
        self.buffer
    }
}

} // verus!
