//! Chunk framing: decoding one chunk record from a byte cursor, encoding one
//! chunk record to a byte sink, checksum verification, chunk classification
//! and the single-pass chunk stream.
use vstd::prelude::*;

verus! {

/// The format's own ceiling on a chunk's declared payload length; a stream
/// declaring more is rejected rather than trusted with an allocation.
pub const MAX_CHUNK_LENGTH: u32 = 0x7FFF_FFFF;

// ---------------------------------------------------------------------------
// Big-endian 32-bit integers
// ---------------------------------------------------------------------------

/// The integer value of four big-endian bytes.
pub open spec fn be32(b: Seq<u8>) -> int
    recommends
        b.len() == 4,
{
    b[0] * 0x100_0000 + b[1] * 0x1_0000 + b[2] * 0x100 + b[3]
}

/// The integer value of two big-endian bytes.
pub open spec fn be16(b: Seq<u8>) -> int
    recommends
        b.len() == 2,
{
    b[0] * 0x100 + b[1]
}

pub fn u16_from_be(b0: u8, b1: u8) -> (r: u16)
    ensures
        r == be16(seq![b0, b1]),
{
    (b0 as u16) * 0x100 + (b1 as u16)
}

/// The four big-endian bytes of a 32-bit integer.
pub open spec fn be_bytes32(x: u32) -> Seq<u8> {
    seq![
        ((x as int) / 0x100_0000) as u8,
        (((x as int) / 0x1_0000) % 0x100) as u8,
        (((x as int) / 0x100) % 0x100) as u8,
        ((x as int) % 0x100) as u8,
    ]
}

pub fn u32_from_be(b0: u8, b1: u8, b2: u8, b3: u8) -> (r: u32)
    ensures
        r == be32(seq![b0, b1, b2, b3]),
{
    (b0 as u32) * 0x100_0000 + (b1 as u32) * 0x1_0000 + (b2 as u32) * 0x100 + (b3 as u32)
}

pub fn u32_to_be(x: u32) -> (r: [u8; 4])
    ensures
        r@ == be_bytes32(x),
{
    let r = [(x / 0x100_0000) as u8, ((x / 0x1_0000) % 0x100) as u8, ((x / 0x100) % 0x100) as u8, (
    x % 0x100) as u8];
    proof {
        assert(r@ =~= be_bytes32(x));
    }
    r
}

/// Reading four big-endian bytes back from `be_bytes32` recovers the bytes:
/// `be32` is bounded by `2^32` and `be_bytes32` inverts it.
pub proof fn lemma_be32_to_bytes(b: Seq<u8>)
    requires
        b.len() == 4,
    ensures
        0 <= be32(b) < 0x1_0000_0000,
        be_bytes32(be32(b) as u32) == b,
{
    let x = be32(b);
    let b0 = b[0] as int;
    let b1 = b[1] as int;
    let b2 = b[2] as int;
    let b3 = b[3] as int;
    vstd::arithmetic::div_mod::lemma_fundamental_div_mod_converse(
        x,
        0x100_0000,
        b0,
        b1 * 0x1_0000 + b2 * 0x100 + b3,
    );
    vstd::arithmetic::div_mod::lemma_fundamental_div_mod_converse(
        x,
        0x1_0000,
        b0 * 0x100 + b1,
        b2 * 0x100 + b3,
    );
    vstd::arithmetic::div_mod::lemma_fundamental_div_mod_converse(
        x,
        0x100,
        b0 * 0x1_0000 + b1 * 0x100 + b2,
        b3,
    );
    vstd::arithmetic::div_mod::lemma_fundamental_div_mod_converse_mod(
        b0 * 0x100 + b1,
        0x100,
        b0,
        b1,
    );
    vstd::arithmetic::div_mod::lemma_fundamental_div_mod_converse_mod(
        b0 * 0x1_0000 + b1 * 0x100 + b2,
        0x100,
        b0 * 0x100 + b1,
        b2,
    );
    assert(be_bytes32(x as u32) =~= b);
}

/// If two 4-byte sequences differ, so do their big-endian values.
pub proof fn lemma_be32_injective(a: Seq<u8>, b: Seq<u8>)
    requires
        a.len() == 4,
        b.len() == 4,
        a != b,
    ensures
        be32(a) != be32(b),
{
    lemma_be32_to_bytes(a);
    lemma_be32_to_bytes(b);
}

// ---------------------------------------------------------------------------
// Checksum
// ---------------------------------------------------------------------------

/// The format's 32-bit cyclic redundancy checksum of a byte sequence.
pub uninterp spec fn crc32_of(bytes: Seq<u8>) -> u32;

/// Relies on crc::Crc::<u32>::checksum with the CRC_32_ISO_HDLC algorithm:
/// a pure function of the input bytes (constant tables, init, update,
/// finalize), used here both to verify and to generate chunk checksums.
#[verifier::external_body]
fn crc32_checksum(data: &Vec<u8>) -> (r: u32)
    ensures
        r == crc32_of(data@),
{
    crc::Crc::<u32>::new(&crc::CRC_32_ISO_HDLC).checksum(data.as_slice())
}

// ---------------------------------------------------------------------------
// Type codes, classification, location
// ---------------------------------------------------------------------------

pub open spec fn ihdr_type() -> Seq<u8> {
    seq![0x49u8, 0x48u8, 0x44u8, 0x52u8]
}

pub open spec fn iend_type() -> Seq<u8> {
    seq![0x49u8, 0x45u8, 0x4Eu8, 0x44u8]
}

pub open spec fn idat_type() -> Seq<u8> {
    seq![0x49u8, 0x44u8, 0x41u8, 0x54u8]
}

pub open spec fn text_type() -> Seq<u8> {
    seq![0x74u8, 0x45u8, 0x58u8, 0x74u8]
}

pub open spec fn time_type() -> Seq<u8> {
    seq![0x74u8, 0x49u8, 0x4Du8, 0x45u8]
}

#[derive(Debug, PartialEq, Eq, Clone, Copy, Structural)]
pub enum ChunkLocation {
    Start,
    End,
    Unknown,
}

/// `Start` and `End` mark the mandatory first and terminal chunks.
pub open spec fn locate_spec(t: Seq<u8>) -> ChunkLocation {
    if t == ihdr_type() {
        ChunkLocation::Start
    } else if t == iend_type() {
        ChunkLocation::End
    } else {
        ChunkLocation::Unknown
    }
}

#[derive(Debug, PartialEq, Eq, Clone, Copy, Structural)]
pub struct ChunkProperties {
    pub ancillary: bool,
    pub private: bool,
    pub reserved: bool,
    pub safe_to_copy: bool,
}

/// The placeholder classification a chunk carries before its type code is
/// inspected: ancillary set, the rest clear.
pub open spec fn default_properties() -> ChunkProperties {
    ChunkProperties { ancillary: true, private: false, reserved: false, safe_to_copy: false }
}

/// Each flag is bit 5 of the corresponding type-code byte: a set bit marks
/// the lowercase (optional) variant.
pub open spec fn classify_spec(t: Seq<u8>) -> ChunkProperties
    recommends
        t.len() == 4,
{
    ChunkProperties {
        ancillary: (t[0] & 32) != 0,
        private: (t[1] & 32) != 0,
        reserved: (t[2] & 32) != 0,
        safe_to_copy: (t[3] & 32) != 0,
    }
}

impl ChunkProperties {
    pub fn new() -> (r: Self)
        ensures
            r == default_properties(),
    {
        ChunkProperties { ancillary: true, private: false, reserved: false, safe_to_copy: false }
    }

    pub fn from_type(ch_type: &[u8; 4], props: &mut ChunkProperties)
        ensures
            *final(props) == classify_spec(ch_type@),
    {
        props.ancillary = (ch_type[0] & 32) != 0;
        props.private = (ch_type[1] & 32) != 0;
        props.reserved = (ch_type[2] & 32) != 0;
        props.safe_to_copy = (ch_type[3] & 32) != 0;
    }
}

// ---------------------------------------------------------------------------
// Errors
// ---------------------------------------------------------------------------

/// The stage of chunk decoding at which the stream ran out of bytes.
#[derive(Debug, PartialEq, Eq, Clone, Copy, Structural)]
pub enum ChunkStage {
    Length,
    Type,
    Data,
    Checksum,
}

#[derive(Debug, PartialEq, Eq, Clone)]
pub enum ChunkError {
    /// The stream ended before the named field was fully read.
    Truncated { stage: ChunkStage },
    /// The stored checksum disagrees with the one computed over type code
    /// and payload.
    ChecksumMismatch { expected: u32, actual: u32 },
    /// The declared payload length exceeds the format's ceiling.
    LengthOutOfBounds,
    /// A chunk was handed to the pixel-data collector whose type code is not
    /// the data id.
    NotDataChunk,
    /// The external decompression collaborator rejected a data payload.
    DecompressFailed { message: String },
}

// ---------------------------------------------------------------------------
// Chunk
// ---------------------------------------------------------------------------

#[derive(Debug)]
pub struct Chunk {
    pub length: u32,
    pub ch_type: [u8; 4],
    pub properties: ChunkProperties,
    pub data: Vec<u8>,
    pub crc: [u8; 4],
    pub location: ChunkLocation,
}

/// The mathematical content of a chunk record: what the wire format stores.
pub struct ChunkModel {
    pub length: int,
    pub ch_type: Seq<u8>,
    pub data: Seq<u8>,
    pub crc: Seq<u8>,
}

impl View for Chunk {
    type V = ChunkModel;

    open spec fn view(&self) -> ChunkModel {
        ChunkModel {
            length: self.length as int,
            ch_type: self.ch_type@,
            data: self.data@,
            crc: self.crc@,
        }
    }
}

/// A chunk as decoding yields it: payload length matches the length field,
/// the length is within bounds, and classification and location are the ones
/// derived from the type code.
pub open spec fn chunk_wf(c: Chunk) -> bool {
    &&& c.data@.len() == c.length as int
    &&& c.length <= MAX_CHUNK_LENGTH
    &&& c.properties == classify_spec(c.ch_type@)
    &&& c.location == locate_spec(c.ch_type@)
}

/// The wire image of one chunk whose checksum is computed, not stored:
/// length, type code, payload, checksum over type code and payload.
pub open spec fn chunk_wire(t: Seq<u8>, d: Seq<u8>) -> Seq<u8> {
    be_bytes32(d.len() as u32) + t + d + be_bytes32(crc32_of(t + d))
}

/// Decoding one chunk record from byte sequence `s` at offset `p`:
/// length, type code, bounds guard, payload, stored checksum, verification.
pub open spec fn spec_chunk_at(s: Seq<u8>, p: int) -> Result<ChunkModel, ChunkError> {
    if s.len() < p + 4 {
        Err(ChunkError::Truncated { stage: ChunkStage::Length })
    } else {
        let l = be32(s.subrange(p, p + 4));
        if s.len() < p + 8 {
            Err(ChunkError::Truncated { stage: ChunkStage::Type })
        } else if l > MAX_CHUNK_LENGTH {
            Err(ChunkError::LengthOutOfBounds)
        } else if s.len() < p + 8 + l {
            Err(ChunkError::Truncated { stage: ChunkStage::Data })
        } else if s.len() < p + 12 + l {
            Err(ChunkError::Truncated { stage: ChunkStage::Checksum })
        } else {
            let t = s.subrange(p + 4, p + 8);
            let d = s.subrange(p + 8, p + 8 + l);
            let c = s.subrange(p + 8 + l, p + 12 + l);
            let expected = crc32_of(t + d);
            if be32(c) != expected {
                Err(ChunkError::ChecksumMismatch { expected, actual: be32(c) as u32 })
            } else {
                Ok(ChunkModel { length: l, ch_type: t, data: d, crc: c })
            }
        }
    }
}

/// Where the cursor stands after one decode attempt at offset `p`: past the
/// whole record on success and on a checksum mismatch, past the 8-byte
/// header on a rejected length, and at the end of the stream when it ran
/// out of bytes.
pub open spec fn spec_pos_after(s: Seq<u8>, p: int) -> int {
    match spec_chunk_at(s, p) {
        Ok(m) => p + 12 + m.length,
        Err(ChunkError::LengthOutOfBounds) => p + 8,
        Err(ChunkError::ChecksumMismatch { .. }) => p + 12 + be32(s.subrange(p, p + 4)),
        _ => s.len() as int,
    }
}

/// Append the bytes `src[from..to]` to `dst`.
pub(crate) fn push_range(dst: &mut Vec<u8>, src: &Vec<u8>, from: usize, to: usize)
    requires
        from <= to,
        to <= src@.len(),
    ensures
        final(dst)@ == old(dst)@ + src@.subrange(from as int, to as int),
{
    let mut i: usize = from;
    while i < to
        invariant
            from <= i <= to,
            to <= src@.len(),
            dst@ == old(dst)@ + src@.subrange(from as int, i as int),
        decreases to - i,
    {
        dst.push(src[i]);
        proof {
            assert(src@.subrange(from as int, i + 1) =~= src@.subrange(from as int, i as int).push(
                src@[i as int],
            ));
        }
        i += 1;
    }
}

impl Clone for Chunk {
    fn clone(&self) -> (r: Self)
        ensures
            r.length == self.length,
            r.ch_type == self.ch_type,
            r.properties == self.properties,
            r.data@ == self.data@,
            r.crc == self.crc,
            r.location == self.location,
    {
        let mut data: Vec<u8> = Vec::new();
        push_range(&mut data, &self.data, 0, self.data.len());
        proof {
            assert(data@ =~= self.data@);
        }
        Chunk {
            length: self.length,
            ch_type: self.ch_type,
            properties: self.properties,
            data,
            crc: self.crc,
            location: self.location,
        }
    }
}

impl Chunk {
    /// Build a chunk from its parts; classification and location are
    /// computed here, once, from the type code.
    pub fn new(length: u32, ch_type: [u8; 4], data: Vec<u8>, crc: [u8; 4]) -> (r: Self)
        ensures
            r.length == length,
            r.ch_type == ch_type,
            r.properties == classify_spec(ch_type@),
            r.data == data,
            r.crc == crc,
            r.location == locate_spec(ch_type@),
    {
        let mut properties = ChunkProperties::new();
        ChunkProperties::from_type(&ch_type, &mut properties);
        Chunk { length, ch_type, properties, data, crc, location: Chunk::get_location(&ch_type) }
    }

    pub fn empty() -> (r: Self)
        ensures
            r.length == 0,
            r.ch_type@ == seq![0u8, 0u8, 0u8, 0u8],
            r.properties == default_properties(),
            r.data@ == Seq::<u8>::empty(),
            r.crc@ == seq![0u8, 0u8, 0u8, 0u8],
            r.location == ChunkLocation::Unknown,
    {
        let r = Chunk {
            length: 0,
            ch_type: [0u8, 0u8, 0u8, 0u8],
            properties: ChunkProperties::new(),
            data: Vec::new(),
            crc: [0u8, 0u8, 0u8, 0u8],
            location: ChunkLocation::Unknown,
        };
        proof {
            assert(r.ch_type@ =~= seq![0u8, 0u8, 0u8, 0u8]);
            assert(r.crc@ =~= seq![0u8, 0u8, 0u8, 0u8]);
            assert(r.data@ =~= Seq::<u8>::empty());
        }
        r
    }

    /// Decode one chunk record from `bytes`, starting at `*pos` and moving
    /// the cursor strictly forward. Succeeds exactly when `spec_chunk_at`
    /// does, with the error it names otherwise; no resynchronization is
    /// attempted after a failure.
    pub fn next_from_buffer(bytes: &Vec<u8>, pos: &mut usize) -> (r: Result<Chunk, ChunkError>)
        requires
            *old(pos) <= bytes@.len(),
        ensures
            *final(pos) == spec_pos_after(bytes@, *old(pos) as int),
            *old(pos) <= *final(pos) <= bytes@.len(),
            match r {
                Ok(c) => {
                    &&& spec_chunk_at(bytes@, *old(pos) as int) == Ok::<ChunkModel, ChunkError>(c@)
                    &&& chunk_wf(c)
                },
                Err(e) => spec_chunk_at(bytes@, *old(pos) as int) == Err::<ChunkModel, ChunkError>(
                    e,
                ),
            },
    {
        let n = bytes.len();
        let p = *pos;
        let ghost s = bytes@;
        if n - p < 4 {
            *pos = n;
            return Err(ChunkError::Truncated { stage: ChunkStage::Length });
        }
        let length = u32_from_be(bytes[p], bytes[p + 1], bytes[p + 2], bytes[p + 3]);
        proof {
            assert(seq![s[p as int], s[p + 1], s[p + 2], s[p + 3]] =~= s.subrange(
                p as int,
                p + 4,
            ));
        }
        if n - p < 8 {
            *pos = n;
            return Err(ChunkError::Truncated { stage: ChunkStage::Type });
        }
        let ch_type = [bytes[p + 4], bytes[p + 5], bytes[p + 6], bytes[p + 7]];
        proof {
            assert(ch_type@ =~= s.subrange(p + 4, p + 8));
        }
        if length > MAX_CHUNK_LENGTH {
            *pos = p + 8;
            return Err(ChunkError::LengthOutOfBounds);
        }
        let l = length as usize;
        if n - (p + 8) < l {
            *pos = n;
            return Err(ChunkError::Truncated { stage: ChunkStage::Data });
        }
        let mut data: Vec<u8> = Vec::new();
        let mut i: usize = 0;
        while i < l
            invariant
                i <= l,
                p + 8 + l <= n == s.len(),
                s == bytes@,
                data@ == s.subrange(p + 8, p + 8 + i),
            decreases l - i,
        {
            data.push(bytes[p + 8 + i]);
            proof {
                assert(s.subrange(p + 8, p + 8 + (i + 1)) =~= s.subrange(p + 8, p + 8 + i).push(
                    s[p + 8 + i],
                ));
            }
            i += 1;
        }
        if n - (p + 8 + l) < 4 {
            *pos = n;
            return Err(ChunkError::Truncated { stage: ChunkStage::Checksum });
        }
        let crc_bytes = [bytes[p + 8 + l], bytes[p + 9 + l], bytes[p + 10 + l], bytes[p + 11 + l]];
        proof {
            assert(crc_bytes@ =~= s.subrange(p + 8 + l, p + 12 + l));
        }
        let mut tc: Vec<u8> = Vec::new();
        tc.push(ch_type[0]);
        tc.push(ch_type[1]);
        tc.push(ch_type[2]);
        tc.push(ch_type[3]);
        push_range(&mut tc, &data, 0, l);
        proof {
            assert(tc@ =~= ch_type@ + data@);
        }
        let expected = crc32_checksum(&tc);
        let actual = u32_from_be(crc_bytes[0], crc_bytes[1], crc_bytes[2], crc_bytes[3]);
        proof {
            assert(seq![crc_bytes@[0], crc_bytes@[1], crc_bytes@[2], crc_bytes@[3]] =~= crc_bytes@);
        }
        *pos = p + 12 + l;
        if expected != actual {
            return Err(ChunkError::ChecksumMismatch { expected, actual });
        }
        let mut properties = ChunkProperties::new();
        ChunkProperties::from_type(&ch_type, &mut properties);
        let location = Chunk::get_location(&ch_type);
        let c = Chunk { length, ch_type, properties, data, crc: crc_bytes, location };
        Ok(c)
    }

    /// Serialize this chunk to the byte sink: length, type code, payload,
    /// then a checksum recomputed over type code and payload, so that every
    /// emitted record is internally consistent whatever the stored `crc`
    /// field holds.
    pub fn write_to(&self, buffer: &mut Vec<u8>)
        requires
            self.data@.len() == self.length as int,
        ensures
            final(buffer)@ == old(buffer)@ + chunk_wire(self.ch_type@, self.data@),
    {
        let lb = u32_to_be(self.length);
        buffer.push(lb[0]);
        buffer.push(lb[1]);
        buffer.push(lb[2]);
        buffer.push(lb[3]);
        buffer.push(self.ch_type[0]);
        buffer.push(self.ch_type[1]);
        buffer.push(self.ch_type[2]);
        buffer.push(self.ch_type[3]);
        push_range(buffer, &self.data, 0, self.data.len());
        let mut tc: Vec<u8> = Vec::new();
        tc.push(self.ch_type[0]);
        tc.push(self.ch_type[1]);
        tc.push(self.ch_type[2]);
        tc.push(self.ch_type[3]);
        push_range(&mut tc, &self.data, 0, self.data.len());
        proof {
            assert(tc@ =~= self.ch_type@ + self.data@);
        }
        let crc = crc32_checksum(&tc);
        let cb = u32_to_be(crc);
        buffer.push(cb[0]);
        buffer.push(cb[1]);
        buffer.push(cb[2]);
        buffer.push(cb[3]);
        proof {
            assert((self.data@.len() as u32) == self.length);
            assert(buffer@ =~= old(buffer)@ + chunk_wire(self.ch_type@, self.data@));
        }
    }

    pub fn get_location(ch_type: &[u8; 4]) -> (r: ChunkLocation)
        ensures
            r == locate_spec(ch_type@),
    {
        if ch_type[0] == 0x49 && ch_type[1] == 0x48 && ch_type[2] == 0x44 && ch_type[3] == 0x52 {
            proof {
                assert(ch_type@ =~= ihdr_type());
            }
            ChunkLocation::Start
        } else if ch_type[0] == 0x49 && ch_type[1] == 0x45 && ch_type[2] == 0x4E && ch_type[3]
            == 0x44 {
            proof {
                assert(ch_type@ =~= iend_type());
            }
            ChunkLocation::End
        } else {
            ChunkLocation::Unknown
        }
    }
}

// ---------------------------------------------------------------------------
// Laws
// ---------------------------------------------------------------------------

/// Law (round trip, one chunk): a chunk decoded from a byte stream
/// re-encodes, with its checksum recomputed, to exactly the bytes it was
/// decoded from.
pub proof fn lemma_chunk_round_trip(s: Seq<u8>, p: int, m: ChunkModel)
    requires
        0 <= p,
        spec_chunk_at(s, p) == Ok::<ChunkModel, ChunkError>(m),
    ensures
        0 <= m.length,
        p + 12 + m.length <= s.len(),
        chunk_wire(m.ch_type, m.data) == s.subrange(p, p + 12 + m.length),
{
    let l = m.length;
    lemma_be32_to_bytes(s.subrange(p, p + 4));
    lemma_be32_to_bytes(m.crc);
    assert((m.data.len() as u32) == (l as u32));
    assert((be32(m.crc) as u32) == crc32_of(m.ch_type + m.data));
    assert(chunk_wire(m.ch_type, m.data) =~= s.subrange(p, p + 12 + m.length));
}

/// The chunk records decoded in order from `s` starting at offset `p`,
/// ending with the terminal end-marker chunk.
pub open spec fn stream_models(s: Seq<u8>, p: int, ms: Seq<ChunkModel>) -> bool
    decreases ms.len(),
{
    &&& ms.len() > 0
    &&& spec_chunk_at(s, p) == Ok::<ChunkModel, ChunkError>(ms[0])
    &&& if locate_spec(ms[0].ch_type) is End {
        ms.len() == 1
    } else {
        stream_models(s, p + 12 + ms[0].length, ms.subrange(1, ms.len() as int))
    }
}

/// The wire image of a sequence of chunk records, each with its checksum
/// recomputed.
pub open spec fn wire_all(ms: Seq<ChunkModel>) -> Seq<u8>
    decreases ms.len(),
{
    if ms.len() == 0 {
        Seq::empty()
    } else {
        chunk_wire(ms[0].ch_type, ms[0].data) + wire_all(ms.subrange(1, ms.len() as int))
    }
}

/// Law (round trip): decoding a syntactically valid, checksum-correct chunk
/// sequence and re-encoding every chunk, checksums recomputed, reproduces
/// byte-identical output; bytes trailing the end-marker chunk are untouched.
pub proof fn lemma_stream_round_trip(s: Seq<u8>, p: int, ms: Seq<ChunkModel>)
    requires
        0 <= p,
        stream_models(s, p, ms),
    ensures
        p + wire_all(ms).len() <= s.len(),
        wire_all(ms) == s.subrange(p, p + wire_all(ms).len()),
    decreases ms.len(),
{
    lemma_chunk_round_trip(s, p, ms[0]);
    let head = chunk_wire(ms[0].ch_type, ms[0].data);
    let rest = ms.subrange(1, ms.len() as int);
    if locate_spec(ms[0].ch_type) is End {
        assert(wire_all(rest) == Seq::<u8>::empty());
        assert(wire_all(ms) =~= s.subrange(p, p + wire_all(ms).len()));
    } else {
        lemma_stream_round_trip(s, p + 12 + ms[0].length, rest);
        assert(wire_all(ms) =~= s.subrange(p, p + wire_all(ms).len()));
    }
}

proof fn lemma_xor_bit_changes(x: u8, bit: u8)
    requires
        bit < 8,
    ensures
        (x ^ (1u8 << bit)) != x,
{
    assert((x ^ (1u8 << bit)) != x) by (bit_vector)
        requires
            bit < 8,
    ;
}

/// Law (checksum enforcement): flipping exactly one bit of a decodable
/// chunk's stored checksum makes decoding fail with a checksum mismatch
/// rather than return the chunk.
pub proof fn lemma_checksum_enforcement(
    s: Seq<u8>,
    s2: Seq<u8>,
    p: int,
    m: ChunkModel,
    j: int,
    bit: u8,
)
    requires
        0 <= p,
        spec_chunk_at(s, p) == Ok::<ChunkModel, ChunkError>(m),
        s2.len() == s.len(),
        p + 8 + m.length <= j < p + 12 + m.length,
        bit < 8,
        s2[j] == (s[j] ^ (1u8 << bit)),
        forall|k: int| 0 <= k < s.len() && k != j ==> s2[k] == s[k],
    ensures
        spec_chunk_at(s2, p) == Err::<ChunkModel, ChunkError>(
            (ChunkError::ChecksumMismatch {
                expected: crc32_of(m.ch_type + m.data),
                actual: be32(s2.subrange(p + 8 + m.length, p + 12 + m.length)) as u32,
            }),
        ),
{
    let l = m.length;
    lemma_chunk_round_trip(s, p, m);
    assert(s2.subrange(p, p + 4) =~= s.subrange(p, p + 4));
    assert(s2.subrange(p + 4, p + 8) =~= s.subrange(p + 4, p + 8));
    assert(s2.subrange(p + 8, p + 8 + l) =~= s.subrange(p + 8, p + 8 + l));
    let crc2 = s2.subrange(p + 8 + l, p + 12 + l);
    lemma_xor_bit_changes(s[j], bit);
    assert(crc2[j - (p + 8 + l)] != m.crc[j - (p + 8 + l)]);
    assert(crc2 != m.crc);
    lemma_be32_injective(crc2, m.crc);
}

// ---------------------------------------------------------------------------
// Chunk stream
// ---------------------------------------------------------------------------

/// A single-pass stream of chunks over one byte cursor. Once it has yielded
/// the terminal end-marker chunk or one error, it is exhausted: later calls
/// yield nothing and never touch the cursor again.
pub struct Chunks {
    pub bytes: Vec<u8>,
    pub pos: usize,
    pub is_end: bool,
}

impl Chunks {
    pub open spec fn wf(&self) -> bool {
        self.pos <= self.bytes@.len()
    }

    pub fn new(bytes: Vec<u8>) -> (r: Self)
        ensures
            r.bytes == bytes,
            r.pos == 0,
            !r.is_end,
            r.wf(),
    {
        Chunks { bytes, pos: 0, is_end: false }
    }

    /// The cursor offset of the next unread byte.
    pub fn position(&self) -> (r: usize)
        ensures
            r == self.pos,
    {
        self.pos
    }

    /// Pull the next chunk. An ended stream yields `None` and stays exactly
    /// as it is; otherwise one decode step is taken, and decoding the
    /// end-marker chunk or failing ends the stream, so that at most one
    /// terminal item is ever observed.
    pub fn next(&mut self) -> (r: Option<Result<Chunk, ChunkError>>)
        requires
            old(self).wf(),
        ensures
            final(self).wf(),
            final(self).bytes == old(self).bytes,
            old(self).is_end ==> r is None && *final(self) == *old(self),
            !old(self).is_end ==> {
                let s = old(self).bytes@;
                let p = old(self).pos as int;
                &&& final(self).pos == spec_pos_after(s, p)
                &&& match spec_chunk_at(s, p) {
                    Ok(m) => {
                        &&& (r matches Some(Ok(c)) && c@ == m && chunk_wf(c))
                        &&& final(self).is_end == (locate_spec(m.ch_type) is End)
                    },
                    Err(e) => {
                        &&& r == Some(Err::<Chunk, ChunkError>(e))
                        &&& final(self).is_end
                    },
                }
            },
    {
        if self.is_end {
            return None;
        }
        match Chunk::next_from_buffer(&self.bytes, &mut self.pos) {
            Ok(chunk) => {
                if Chunk::get_location(&chunk.ch_type) == ChunkLocation::End {
                    self.is_end = true;
                }
                Some(Ok(chunk))
            },
            Err(e) => {
                self.is_end = true;
                Some(Err(e))
            },
        }
    }
}

} // verus!
