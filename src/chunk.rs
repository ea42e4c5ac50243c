//! The chunk envelope: length, type tag, payload and CRC, big-endian on the wire.

use crate::chunk_type::{tag_valid, ChunkType};
use crate::text::{debug_of, debug_text, decimal, decimal_text, utf8_text};
use vstd::prelude::*;
use vstd::string::StringExecFns;
use vstd::utf8::{decode_utf8, valid_utf8};

verus! {

/// The CRC-32/ISO-HDLC checksum of a byte sequence (the CRC of zlib and PNG).
pub uninterp spec fn crc32_of(b: Seq<u8>) -> u32;

/// Relies on `crc::Crc::<u32>::checksum` with the `CRC_32_ISO_HDLC` parameters:
/// the checksum of `bytes`, which depends on them alone.
#[verifier::external_body]
fn crc32_checksum(bytes: &[u8]) -> (r: u32)
    ensures
        r == crc32_of(bytes@),
{
    crc::Crc::<u32>::new(&crc::CRC_32_ISO_HDLC).checksum(bytes)
}

/// The value of four bytes read as a big-endian unsigned integer.
pub open spec fn be_value(b: Seq<u8>) -> u32
    recommends
        b.len() == 4,
{
    ((b[0] as u32) << 24u32) | ((b[1] as u32) << 16u32) | ((b[2] as u32) << 8u32) | (b[3] as u32)
}

/// The four big-endian bytes of `n`.
pub open spec fn be_bytes(n: u32) -> Seq<u8> {
    seq![(n >> 24u32) as u8, (n >> 16u32) as u8, (n >> 8u32) as u8, n as u8]
}

/// The CRC of a chunk: over the tag bytes followed by the payload.
pub open spec fn chunk_crc(tag: Seq<u8>, data: Seq<u8>) -> u32 {
    crc32_of(tag + data)
}

/// The wire layout: length, tag, payload, then the given CRC.
pub open spec fn wire(tag: Seq<u8>, data: Seq<u8>, crc: u32) -> Seq<u8> {
    be_bytes(data.len() as u32) + tag + data + be_bytes(crc)
}

/// The wire form of a chunk, with its own CRC.
pub open spec fn encoded(tag: Seq<u8>, data: Seq<u8>) -> Seq<u8> {
    wire(tag, data, chunk_crc(tag, data))
}

/// The length that a buffer's first four bytes declare.
pub open spec fn declared_len(b: Seq<u8>) -> int {
    be_value(b.subrange(0, 4)) as int
}

/// The tag bytes of a buffer.
pub open spec fn tag_of(b: Seq<u8>) -> Seq<u8> {
    b.subrange(4, 8)
}

/// The payload that a buffer's length field marks out.
pub open spec fn payload_of(b: Seq<u8>) -> Seq<u8> {
    b.subrange(8, 8 + declared_len(b))
}

/// The CRC that a buffer claims, after its payload.
pub open spec fn claimed_crc_of(b: Seq<u8>) -> u32 {
    be_value(b.subrange(8 + declared_len(b), 12 + declared_len(b)))
}

/// The buffer holds a full envelope: metadata, a legal tag, and the whole payload and CRC.
pub open spec fn well_framed(b: Seq<u8>) -> bool {
    &&& b.len() >= 12
    &&& tag_valid(tag_of(b))
    &&& declared_len(b) + 12 <= b.len()
}

/// The buffer starts with a chunk that parsing accepts.
pub open spec fn parse_accepts(b: Seq<u8>) -> bool {
    &&& well_framed(b)
    &&& claimed_crc_of(b) == chunk_crc(tag_of(b), payload_of(b))
}

/// Why a chunk could not be parsed or its payload read.
#[derive(Debug, Clone, PartialEq, Eq)]
pub enum ChunkError {
    /// The buffer is too short for the envelope or for the payload it declares.
    InvalidInput(String),
    /// The tag is not a legal chunk type.
    InvalidChunkType,
    /// The claimed CRC (first) differs from the computed one (second).
    InvalidCheckSum(u32, u32),
    /// The payload is not valid UTF-8 text.
    NotText,
}

impl ChunkError {
    /// A sentence that describes the error.
    pub fn to_string(&self) -> (r: String)
        ensures
            self matches ChunkError::InvalidInput(m) ==> r@ == m@,
            self is InvalidChunkType ==> r@ == "A chunk contains an invalid chunk type"@,
            self matches ChunkError::InvalidCheckSum(e, a) ==> r@ == "The checksum should be '"@
                + decimal(e as nat) + "' but found '"@ + decimal(a as nat) + "' instead"@,
            self is NotText ==> r@ == "The chunk data is not valid UTF-8 text"@,
    {
        match self {
            ChunkError::InvalidInput(m) => m.clone(),
            ChunkError::InvalidChunkType => String::from_str(
                "A chunk contains an invalid chunk type",
            ),
            ChunkError::InvalidCheckSum(expected, actual) => {
                let mut s = String::from_str("The checksum should be '");
                s.append(decimal_text(*expected as u64).as_str());
                s.append("' but found '");
                s.append(decimal_text(*actual as u64).as_str());
                s.append("' instead");
                s
            },
            ChunkError::NotText => String::from_str("The chunk data is not valid UTF-8 text"),
        }
    }
}

/// A chunk: a type tag and a payload. Its CRC is computed, never stored.
#[derive(Debug, Clone)]
pub struct Chunk {
    pub chunk_data: Vec<u8>,
    pub chunk_type: ChunkType,
}

/// Reads four bytes at `at` as a big-endian integer.
fn read_be_u32(b: &[u8], at: usize) -> (r: u32)
    requires
        at + 4 <= b@.len(),
    ensures
        r == be_value(b@.subrange(at as int, at + 4)),
{
    ((b[at] as u32) << 24u32) | ((b[at + 1] as u32) << 16u32) | ((b[at + 2] as u32) << 8u32) | (
    b[at + 3] as u32)
}

/// Appends the four big-endian bytes of `n`.
fn push_be_u32(out: &mut Vec<u8>, n: u32)
    ensures
        final(out)@ == old(out)@ + be_bytes(n),
{
    out.push((n >> 24u32) as u8);
    out.push((n >> 16u32) as u8);
    out.push((n >> 8u32) as u8);
    out.push(n as u8);
    assert(final(out)@ =~= old(out)@ + be_bytes(n));
}

/// Appends `src[from..to]`.
fn push_range(out: &mut Vec<u8>, src: &[u8], from: usize, to: usize)
    requires
        from <= to <= src@.len(),
    ensures
        final(out)@ == old(out)@ + src@.subrange(from as int, to as int),
{
    let mut i: usize = from;
    while i < to
        invariant
            from <= i <= to <= src@.len(),
            out@ == old(out)@ + src@.subrange(from as int, i as int),
        decreases to - i,
    {
        out.push(src[i]);
        i = i + 1;
        assert(out@ =~= old(out)@ + src@.subrange(from as int, i as int));
    }
}

impl Chunk {
    /// Bytes of the length field.
    pub const LEN_DATA_LENGTH: usize = 4;

    /// Bytes of the type field.
    pub const CHUNK_TYPE_LENGTH: usize = 4;

    /// Bytes of the CRC field.
    pub const CRC_LENGTH: usize = 4;

    /// Bytes of a chunk that are not payload.
    pub const META_DATA_LENGTH: usize = Chunk::LEN_DATA_LENGTH + Chunk::CHUNK_TYPE_LENGTH
        + Chunk::CRC_LENGTH;

    /// A chunk of the given tag and payload; the tag is taken as it is.
    pub fn new(chunk_type: ChunkType, chunk_data: Vec<u8>) -> (r: Chunk)
        ensures
            r.chunk_type == chunk_type,
            r.chunk_data@ == chunk_data@,
    {
        Chunk { chunk_type, chunk_data }
    }

    /// The number of payload bytes.
    pub fn length(&self) -> (r: usize)
        ensures
            r == self.chunk_data@.len(),
    {
        self.chunk_data.len()
    }

    /// The chunk's tag.
    pub fn chunk_type(&self) -> (r: &ChunkType)
        ensures
            *r == self.chunk_type,
    {
        &self.chunk_type
    }

    /// The CRC over the tag bytes followed by the payload.
    pub fn crc(&self) -> (r: u32)
        ensures
            r == chunk_crc(self.chunk_type.0@, self.chunk_data@),
    {
        let tag = self.chunk_type.bytes();
        let mut input: Vec<u8> = Vec::new();
        push_range(&mut input, tag.as_slice(), 0, 4);
        push_range(&mut input, self.chunk_data.as_slice(), 0, self.chunk_data.len());
        assert(input@ =~= self.chunk_type.0@ + self.chunk_data@);
        crc32_checksum(input.as_slice())
    }

    /// The wire form of the chunk with `crc` in the CRC field.
    pub fn as_bytes_with_crc(&self, crc: u32) -> (r: Vec<u8>)
        requires
            self.chunk_data@.len() <= u32::MAX,
        ensures
            r@ == wire(self.chunk_type.0@, self.chunk_data@, crc),
    {
        let tag = self.chunk_type.bytes();
        let mut out: Vec<u8> = Vec::new();
        push_be_u32(&mut out, self.chunk_data.len() as u32);
        push_range(&mut out, tag.as_slice(), 0, 4);
        push_range(&mut out, self.chunk_data.as_slice(), 0, self.chunk_data.len());
        push_be_u32(&mut out, crc);
        assert(out@ =~= wire(self.chunk_type.0@, self.chunk_data@, crc));
        out
    }

    /// The wire form of the chunk: length, tag, payload and CRC.
    pub fn as_bytes(&self) -> (r: Vec<u8>)
        requires
            self.chunk_data@.len() <= u32::MAX,
        ensures
            r@ == encoded(self.chunk_type.0@, self.chunk_data@),
    {
        let crc = self.crc();
        self.as_bytes_with_crc(crc)
    }

    /// The payload as UTF-8 text.
    pub fn data_as_string(&self) -> (r: Result<String, ChunkError>)
        ensures
            valid_utf8(self.chunk_data@) ==> (r matches Ok(s) && s@ == decode_utf8(
                self.chunk_data@,
            )),
            !valid_utf8(self.chunk_data@) ==> r == Err::<String, ChunkError>(ChunkError::NotText),
    {
        match utf8_text(self.chunk_data.as_slice()) {
            Some(s) => Ok(s),
            None => Err(ChunkError::NotText),
        }
    }

    /// Accepts a parsed candidate whose claimed CRC equals the computed one.
    pub fn check_crc(candidate: Chunk, claimed: u32, computed: u32) -> (r: Result<
        Chunk,
        ChunkError,
    >)
        ensures
            claimed == computed ==> (r matches Ok(c) && c.chunk_type == candidate.chunk_type
                && c.chunk_data@ == candidate.chunk_data@),
            claimed != computed ==> r == Err::<Chunk, ChunkError>(
                ChunkError::InvalidCheckSum(claimed, computed),
            ),
    {
        if claimed != computed {
            Err(ChunkError::InvalidCheckSum(claimed, computed))
        } else {
            Ok(candidate)
        }
    }

    /// Parses the chunk at the start of `value`; bytes after its CRC are left alone.
    pub fn try_from(value: &[u8]) -> (r: Result<Chunk, ChunkError>)
        ensures
            value@.len() < 12 ==> (r matches Err(ChunkError::InvalidInput(m)) && m@
                == "Chunk is too small"@),
            value@.len() >= 12 && !tag_valid(tag_of(value@)) ==> r == Err::<Chunk, ChunkError>(
                ChunkError::InvalidChunkType,
            ),
            value@.len() >= 12 && tag_valid(tag_of(value@)) && declared_len(value@) + 12
                > value@.len() ==> (r matches Err(ChunkError::InvalidInput(m)) && m@
                == "Chunk is shorter than its length field"@),
            well_framed(value@) && claimed_crc_of(value@) != chunk_crc(
                tag_of(value@),
                payload_of(value@),
            ) ==> r == Err::<Chunk, ChunkError>(
                ChunkError::InvalidCheckSum(
                    claimed_crc_of(value@),
                    chunk_crc(tag_of(value@), payload_of(value@)),
                ),
            ),
            parse_accepts(value@) ==> (r matches Ok(c) && c.chunk_type.0@ == tag_of(value@)
                && c.chunk_data@ == payload_of(value@)),
    {
        if value.len() < Chunk::META_DATA_LENGTH {
            return Err(ChunkError::InvalidInput("Chunk is too small".to_owned()));
        }
        let data_length = read_be_u32(value, 0);
        let chunk_type = ChunkType([value[4], value[5], value[6], value[7]]);
        assert(chunk_type.0@ =~= tag_of(value@));
        if !chunk_type.is_valid() {
            return Err(ChunkError::InvalidChunkType);
        }
        if data_length as usize > value.len() - Chunk::META_DATA_LENGTH {
            return Err(ChunkError::InvalidInput("Chunk is shorter than its length field".to_owned()));
        }
        let end = 8 + data_length as usize;
        let mut chunk_data: Vec<u8> = Vec::new();
        push_range(&mut chunk_data, value, 8, end);
        assert(chunk_data@ =~= payload_of(value@));
        let claimed = read_be_u32(value, end);
        let candidate = Chunk { chunk_type, chunk_data };
        let computed = candidate.crc();
        Chunk::check_crc(candidate, claimed, computed)
    }

    /// The debug form of a successful payload-as-text result: `Ok(` and the
    /// given debug form of the text, then `)`.
    pub fn render_ok(text_debug: &str) -> (r: String)
        ensures
            r@ == "Ok("@ + text_debug@ + ")"@,
    {
        let mut r = String::from_str("Ok(");
        r.append(text_debug);
        r.append(")");
        r
    }

    /// The debug form of the payload-as-text result: `Ok("...")` with the
    /// quoted, escaped text, or `Err(NotText)` when the payload is not UTF-8.
    pub fn to_string(&self) -> (r: String)
        ensures
            valid_utf8(self.chunk_data@) ==> r@ == "Ok("@ + debug_of(decode_utf8(self.chunk_data@))
                + ")"@,
            !valid_utf8(self.chunk_data@) ==> r@ == "Err(NotText)"@,
    {
        match self.data_as_string() {
            Ok(s) => {
                let d = debug_text(s.as_str());
                Chunk::render_ok(d.as_str())
            },
            Err(_) => String::from_str("Err(NotText)"),
        }
    }
}

impl PartialEq for Chunk {
    fn eq(&self, other: &Chunk) -> (r: bool) {
        if self.chunk_type != other.chunk_type || self.chunk_data.len() != other.chunk_data.len() {
            return false;
        }
        let mut i: usize = 0;
        while i < self.chunk_data.len()
            invariant
                self.chunk_data@.len() == other.chunk_data@.len(),
                0 <= i <= self.chunk_data@.len(),
                forall|j: int| 0 <= j < i ==> self.chunk_data@[j] == other.chunk_data@[j],
            decreases self.chunk_data@.len() - i,
        {
            if self.chunk_data[i] != other.chunk_data[i] {
                return false;
            }
            i = i + 1;
        }
        assert(self.chunk_data@ =~= other.chunk_data@);
        true
    }
}

impl vstd::std_specs::cmp::PartialEqSpecImpl for Chunk {
    open spec fn obeys_eq_spec() -> bool {
        true
    }

    open spec fn eq_spec(&self, other: &Chunk) -> bool {
        self.chunk_type.0@ == other.chunk_type.0@ && self.chunk_data@ == other.chunk_data@
    }
}

/// Four bytes written big-endian read back as the same integer.
proof fn lemma_be_value_of_bytes(n: u32)
    ensures
        be_value(be_bytes(n)) == n,
{
    let b = be_bytes(n);
    assert(((((n >> 24u32) as u8) as u32) << 24u32) | ((((n >> 16u32) as u8) as u32) << 16u32)
        | ((((n >> 8u32) as u8) as u32) << 8u32) | ((n as u8) as u32) == n) by (bit_vector);
}

/// Four bytes read big-endian are written back as the same bytes.
proof fn lemma_be_bytes_of_value(b: Seq<u8>)
    requires
        b.len() == 4,
    ensures
        be_bytes(be_value(b)) == b,
{
    let (b0, b1, b2, b3) = (b[0], b[1], b[2], b[3]);
    let v = ((b0 as u32) << 24u32) | ((b1 as u32) << 16u32) | ((b2 as u32) << 8u32) | (b3 as u32);
    assert((v >> 24u32) as u8 == b0 && (v >> 16u32) as u8 == b1 && (v >> 8u32) as u8 == b2
        && v as u8 == b3) by (bit_vector)
        requires
            v == ((b0 as u32) << 24u32) | ((b1 as u32) << 16u32) | ((b2 as u32) << 8u32) | (
            b3 as u32),
    ;
    assert(be_bytes(be_value(b)) =~= b);
}

/// The pieces of a wire form, as parsing reads them back.
proof fn lemma_wire_fields(tag: Seq<u8>, data: Seq<u8>, crc: u32)
    requires
        tag.len() == 4,
        data.len() <= u32::MAX,
    ensures
        wire(tag, data, crc).len() == 12 + data.len(),
        declared_len(wire(tag, data, crc)) == data.len(),
        tag_of(wire(tag, data, crc)) == tag,
        payload_of(wire(tag, data, crc)) == data,
        wire(tag, data, crc).subrange(8 + data.len() as int, 12 + data.len() as int) == be_bytes(crc),
{
    let w = wire(tag, data, crc);
    let n = data.len() as u32;
    assert(w.subrange(0, 4) =~= be_bytes(n));
    lemma_be_value_of_bytes(n);
    assert(tag_of(w) =~= tag);
    assert(payload_of(w) =~= data);
    assert(w.subrange(8 + data.len() as int, 12 + data.len() as int) =~= be_bytes(crc));
}

/// Parsing the wire form of a chunk whose tag is legal accepts it and gives back
/// the same tag bytes and payload, and so the same CRC.
pub proof fn lemma_round_trip(tag: ChunkType, data: Seq<u8>)
    requires
        tag_valid(tag.0@),
        data.len() <= u32::MAX,
    ensures
        parse_accepts(encoded(tag.0@, data)),
        tag_of(encoded(tag.0@, data)) == tag.0@,
        payload_of(encoded(tag.0@, data)) == data,
        chunk_crc(tag_of(encoded(tag.0@, data)), payload_of(encoded(tag.0@, data))) == chunk_crc(
            tag.0@,
            data,
        ),
{
    let crc = chunk_crc(tag.0@, data);
    lemma_wire_fields(tag.0@, data, crc);
    lemma_be_value_of_bytes(crc);
}

/// The CRC of a chunk is a function of its tag bytes and payload: chunks that
/// agree on both have the same CRC.
pub proof fn lemma_crc_determined(a: Chunk, b: Chunk)
    requires
        a.chunk_type == b.chunk_type,
        a.chunk_data@ == b.chunk_data@,
    ensures
        chunk_crc(a.chunk_type.0@, a.chunk_data@) == chunk_crc(b.chunk_type.0@, b.chunk_data@),
{
}

/// Four bytes that differ from those of `n` in one place do not read as `n`.
proof fn lemma_changed_field(n: u32, f: Seq<u8>, i: int)
    requires
        f.len() == 4,
        0 <= i < 4,
        f[i] != be_bytes(n)[i],
    ensures
        be_value(f) != n,
{
    if be_value(f) == n {
        lemma_be_bytes_of_value(f);
    }
}

/// Changing any one byte of the CRC field in the wire form of a chunk with a
/// legal tag leaves the envelope well framed, with the same tag and payload,
/// but makes the claimed CRC differ from the computed one: parsing then fails
/// with the checksum error that carries both.
pub proof fn lemma_tampered_crc_rejected(tag: ChunkType, data: Seq<u8>, i: int, x: u8)
    requires
        tag_valid(tag.0@),
        data.len() <= u32::MAX,
        0 <= i < 4,
        x != encoded(tag.0@, data)[8 + data.len() + i],
    ensures
        ({
            let t = encoded(tag.0@, data).update(8 + data.len() + i, x);
            &&& well_framed(t)
            &&& tag_of(t) == tag.0@
            &&& payload_of(t) == data
            &&& claimed_crc_of(t) != chunk_crc(tag.0@, data)
            &&& !parse_accepts(t)
        }),
{
    let crc = chunk_crc(tag.0@, data);
    let w = encoded(tag.0@, data);
    let t = w.update(8 + data.len() + i, x);
    let l = data.len() as int;
    lemma_wire_fields(tag.0@, data, crc);
    assert(t.subrange(0, 4) =~= w.subrange(0, 4));
    assert(tag_of(t) =~= tag_of(w));
    assert(payload_of(t) =~= payload_of(w));
    let field = t.subrange(8 + l, 12 + l);
    assert(field[i] == x);
    assert(be_bytes(crc)[i] == w[8 + l + i]);
    lemma_changed_field(crc, field, i);
}

/// A buffer whose tag is not a legal chunk type (say, its third byte is
/// lowercase) is rejected on its type, whatever its CRC field holds.
pub proof fn lemma_invalid_tag_rejected(tag: ChunkType, data: Seq<u8>, crc: u32)
    requires
        !tag_valid(tag.0@),
        data.len() <= u32::MAX,
    ensures
        wire(tag.0@, data, crc).len() >= 12,
        !tag_valid(tag_of(wire(tag.0@, data, crc))),
        !parse_accepts(wire(tag.0@, data, crc)),
{
    lemma_wire_fields(tag.0@, data, crc);
}

} // verus!
