//! One record of the chunked container: a big-endian length, a four-byte
//! type, the payload, and a 32-bit cyclic redundancy checksum over
//! (type bytes ++ payload).
//!
//! The set of recognized record types is closed; a record whose type does not
//! map to a known identifier is a parse error of its own, surfaced before
//! checksum verification.

use crate::bytes::{
    copy_range, push_bytes, push_u32_be, read_u32_be, spec_u32_from_be_bytes, spec_u32_to_be_bytes,
};
use crate::png::chunk_type::spec_code_wf;
use crate::FormatError;
use vstd::array::array_index_get;
use vstd::prelude::*;
use vstd::slice::slice_subrange;
use vstd::string::StringExecFns;

verus! {

// ---------------------------------------------------------------------------
// the checksum
// ---------------------------------------------------------------------------

/// The 32-bit cyclic redundancy check (ISO-HDLC polynomial) over `data`.
/// The value is pinned only by the outside implementation; contracts relate
/// stored and recomputed checksums through this name.
pub uninterp spec fn crc32_of(data: Seq<u8>) -> u32;

/// Relies on `crc::Crc::<u32>::checksum` with the `CRC_32_ISO_HDLC`
/// algorithm: a table-driven, deterministic computation whose result depends
/// on the input bytes alone.
#[verifier::external_body]
fn generate_crc(data: &[u8]) -> (r: u32)
    ensures
        r == crc32_of(data@),
{
    crc::Crc::<u32>::new(&crc::CRC_32_ISO_HDLC).checksum(data)
}

// ---------------------------------------------------------------------------
// the recognized-type registry
// ---------------------------------------------------------------------------

/// The byte code of the geometry-bearing record type.
pub open spec fn spec_code_ihdr() -> Seq<u8> {
    seq![73u8, 72u8, 68u8, 82u8]
}

/// The byte code of the pixel-bearing record type.
pub open spec fn spec_code_idat() -> Seq<u8> {
    seq![73u8, 68u8, 65u8, 84u8]
}

/// The byte code of the trailing sentinel record type.
pub open spec fn spec_code_iend() -> Seq<u8> {
    seq![73u8, 69u8, 78u8, 68u8]
}

/// A type code maps to a known identifier.
pub open spec fn spec_code_recognized(code: Seq<u8>) -> bool {
    code == spec_code_ihdr() || code == spec_code_idat() || code == spec_code_iend()
}

/// The closed set of known record-type identifiers, plus the explicit
/// "unrecognized" outcome. `InvalidType` is not achievable through parsing a
/// valid record; it reports that a type code maps to no known identifier.
#[derive(Clone, Copy, Debug, PartialEq, Eq, Structural)]
pub enum PngChunkType {
    IHDR,
    IDAT,
    IEND,
    InvalidType,
}

/// The identifier a type code maps to, or `InvalidType` for an unknown code.
pub open spec fn spec_classify(code: Seq<u8>) -> PngChunkType {
    if code == spec_code_ihdr() {
        PngChunkType::IHDR
    } else if code == spec_code_idat() {
        PngChunkType::IDAT
    } else if code == spec_code_iend() {
        PngChunkType::IEND
    } else {
        PngChunkType::InvalidType
    }
}

/// True exactly when the four bytes of `code` are `b0 b1 b2 b3`.
fn code_is(code: &[u8; 4], b0: u8, b1: u8, b2: u8, b3: u8) -> (r: bool)
    ensures
        r == (code@ == seq![b0, b1, b2, b3]),
{
    let r = *array_index_get(code, 0) == b0 && *array_index_get(code, 1) == b1
        && *array_index_get(code, 2) == b2 && *array_index_get(code, 3) == b3;
    proof {
        let s = seq![b0, b1, b2, b3];
        if r {
            assert(code@ =~= s);
        } else {
            if code@ == s {
                assert(code@[0] == b0 && code@[1] == b1 && code@[2] == b2 && code@[3] == b3);
            }
        }
    }
    r
}

impl PngChunkType {
    /// Looks a four-byte code up in the registry of known identifiers.
    pub fn from_code(code: &[u8; 4]) -> (r: PngChunkType)
        ensures
            r == spec_classify(code@),
    {
        if code_is(code, 73, 72, 68, 82) {
            PngChunkType::IHDR
        } else if code_is(code, 73, 68, 65, 84) {
            PngChunkType::IDAT
        } else if code_is(code, 73, 69, 78, 68) {
            PngChunkType::IEND
        } else {
            PngChunkType::InvalidType
        }
    }

    /// The identifier's name as text.
    pub fn to_text(&self) -> (r: String)
        ensures
            match self {
                PngChunkType::IHDR => r@ == "IHDR"@,
                PngChunkType::IDAT => r@ == "IDAT"@,
                PngChunkType::IEND => r@ == "IEND"@,
                PngChunkType::InvalidType => r@ == "InvalidType"@,
            },
    {
        match self {
            PngChunkType::IHDR => String::from_str("IHDR"),
            PngChunkType::IDAT => String::from_str("IDAT"),
            PngChunkType::IEND => String::from_str("IEND"),
            PngChunkType::InvalidType => String::from_str("InvalidType"),
        }
    }
}

// ---------------------------------------------------------------------------
// the record itself
// ---------------------------------------------------------------------------

/// The mathematical model of one record: its stored length, the four type
/// bytes, the payload, and the stored checksum.
#[verifier::ext_equal]
pub struct ChunkView {
    pub length: u32,
    pub type_code: Seq<u8>,
    pub data: Seq<u8>,
    pub crc: u32,
}

/// Internal consistency of a record: a well-formed type code, the length
/// field counting exactly the payload bytes, and the stored checksum equal to
/// the one computed over (type bytes ++ payload).
pub open spec fn spec_chunk_wf(c: ChunkView) -> bool {
    &&& spec_code_wf(c.type_code)
    &&& c.length == c.data.len()
    &&& c.crc == crc32_of(c.type_code + c.data)
}

/// The serialized form: big-endian length, type bytes, payload, big-endian
/// checksum, in that order.
pub open spec fn spec_chunk_bytes(c: ChunkView) -> Seq<u8> {
    spec_u32_to_be_bytes(c.length) + c.type_code + c.data + spec_u32_to_be_bytes(c.crc)
}

/// Parsing one record off the front of `s`: the record and the number of
/// bytes consumed, or the first violated invariant.
pub open spec fn spec_parse_chunk(s: Seq<u8>) -> Result<(ChunkView, int), FormatError> {
    if s.len() < 4 {
        Err(FormatError::Truncated)
    } else {
        let n = spec_u32_from_be_bytes(s.subrange(0, 4)) as int;
        if s.len() < 12 + n {
            Err(FormatError::Truncated)
        } else {
            let code = s.subrange(4, 8);
            if !(spec_code_wf(code) && spec_code_recognized(code)) {
                Err(FormatError::InvalidEncoding)
            } else {
                let stored = spec_u32_from_be_bytes(s.subrange(8 + n, 12 + n));
                let computed = crc32_of(s.subrange(4, 8 + n));
                if stored != computed {
                    Err(FormatError::ChecksumMismatch { stored, computed })
                } else {
                    Ok(
                        (
                            ChunkView {
                                length: n as u32,
                                type_code: code,
                                data: s.subrange(8, 8 + n),
                                crc: stored,
                            },
                            12 + n,
                        ),
                    )
                }
            }
        }
    }
}

/// One length/type/data/checksum record. It owns its payload; it is never
/// mutated after construction.
#[derive(Clone, Debug)]
pub struct Chunk {
    length: u32,
    chunk_type: crate::png::chunk_type::PngChunkType,
    data: Vec<u8>,
    crc: u32,
}

impl View for Chunk {
    type V = ChunkView;

    closed spec fn view(&self) -> ChunkView {
        ChunkView {
            length: self.length,
            type_code: self.chunk_type@,
            data: self.data@,
            crc: self.crc,
        }
    }
}

impl Chunk {
    /// Builds a record from a type and a payload, computing the length and
    /// the checksum; it always succeeds.
    pub fn new(chunk_type: crate::png::chunk_type::PngChunkType, data: Vec<u8>) -> (r: Chunk)
        requires
            data@.len() <= u32::MAX,
        ensures
            r@ == (ChunkView {
                length: data@.len() as u32,
                type_code: chunk_type@,
                data: data@,
                crc: crc32_of(chunk_type@ + data@),
            }),
            spec_chunk_wf(r@),
    {
        proof {
            use_type_invariant(&chunk_type);
            chunk_type.lemma_inv_code_wf();
        }
        let length = data.len() as u32;
        let tb = chunk_type.bytes();
        let mut full: Vec<u8> = Vec::new();
        push_bytes(&mut full, tb.as_slice());
        push_bytes(&mut full, data.as_slice());
        proof {
            assert(full@ =~= chunk_type@ + data@);
        }
        let crc = generate_crc(full.as_slice());
        Chunk { length, chunk_type, data, crc }
    }

    /// The stored payload length.
    pub fn length(&self) -> (r: u32)
        ensures
            r == self@.length,
    {
        self.length
    }

    /// The record's type identifier.
    pub fn chunk_type(&self) -> (r: &crate::png::chunk_type::PngChunkType)
        ensures
            r@ == self@.type_code,
    {
        &self.chunk_type
    }

    /// The payload bytes.
    pub fn data(&self) -> (r: &[u8])
        ensures
            r@ == self@.data,
    {
        self.data.as_slice()
    }

    /// The stored checksum.
    pub fn crc(&self) -> (r: u32)
        ensures
            r == self@.crc,
    {
        self.crc
    }

    /// The serialized record; round-trips with [`Chunk::parse`].
    pub fn as_bytes(&self) -> (r: Vec<u8>)
        ensures
            r@ == spec_chunk_bytes(self@),
    {
        let mut v: Vec<u8> = Vec::new();
        push_u32_be(&mut v, self.length);
        let tb = self.chunk_type.bytes();
        push_bytes(&mut v, tb.as_slice());
        push_bytes(&mut v, self.data.as_slice());
        push_u32_be(&mut v, self.crc);
        proof {
            assert(v@ =~= spec_chunk_bytes(self@));
        }
        v
    }

    /// Reads one record off the front of `buf` and says how many bytes it
    /// consumed. Fails with `Truncated` if `buf` is shorter than the record
    /// claims, with `InvalidEncoding` if the type bytes are not alphabetic
    /// ASCII or map to no known identifier, and with `ChecksumMismatch` —
    /// carrying both values — if the stored checksum does not equal the one
    /// recomputed over (type bytes ++ payload).
    pub fn parse(buf: &[u8]) -> (r: Result<(Chunk, usize), FormatError>)
        ensures
            match r {
                Ok((c, used)) => {
                    &&& spec_parse_chunk(buf@) == Ok::<(ChunkView, int), FormatError>(
                        (c@, used as int),
                    )
                    &&& spec_chunk_wf(c@)
                    &&& spec_code_recognized(c@.type_code)
                    &&& 12 <= used <= buf@.len()
                },
                Err(e) => spec_parse_chunk(buf@) == Err::<(ChunkView, int), FormatError>(e),
            },
    {
        let buf_len = buf.len();
        if buf_len < 4 {
            return Err(FormatError::Truncated);
        }
        let length_u32 = read_u32_be(buf, 0);
        let n = length_u32 as usize;
        if buf_len < 12 || buf_len - 12 < n {
            return Err(FormatError::Truncated);
        }
        let code: [u8; 4] = [
            *vstd::slice::slice_index_get(buf, 4),
            *vstd::slice::slice_index_get(buf, 5),
            *vstd::slice::slice_index_get(buf, 6),
            *vstd::slice::slice_index_get(buf, 7),
        ];
        proof {
            assert(code@ =~= buf@.subrange(4, 8));
        }
        let chunk_type = match crate::png::chunk_type::PngChunkType::parse(code) {
            Ok(t) => t,
            Err(_) => {
                return Err(FormatError::InvalidEncoding);
            },
        };
        if matches!(PngChunkType::from_code(&code), PngChunkType::InvalidType) {
            return Err(FormatError::InvalidEncoding);
        }
        let crc_offset = 8 + n;
        let stored = read_u32_be(buf, crc_offset);
        let computed = generate_crc(slice_subrange(buf, 4, crc_offset));
        if stored != computed {
            return Err(FormatError::ChecksumMismatch { stored, computed });
        }
        let data = copy_range(buf, 8, n);
        let chunk = Chunk { length: length_u32, chunk_type, data, crc: stored };
        proof {
            let s = buf@;
            let ni = n as int;
            assert(s.subrange(4, 8 + ni) =~= s.subrange(4, 8) + s.subrange(8, 8 + ni));
            assert(chunk@ =~= (ChunkView {
                length: ni as u32,
                type_code: s.subrange(4, 8),
                data: s.subrange(8, 8 + ni),
                crc: stored,
            }));
        }
        Ok((chunk, 12 + n))
    }
}

/// Length enforcement: a record that claims `length = N` but is followed by
/// fewer than `N` payload bytes (plus its checksum) fails with `Truncated`.
pub proof fn lemma_chunk_truncated(s: Seq<u8>)
    requires
        s.len() >= 4,
        s.len() < 12 + spec_u32_from_be_bytes(s.subrange(0, 4)),
    ensures
        spec_parse_chunk(s) == Err::<(ChunkView, int), FormatError>(FormatError::Truncated),
{
}

/// Corruption of the type field: replacing any one of the four type bytes of
/// a serialized well-formed, recognized record with a different value makes
/// parsing fail. The known identifiers differ pairwise in at least two byte
/// positions, so a one-byte change never reaches another recognized code; the
/// record is rejected as unrecognized, before checksum verification.
pub proof fn lemma_type_byte_flip_rejected(c: ChunkView, j: int, b: u8)
    requires
        spec_chunk_wf(c),
        spec_code_recognized(c.type_code),
        4 <= j < 8,
        b != spec_chunk_bytes(c)[j],
    ensures
        spec_parse_chunk(spec_chunk_bytes(c).update(j, b)) == Err::<(ChunkView, int), FormatError>(
            FormatError::InvalidEncoding,
        ),
{
    crate::bytes::lemma_u32_be_bytes_round_trip();
    let n = c.data.len() as int;
    let s0 = spec_chunk_bytes(c);
    let s = s0.update(j, b);
    assert(s.len() == 12 + n);
    assert(s.subrange(0, 4) =~= s0.subrange(0, 4));
    assert(s0.subrange(0, 4) =~= spec_u32_to_be_bytes(c.length));
    assert(s0.subrange(4, 8) =~= c.type_code);
    let code = s.subrange(4, 8);
    let p = j - 4;
    assert(code[p] == b && b != c.type_code[p]);
    assert forall|i: int| 0 <= i < 4 && i != p implies code[i] == c.type_code[i] by {
        assert(code[i] == s[4 + i]);
        assert(s0.subrange(4, 8)[i] == s0[4 + i]);
    }
    assert(code != c.type_code);
    assert(spec_code_ihdr()[0] == 73 && spec_code_ihdr()[1] == 72 && spec_code_ihdr()[2] == 68
        && spec_code_ihdr()[3] == 82);
    assert(spec_code_idat()[0] == 73 && spec_code_idat()[1] == 68 && spec_code_idat()[2] == 65
        && spec_code_idat()[3] == 84);
    assert(spec_code_iend()[0] == 73 && spec_code_iend()[1] == 69 && spec_code_iend()[2] == 78
        && spec_code_iend()[3] == 68);
    assert(!spec_code_recognized(code)) by {
        if code == spec_code_ihdr() || code == spec_code_idat() || code == spec_code_iend() {
            assert(code[1] == c.type_code[1] || code[2] == c.type_code[2] || code[3]
                == c.type_code[3]);
            assert(code[1] != c.type_code[1] ==> p == 1);
            assert(code[2] != c.type_code[2] ==> p == 2);
            assert(code[3] != c.type_code[3] ==> p == 3);
            assert(false);
        }
    }
}

/// Checksum sensitivity, for the stored-checksum field: replacing any one of
/// the four stored checksum bytes of a serialized well-formed record with a
/// different value makes parsing fail with `ChecksumMismatch`, and the two
/// reported values differ. (A flip inside the payload bytes changes the
/// recomputed checksum itself; that is a fact of the outside checksum
/// function, exercised by tests rather than proved.)
pub proof fn lemma_checksum_byte_flip(c: ChunkView, j: int, b: u8)
    requires
        spec_chunk_wf(c),
        spec_code_recognized(c.type_code),
        8 + c.data.len() <= j < 12 + c.data.len(),
        b != spec_chunk_bytes(c)[j],
    ensures
        ({
            let s = spec_chunk_bytes(c).update(j, b);
            let stored = spec_u32_from_be_bytes(
                s.subrange(8 + c.data.len() as int, 12 + c.data.len() as int),
            );
            &&& stored != c.crc
            &&& spec_parse_chunk(s) == Err::<(ChunkView, int), FormatError>(
                FormatError::ChecksumMismatch { stored, computed: c.crc },
            )
        }),
{
    crate::bytes::lemma_u32_be_bytes_round_trip();
    let n = c.data.len() as int;
    let s0 = spec_chunk_bytes(c);
    let s = s0.update(j, b);
    assert(s.len() == 12 + n);
    assert(s.subrange(0, 4) =~= s0.subrange(0, 4));
    assert(s.subrange(4, 8) =~= s0.subrange(4, 8));
    assert(s.subrange(4, 8 + n) =~= s0.subrange(4, 8 + n));
    assert(s.subrange(8, 8 + n) =~= s0.subrange(8, 8 + n));
    assert(s0.subrange(0, 4) =~= spec_u32_to_be_bytes(c.length));
    assert(s0.subrange(4, 8) =~= c.type_code);
    assert(s0.subrange(4, 8 + n) =~= c.type_code + c.data);
    assert(s0.subrange(8 + n, 12 + n) =~= spec_u32_to_be_bytes(c.crc));
    let t = s.subrange(8 + n, 12 + n);
    let stored = spec_u32_from_be_bytes(t);
    assert(t[j - (8 + n)] == b);
    assert(s0.subrange(8 + n, 12 + n)[j - (8 + n)] == s0[j]);
    // were the stored value unchanged, its four bytes would be unchanged too
    if stored == c.crc {
        assert(spec_u32_to_be_bytes(stored) == t);
        assert(t =~= s0.subrange(8 + n, 12 + n));
        assert(false);
    }
    let computed = crc32_of(s.subrange(4, 8 + n));
    assert(computed == c.crc);
}

/// Parsing inverts serialization for one well-formed, recognized record, even
/// with arbitrary bytes following it.
pub proof fn lemma_chunk_round_trip(c: ChunkView, rest: Seq<u8>)
    requires
        spec_chunk_wf(c),
        spec_code_recognized(c.type_code),
    ensures
        spec_chunk_bytes(c).len() == 12 + c.data.len(),
        spec_parse_chunk(spec_chunk_bytes(c) + rest) == Ok::<(ChunkView, int), FormatError>(
            (c, 12 + c.data.len() as int),
        ),
        (spec_chunk_bytes(c) + rest).skip(12 + c.data.len() as int) == rest,
{
    crate::bytes::lemma_u32_be_bytes_round_trip();
    let s = spec_chunk_bytes(c) + rest;
    let n = c.data.len() as int;
    assert(s.subrange(0, 4) =~= spec_u32_to_be_bytes(c.length));
    assert(s.subrange(4, 8) =~= c.type_code);
    assert(s.subrange(8, 8 + n) =~= c.data);
    assert(s.subrange(8 + n, 12 + n) =~= spec_u32_to_be_bytes(c.crc));
    assert(s.subrange(4, 8 + n) =~= c.type_code + c.data);
    assert(spec_u32_from_be_bytes(s.subrange(0, 4)) == c.length);
    let parsed = ChunkView {
        length: n as u32,
        type_code: s.subrange(4, 8),
        data: s.subrange(8, 8 + n),
        crc: spec_u32_from_be_bytes(s.subrange(8 + n, 12 + n)),
    };
    assert(parsed =~= c);
    assert(s.skip(12 + n) =~= rest);
}

} // verus!
