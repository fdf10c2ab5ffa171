//! The chunked, self-describing container format: a fixed 8-byte magic
//! signature followed by an ordered sequence of length/type/data/checksum
//! records. The record order is the on-disk order and is preserved.

pub mod chunk;
pub mod chunk_type;

use crate::bytes::{push_bytes, spec_u32_from_be_bytes, spec_u32_to_be_bytes};
use crate::png::chunk::{
    spec_chunk_bytes, spec_chunk_wf, spec_code_recognized, spec_parse_chunk, Chunk, ChunkView,
};
use crate::FormatError;
use vstd::prelude::*;
use vstd::slice::{slice_index_get, slice_subrange};

verus! {

/// The fixed 8-byte magic signature of the container.
pub open spec fn spec_png_magic() -> Seq<u8> {
    seq![137u8, 80u8, 78u8, 71u8, 13u8, 10u8, 26u8, 10u8]
}

/// The serialized records, concatenated in order.
pub open spec fn spec_chunks_bytes(cs: Seq<ChunkView>) -> Seq<u8>
    decreases cs.len(),
{
    if cs.len() == 0 {
        Seq::empty()
    } else {
        spec_chunk_bytes(cs[0]) + spec_chunks_bytes(cs.skip(1))
    }
}

/// The serialized container: the magic signature, then every record in order.
pub open spec fn spec_png_bytes(cs: Seq<ChunkView>) -> Seq<u8> {
    spec_png_magic() + spec_chunks_bytes(cs)
}

/// Every record is internally consistent and carries a recognized type.
pub open spec fn spec_png_wf(cs: Seq<ChunkView>) -> bool {
    forall|i: int|
        0 <= i < cs.len() ==> spec_chunk_wf(#[trigger] cs[i]) && spec_code_recognized(
            cs[i].type_code,
        )
}

/// Prefixes already-parsed records onto the outcome for the remaining bytes.
pub open spec fn spec_prepend_chunks(
    prefix: Seq<ChunkView>,
    r: Result<Seq<ChunkView>, FormatError>,
) -> Result<Seq<ChunkView>, FormatError> {
    match r {
        Ok(cs) => Ok(prefix + cs),
        Err(e) => Err(e),
    }
}

/// Parsing records one after another until the bytes are exhausted exactly.
/// A record that would overshoot the end surfaces the underlying record-parse
/// error, never a silent stop.
pub open spec fn spec_parse_chunks(s: Seq<u8>) -> Result<Seq<ChunkView>, FormatError>
    decreases s.len(),
{
    if s.len() == 0 {
        Ok(Seq::empty())
    } else {
        match spec_parse_chunk(s) {
            Err(e) => Err(e),
            Ok((c, used)) => {
                if 0 < used <= s.len() {
                    spec_prepend_chunks(seq![c], spec_parse_chunks(s.skip(used)))
                } else {
                    Err(FormatError::Truncated)
                }
            },
        }
    }
}

/// Parsing a whole container: the magic signature, then records to the end.
pub open spec fn spec_parse_png(s: Seq<u8>) -> Result<Seq<ChunkView>, FormatError> {
    if s.len() < 8 {
        Err(FormatError::Truncated)
    } else if s.subrange(0, 8) != spec_png_magic() {
        Err(FormatError::BadMagic)
    } else {
        spec_parse_chunks(s.skip(8))
    }
}

/// An ordered sequence of records behind the fixed magic signature.
#[derive(Clone, Debug)]
pub struct Png {
    chunks: Vec<Chunk>,
}

impl View for Png {
    type V = Seq<ChunkView>;

    closed spec fn view(&self) -> Seq<ChunkView> {
        self.chunks@.map_values(|c: Chunk| c@)
    }
}

/// True exactly when the first eight bytes are the magic signature.
fn check_magic(buf: &[u8]) -> (r: bool)
    requires
        buf@.len() >= 8,
    ensures
        r == (buf@.subrange(0, 8) == spec_png_magic()),
{
    let r = *slice_index_get(buf, 0) == 137 && *slice_index_get(buf, 1) == 80 && *slice_index_get(
        buf,
        2,
    ) == 78 && *slice_index_get(buf, 3) == 71 && *slice_index_get(buf, 4) == 13 && *slice_index_get(
        buf,
        5,
    ) == 10 && *slice_index_get(buf, 6) == 26 && *slice_index_get(buf, 7) == 10;
    proof {
        let m = spec_png_magic();
        let s = buf@.subrange(0, 8);
        if r {
            assert(s =~= m);
        } else {
            if s == m {
                assert(buf@[0] == s[0] && buf@[1] == s[1] && buf@[2] == s[2] && buf@[3] == s[3]
                    && buf@[4] == s[4] && buf@[5] == s[5] && buf@[6] == s[6] && buf@[7] == s[7]);
            }
        }
    }
    r
}

impl Png {
    /// Direct construction from a record list; no validation beyond what each
    /// record already guarantees.
    pub fn from_chunks(chunks: Vec<Chunk>) -> (r: Png)
        ensures
            r@ == chunks@.map_values(|c: Chunk| c@),
    {
        Png { chunks }
    }

    /// The records stored in this container, in on-disk order.
    pub fn chunks(&self) -> (r: &[Chunk])
        ensures
            r@.map_values(|c: Chunk| c@) == self@,
    {
        self.chunks.as_slice()
    }

    /// Parses a whole container. Fails with `Truncated` if fewer than eight
    /// bytes remain for the signature or a record claims more bytes than
    /// follow, and with `BadMagic` if the signature mismatches; otherwise
    /// records are parsed back to back until the buffer ends exactly.
    pub fn parse(buf: &[u8]) -> (r: Result<Png, FormatError>)
        ensures
            match r {
                Ok(p) => spec_parse_png(buf@) == Ok::<Seq<ChunkView>, FormatError>(p@)
                    && spec_png_wf(p@),
                Err(e) => spec_parse_png(buf@) == Err::<Seq<ChunkView>, FormatError>(e),
            },
    {
        let buf_len = buf.len();
        if buf_len < 8 {
            return Err(FormatError::Truncated);
        }
        if !check_magic(buf) {
            return Err(FormatError::BadMagic);
        }
        let mut chunks: Vec<Chunk> = Vec::new();
        let mut pointer: usize = 8;
        proof {
            assert(chunks@.map_values(|c: Chunk| c@) =~= Seq::<ChunkView>::empty());
        }
        while pointer < buf_len
            invariant
                8 <= pointer <= buf_len,
                buf_len == buf@.len(),
                buf@.subrange(0, 8) == spec_png_magic(),
                spec_png_wf(chunks@.map_values(|c: Chunk| c@)),
                spec_parse_chunks(buf@.skip(8)) == spec_prepend_chunks(
                    chunks@.map_values(|c: Chunk| c@),
                    spec_parse_chunks(buf@.skip(pointer as int)),
                ),
            decreases buf_len - pointer,
        {
            let tail = slice_subrange(buf, pointer, buf_len);
            proof {
                assert(tail@ =~= buf@.skip(pointer as int));
            }
            match Chunk::parse(tail) {
                Err(e) => {
                    proof {
                        assert(spec_parse_chunks(buf@.skip(pointer as int)) == Err::<
                            Seq<ChunkView>,
                            FormatError,
                        >(e));
                        assert(spec_parse_chunks(buf@.skip(8)) == Err::<Seq<ChunkView>, FormatError>(e));
                        assert(buf@.subrange(0, 8) == spec_png_magic());
                        assert(spec_parse_png(buf@) == Err::<Seq<ChunkView>, FormatError>(e));
                    }
                    return Err(e);
                },
                Ok((chunk, used)) => {
                    let ghost prefix = chunks@.map_values(|c: Chunk| c@);
                    chunks.push(chunk);
                    proof {
                        assert(chunks@.map_values(|c: Chunk| c@) =~= prefix.push(chunk@));
                        assert(tail@.skip(used as int) =~= buf@.skip(pointer as int + used as int));
                        assert(seq![chunk@] + spec_parse_chunks(tail@.skip(used as int))->Ok_0
                            =~= seq![chunk@]
                            + spec_parse_chunks(tail@.skip(used as int))->Ok_0);
                        match spec_parse_chunks(buf@.skip(pointer as int + used as int)) {
                            Ok(rest) => {
                                assert(prefix + (seq![chunk@] + rest) =~= prefix.push(chunk@)
                                    + rest);
                            },
                            Err(_) => {},
                        }
                    }
                    pointer = pointer + used;
                },
            }
        }
        proof {
            assert(buf@.skip(pointer as int) =~= Seq::<u8>::empty());
            let views = chunks@.map_values(|c: Chunk| c@);
            assert(views + Seq::<ChunkView>::empty() =~= views);
        }
        Ok(Png { chunks })
    }

    /// The serialized container; round-trips with [`Png::parse`].
    pub fn to_bytes(&self) -> (r: Vec<u8>)
        ensures
            r@ == spec_png_bytes(self@),
    {
        let magic: [u8; 8] = [137, 80, 78, 71, 13, 10, 26, 10];
        let mut v: Vec<u8> = Vec::new();
        push_bytes(&mut v, magic.as_slice());
        proof {
            assert(v@ =~= spec_png_magic() + spec_chunks_bytes(self@.take(0)));
        }
        let mut i: usize = 0;
        while i < self.chunks.len()
            invariant
                i <= self.chunks@.len(),
                self@.len() == self.chunks@.len(),
                v@ == spec_png_magic() + spec_chunks_bytes(self@.take(i as int)),
            decreases self.chunks@.len() - i,
        {
            let cb = (&self.chunks[i]).as_bytes();
            push_bytes(&mut v, cb.as_slice());
            proof {
                lemma_chunks_bytes_snoc(self@.take(i as int), self@[i as int]);
                assert(self@.take(i as int + 1) =~= self@.take(i as int).push(self@[i as int]));
            }
            i = i + 1;
        }
        proof {
            assert(self@.take(self.chunks@.len() as int) =~= self@);
        }
        v
    }
}

/// Appending one record to a list appends its bytes to the serialization.
#[verifier::rlimit(30)]
proof fn lemma_chunks_bytes_snoc(cs: Seq<ChunkView>, c: ChunkView)
    ensures
        spec_chunks_bytes(cs.push(c)) == spec_chunks_bytes(cs) + spec_chunk_bytes(c),
    decreases cs.len(),
{
    assert(spec_chunks_bytes(cs.push(c)) == spec_chunk_bytes(cs.push(c)[0]) + spec_chunks_bytes(
        cs.push(c).skip(1),
    ));
    if cs.len() == 0 {
        assert(cs.push(c)[0] == c);
        assert(cs.push(c).skip(1) =~= Seq::<ChunkView>::empty());
        assert(spec_chunks_bytes(Seq::<ChunkView>::empty()) == Seq::<u8>::empty());
        assert(cs =~= Seq::<ChunkView>::empty());
        assert(spec_chunks_bytes(cs.push(c)) =~= spec_chunks_bytes(cs) + spec_chunk_bytes(c));
    } else {
        lemma_chunks_bytes_snoc(cs.skip(1), c);
        assert(cs.push(c).skip(1) =~= cs.skip(1).push(c));
        assert(cs.push(c)[0] == cs[0]);
        assert(spec_chunks_bytes(cs) == spec_chunk_bytes(cs[0]) + spec_chunks_bytes(cs.skip(1)));
        assert(spec_chunks_bytes(cs.push(c)) =~= spec_chunks_bytes(cs) + spec_chunk_bytes(c));
    }
}

/// Round trip of the record list: parsing inverts serialization.
#[verifier::spinoff_prover]
#[verifier::rlimit(100)]
proof fn lemma_chunks_round_trip(cs: Seq<ChunkView>)
    requires
        spec_png_wf(cs),
    ensures
        spec_parse_chunks(spec_chunks_bytes(cs)) == Ok::<Seq<ChunkView>, FormatError>(cs),
    decreases cs.len(),
{
    if cs.len() == 0 {
        assert(spec_chunks_bytes(cs).len() == 0);
        assert(cs =~= Seq::<ChunkView>::empty());
    } else {
        let c = cs[0];
        let rest = cs.skip(1);
        let rest_bytes = spec_chunks_bytes(rest);
        crate::png::chunk::lemma_chunk_round_trip(c, rest_bytes);
        assert forall|i: int| 0 <= i < rest.len() implies spec_chunk_wf(#[trigger] rest[i])
            && spec_code_recognized(rest[i].type_code) by {
            assert(rest[i] == cs[i + 1]);
        }
        lemma_chunks_round_trip(rest);
        let s = spec_chunk_bytes(c) + rest_bytes;
        assert(spec_chunks_bytes(cs) == s);
        let used = 12 + c.data.len() as int;
        assert(s.len() == used + rest_bytes.len());
        assert(spec_parse_chunks(s) == spec_prepend_chunks(seq![c], spec_parse_chunks(s.skip(used))));
        assert(spec_parse_chunks(s) == Ok::<Seq<ChunkView>, FormatError>(seq![c] + rest));
        assert(seq![c] + rest =~= cs);
    }
}

/// Round trip: a container built from well-formed records with recognized
/// types parses back from its own serialization, record for record, in the
/// same order.
pub proof fn lemma_png_round_trip(cs: Seq<ChunkView>)
    requires
        spec_png_wf(cs),
    ensures
        spec_parse_png(spec_png_bytes(cs)) == Ok::<Seq<ChunkView>, FormatError>(cs),
{
    let s = spec_png_bytes(cs);
    assert(s.subrange(0, 8) =~= spec_png_magic());
    assert(s.skip(8) =~= spec_chunks_bytes(cs));
    lemma_chunks_round_trip(cs);
}

/// Serializing whatever the record-list parser accepted reproduces the
/// bytes it consumed.
#[verifier::spinoff_prover]
#[verifier::rlimit(100)]
proof fn lemma_chunks_bytes_of_parse(s: Seq<u8>)
    requires
        spec_parse_chunks(s) is Ok,
    ensures
        spec_chunks_bytes(spec_parse_chunks(s)->Ok_0) == s,
    decreases s.len(),
{
    crate::bytes::lemma_u32_be_bytes_round_trip();
    if s.len() == 0 {
        assert(spec_chunks_bytes(Seq::<ChunkView>::empty()) =~= s);
    } else {
        let (c, used) = spec_parse_chunk(s)->Ok_0;
        let n = spec_u32_from_be_bytes(s.subrange(0, 4)) as int;
        assert(used == 12 + n);
        assert(spec_u32_to_be_bytes(c.length) == s.subrange(0, 4));
        assert(spec_u32_to_be_bytes(c.crc) == s.subrange(8 + n, 12 + n));
        assert(spec_chunk_bytes(c) =~= s.subrange(0, used));
        let rest = s.skip(used);
        lemma_chunks_bytes_of_parse(rest);
        let cs = spec_parse_chunks(s)->Ok_0;
        assert(cs == seq![c] + spec_parse_chunks(rest)->Ok_0);
        assert(cs[0] == c);
        assert(cs.skip(1) =~= spec_parse_chunks(rest)->Ok_0);
        assert(spec_chunks_bytes(cs) == spec_chunk_bytes(c) + spec_chunks_bytes(cs.skip(1)));
        assert(spec_chunk_bytes(c) + rest =~= s);
    }
}

/// The byte-level converse of the round trip: serializing whatever the
/// container parser accepted reproduces the input bytes exactly.
#[verifier::spinoff_prover]
#[verifier::rlimit(60)]
pub proof fn lemma_png_serialize_of_parse(s: Seq<u8>)
    requires
        spec_parse_png(s) is Ok,
    ensures
        spec_png_bytes(spec_parse_png(s)->Ok_0) == s,
{
    assert(s.subrange(0, 8) == spec_png_magic());
    lemma_chunks_bytes_of_parse(s.skip(8));
    assert(spec_png_bytes(spec_parse_png(s)->Ok_0) =~= s);
}

/// Magic sensitivity: replacing any one of the eight signature bytes of a
/// serialized container with a different value makes parsing fail with
/// `BadMagic`.
pub proof fn lemma_magic_byte_flip(cs: Seq<ChunkView>, j: int, b: u8)
    requires
        0 <= j < 8,
        b != spec_png_bytes(cs)[j],
    ensures
        spec_parse_png(spec_png_bytes(cs).update(j, b)) == Err::<Seq<ChunkView>, FormatError>(
            FormatError::BadMagic,
        ),
{
    let s0 = spec_png_bytes(cs);
    let s = s0.update(j, b);
    assert(s0[j] == spec_png_magic()[j]);
    assert(s.subrange(0, 8)[j] == b);
    assert(s.subrange(0, 8) != spec_png_magic());
}

} // verus!
