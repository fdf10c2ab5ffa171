//! The 14-byte preamble of the flat format: a 2-byte ASCII signature, the
//! total file length, four reserved bytes, and the byte offset of the pixel
//! payload. The signature is checked during parsing but not stored; it is
//! always re-emitted on serialization.

use crate::bytes::{push_bytes, push_u32_le, read_u32_le};
use crate::FormatError;
use vstd::bytes::{spec_u32_from_le_bytes, spec_u32_to_le_bytes};
use vstd::prelude::*;
use vstd::slice::slice_index_get;

verus! {

/// The mathematical model of the preamble: the stored fields only.
#[verifier::ext_equal]
pub struct FileHeaderView {
    pub length: u32,
    pub reserved: Seq<u8>,
    pub img_offset: u32,
}

/// The reserved run holds exactly four bytes.
pub open spec fn spec_file_header_wf(h: FileHeaderView) -> bool {
    h.reserved.len() == 4
}

/// The serialized preamble: signature, little-endian length, reserved bytes,
/// little-endian offset — 14 bytes.
pub open spec fn spec_file_header_bytes(h: FileHeaderView) -> Seq<u8> {
    seq![66u8, 77u8] + spec_u32_to_le_bytes(h.length) + h.reserved + spec_u32_to_le_bytes(
        h.img_offset,
    )
}

/// Parsing the preamble off the front of `s`.
pub open spec fn spec_parse_file_header(s: Seq<u8>) -> Result<FileHeaderView, FormatError> {
    if s.len() < 14 {
        Err(FormatError::Truncated)
    } else if !(s[0] == 66 && s[1] == 77) {
        Err(FormatError::BadMagic)
    } else {
        Ok(
            FileHeaderView {
                length: spec_u32_from_le_bytes(s.subrange(2, 6)),
                reserved: s.subrange(6, 10),
                img_offset: spec_u32_from_le_bytes(s.subrange(10, 14)),
            },
        )
    }
}

/// The preamble of a flat image. Immutable once built.
#[derive(Clone, Copy, Debug)]
pub struct BmpFileHeader {
    length: u32,
    reserved_vals: [u8; 4],
    img_offset: u32,
}

impl View for BmpFileHeader {
    type V = FileHeaderView;

    closed spec fn view(&self) -> FileHeaderView {
        FileHeaderView {
            length: self.length,
            reserved: self.reserved_vals@,
            img_offset: self.img_offset,
        }
    }
}

impl BmpFileHeader {
    /// Direct construction from the three stored fields.
    pub fn new(length: u32, reserved_vals: [u8; 4], img_offset: u32) -> (r: BmpFileHeader)
        ensures
            r@ == (FileHeaderView { length, reserved: reserved_vals@, img_offset }),
            spec_file_header_wf(r@),
    {
        BmpFileHeader { length, reserved_vals, img_offset }
    }

    /// The stored total file length.
    pub fn length(&self) -> (r: u32)
        ensures
            r == self@.length,
    {
        self.length
    }

    /// The four reserved bytes.
    pub fn reserved_vals(&self) -> (r: &[u8; 4])
        ensures
            r@ == self@.reserved,
    {
        &self.reserved_vals
    }

    /// The byte offset of the pixel payload from the start of the file.
    pub fn img_offset(&self) -> (r: u32)
        ensures
            r == self@.img_offset,
    {
        self.img_offset
    }

    /// The serialized preamble, signature included; round-trips with
    /// [`BmpFileHeader::parse`].
    pub fn as_bytes(&self) -> (r: Vec<u8>)
        ensures
            r@ == spec_file_header_bytes(self@),
    {
        let mut v: Vec<u8> = Vec::new();
        v.push(66);
        v.push(77);
        push_u32_le(&mut v, self.length);
        push_bytes(&mut v, self.reserved_vals.as_slice());
        push_u32_le(&mut v, self.img_offset);
        proof {
            assert(v@ =~= spec_file_header_bytes(self@));
        }
        v
    }

    /// Reads the preamble off the front of `buf`. Fails with `Truncated` on
    /// fewer than 14 bytes and with `BadMagic` if the signature mismatches.
    pub fn parse(buf: &[u8]) -> (r: Result<BmpFileHeader, FormatError>)
        ensures
            match r {
                Ok(h) => spec_parse_file_header(buf@) == Ok::<FileHeaderView, FormatError>(h@)
                    && spec_file_header_wf(h@),
                Err(e) => spec_parse_file_header(buf@) == Err::<FileHeaderView, FormatError>(e),
            },
    {
        let buf_len = buf.len();
        if buf_len < 14 {
            return Err(FormatError::Truncated);
        }
        if !(*slice_index_get(buf, 0) == 66 && *slice_index_get(buf, 1) == 77) {
            return Err(FormatError::BadMagic);
        }
        let length = read_u32_le(buf, 2);
        let reserved_vals: [u8; 4] = [
            *slice_index_get(buf, 6),
            *slice_index_get(buf, 7),
            *slice_index_get(buf, 8),
            *slice_index_get(buf, 9),
        ];
        let img_offset = read_u32_le(buf, 10);
        proof {
            assert(reserved_vals@ =~= buf@.subrange(6, 10));
        }
        Ok(BmpFileHeader { length, reserved_vals, img_offset })
    }
}

/// Parsing inverts serialization for the preamble, even with arbitrary bytes
/// following it.
pub proof fn lemma_file_header_round_trip(h: FileHeaderView, rest: Seq<u8>)
    requires
        spec_file_header_wf(h),
    ensures
        spec_file_header_bytes(h).len() == 14,
        spec_parse_file_header(spec_file_header_bytes(h) + rest) == Ok::<
            FileHeaderView,
            FormatError,
        >(h),
        (spec_file_header_bytes(h) + rest).skip(14) == rest,
{
    vstd::bytes::lemma_auto_spec_u32_to_from_le_bytes();
    let s = spec_file_header_bytes(h) + rest;
    assert(s[0] == 66 && s[1] == 77);
    assert(s.subrange(2, 6) =~= spec_u32_to_le_bytes(h.length));
    assert(s.subrange(6, 10) =~= h.reserved);
    assert(s.subrange(10, 14) =~= spec_u32_to_le_bytes(h.img_offset));
    let parsed = FileHeaderView {
        length: spec_u32_from_le_bytes(s.subrange(2, 6)),
        reserved: s.subrange(6, 10),
        img_offset: spec_u32_from_le_bytes(s.subrange(10, 14)),
    };
    assert(parsed =~= h);
    assert(s.skip(14) =~= rest);
}

} // verus!
