//! A second reading of the flat format's preamble that skips the signature:
//! parsing reads the three stored fields at their fixed offsets without
//! checking bytes 0..2, and serialization emits the 12 field bytes without
//! re-emitting a signature. [`crate::bmp::bmp_file_header::BmpFileHeader`] is
//! the checked variant used by the whole-image parser.

use crate::bmp::bmp_file_header::FileHeaderView;
use crate::bytes::{push_bytes, push_u32_le, read_u32_le};
use crate::FormatError;
use vstd::bytes::{spec_u32_from_le_bytes, spec_u32_to_le_bytes};
use vstd::prelude::*;
use vstd::slice::slice_index_get;

verus! {

/// The 12 field bytes: little-endian length, reserved bytes, little-endian
/// offset — no signature.
pub open spec fn spec_bmp_header_bytes(h: FileHeaderView) -> Seq<u8> {
    spec_u32_to_le_bytes(h.length) + h.reserved + spec_u32_to_le_bytes(h.img_offset)
}

/// Parsing the fields at offsets 2..14, ignoring the two signature bytes.
pub open spec fn spec_parse_bmp_header(s: Seq<u8>) -> Result<FileHeaderView, FormatError> {
    if s.len() < 14 {
        Err(FormatError::Truncated)
    } else {
        Ok(
            FileHeaderView {
                length: spec_u32_from_le_bytes(s.subrange(2, 6)),
                reserved: s.subrange(6, 10),
                img_offset: spec_u32_from_le_bytes(s.subrange(10, 14)),
            },
        )
    }
}

/// The preamble fields, read without a signature check.
#[derive(Clone, Copy, Debug)]
pub struct BmpHeader {
    length: u32,
    reserved_vals: [u8; 4],
    img_offset: u32,
}

impl View for BmpHeader {
    type V = FileHeaderView;

    closed spec fn view(&self) -> FileHeaderView {
        FileHeaderView {
            length: self.length,
            reserved: self.reserved_vals@,
            img_offset: self.img_offset,
        }
    }
}

impl BmpHeader {
    /// Direct construction from the three stored fields.
    pub fn new(length: u32, reserved_vals: [u8; 4], img_offset: u32) -> (r: BmpHeader)
        ensures
            r@ == (FileHeaderView { length, reserved: reserved_vals@, img_offset }),
            r@.reserved.len() == 4,
    {
        BmpHeader { length, reserved_vals, img_offset }
    }

    /// The stored total file length.
    pub fn length(&self) -> (r: u32)
        ensures
            r == self@.length,
    {
        self.length
    }

    /// The four reserved bytes.
    pub fn reserved_vals(&self) -> (r: &[u8; 4])
        ensures
            r@ == self@.reserved,
    {
        &self.reserved_vals
    }

    /// The byte offset of the pixel payload from the start of the file.
    pub fn img_offset(&self) -> (r: u32)
        ensures
            r == self@.img_offset,
    {
        self.img_offset
    }

    /// The 12 field bytes, without a signature.
    pub fn as_bytes(&self) -> (r: Vec<u8>)
        ensures
            r@ == spec_bmp_header_bytes(self@),
    {
        let mut v: Vec<u8> = Vec::new();
        push_u32_le(&mut v, self.length);
        push_bytes(&mut v, self.reserved_vals.as_slice());
        push_u32_le(&mut v, self.img_offset);
        proof {
            assert(v@ =~= spec_bmp_header_bytes(self@));
        }
        v
    }

    /// Reads the fields at offsets 2..14. Fails with `Truncated` on fewer
    /// than 14 bytes; the signature bytes are not examined.
    pub fn parse(buf: &[u8]) -> (r: Result<BmpHeader, FormatError>)
        ensures
            match r {
                Ok(h) => spec_parse_bmp_header(buf@) == Ok::<FileHeaderView, FormatError>(h@)
                    && h@.reserved.len() == 4,
                Err(e) => spec_parse_bmp_header(buf@) == Err::<FileHeaderView, FormatError>(e),
            },
    {
        let buf_len = buf.len();
        if buf_len < 14 {
            return Err(FormatError::Truncated);
        }
        let length = read_u32_le(buf, 2);
        let reserved_vals: [u8; 4] = [
            *slice_index_get(buf, 6),
            *slice_index_get(buf, 7),
            *slice_index_get(buf, 8),
            *slice_index_get(buf, 9),
        ];
        let img_offset = read_u32_le(buf, 10);
        proof {
            assert(reserved_vals@ =~= buf@.subrange(6, 10));
        }
        Ok(BmpHeader { length, reserved_vals, img_offset })
    }
}

} // verus!
