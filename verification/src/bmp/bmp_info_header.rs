//! The geometry/encoding descriptor of the flat format, polymorphic over
//! header variants. Only one variant exists: a 40-byte fixed-layout
//! descriptor, selected when the leading 4-byte length discriminant reads 40.
//! Any other discriminant is `UnsupportedVariant`; the dispatch point stays
//! open so a new variant adds a case without touching call sites.

use crate::bytes::{
    push_bytes, push_u16_le, push_u32_le, read_u16_le, read_u32_le, spec_i32_of_u32,
    spec_u32_of_i32, i32_to_u32, u32_to_i32,
};
use crate::FormatError;
use vstd::bytes::{
    spec_u16_from_le_bytes, spec_u16_to_le_bytes, spec_u32_from_le_bytes, spec_u32_to_le_bytes,
};
use vstd::prelude::*;

verus! {

/// The run-length encodings the 40-byte variant can name; `None` in the
/// descriptor means uncompressed.
#[derive(Clone, Copy, Debug, PartialEq, Eq, Structural)]
pub enum CompressionType {
    Rle8,
    Rle4,
}

/// The numeric code a compression setting serializes to.
pub open spec fn spec_compression_code(c: Option<CompressionType>) -> u32 {
    match c {
        None => 0,
        Some(CompressionType::Rle8) => 1,
        Some(CompressionType::Rle4) => 2,
    }
}

/// The mathematical model of the 40-byte descriptor.
#[verifier::ext_equal]
pub struct InfoHeaderView {
    pub length: u32,
    pub px_width: i32,
    pub px_height: i32,
    pub bits_per_pixel: u16,
    pub compression: Option<CompressionType>,
    pub img_size: u32,
    pub res_horiz: i32,
    pub res_vert: i32,
    pub num_colors: u32,
    pub num_important_colors: u32,
}

/// The stored length names the one documented 40-byte variant.
pub open spec fn spec_info_header_wf(h: InfoHeaderView) -> bool {
    h.length == 40
}

/// The serialized descriptor: every field at its fixed little-endian offset.
/// The two bytes at offsets 12..14 are emitted as zero and ignored by
/// parsing.
pub open spec fn spec_info_header_bytes(h: InfoHeaderView) -> Seq<u8> {
    spec_u32_to_le_bytes(h.length) + spec_u32_to_le_bytes(spec_u32_of_i32(h.px_width))
        + spec_u32_to_le_bytes(spec_u32_of_i32(h.px_height)) + seq![0u8, 0u8]
        + spec_u16_to_le_bytes(h.bits_per_pixel) + spec_u32_to_le_bytes(
        spec_compression_code(h.compression),
    ) + spec_u32_to_le_bytes(h.img_size) + spec_u32_to_le_bytes(spec_u32_of_i32(h.res_horiz))
        + spec_u32_to_le_bytes(spec_u32_of_i32(h.res_vert)) + spec_u32_to_le_bytes(h.num_colors)
        + spec_u32_to_le_bytes(h.num_important_colors)
}

/// Parsing the descriptor off the front of `s`: the discriminant selects the
/// variant, then each field is read at its fixed offset.
pub open spec fn spec_parse_info_header(s: Seq<u8>) -> Result<InfoHeaderView, FormatError> {
    if s.len() < 4 {
        Err(FormatError::Truncated)
    } else if spec_u32_from_le_bytes(s.subrange(0, 4)) != 40 {
        Err(FormatError::UnsupportedVariant)
    } else if s.len() < 40 {
        Err(FormatError::Truncated)
    } else {
        let code = spec_u32_from_le_bytes(s.subrange(16, 20));
        if code > 2 {
            Err(FormatError::InvalidEncoding)
        } else {
            Ok(
                InfoHeaderView {
                    length: 40,
                    px_width: spec_i32_of_u32(spec_u32_from_le_bytes(s.subrange(4, 8))),
                    px_height: spec_i32_of_u32(spec_u32_from_le_bytes(s.subrange(8, 12))),
                    bits_per_pixel: spec_u16_from_le_bytes(s.subrange(14, 16)),
                    compression: if code == 0 {
                        None
                    } else if code == 1 {
                        Some(CompressionType::Rle8)
                    } else {
                        Some(CompressionType::Rle4)
                    },
                    img_size: spec_u32_from_le_bytes(s.subrange(20, 24)),
                    res_horiz: spec_i32_of_u32(spec_u32_from_le_bytes(s.subrange(24, 28))),
                    res_vert: spec_i32_of_u32(spec_u32_from_le_bytes(s.subrange(28, 32))),
                    num_colors: spec_u32_from_le_bytes(s.subrange(32, 36)),
                    num_important_colors: spec_u32_from_le_bytes(s.subrange(36, 40)),
                },
            )
        }
    }
}

/// What every header variant exposes: its stored fields and its serialized
/// form.
pub trait BmpInfoHeader {
    /// The variant's stored fields.
    spec fn info(&self) -> InfoHeaderView;

    /// The stored descriptor length.
    fn length(&self) -> (r: u32)
        ensures
            r == self.info().length,
    ;

    /// The pixel width.
    fn px_width(&self) -> (r: i32)
        ensures
            r == self.info().px_width,
    ;

    /// The pixel height.
    fn px_height(&self) -> (r: i32)
        ensures
            r == self.info().px_height,
    ;

    /// The stored bits-per-pixel value.
    fn bits_per_pixel(&self) -> (r: u16)
        ensures
            r == self.info().bits_per_pixel,
    ;

    /// The compression setting, `None` for uncompressed.
    fn compression_type(&self) -> (r: Option<&CompressionType>)
        ensures
            match r {
                Some(c) => self.info().compression == Some(*c),
                None => self.info().compression is None,
            },
    ;

    /// The stored image byte size.
    fn img_size(&self) -> (r: u32)
        ensures
            r == self.info().img_size,
    ;

    /// The horizontal resolution.
    fn res_horiz(&self) -> (r: i32)
        ensures
            r == self.info().res_horiz,
    ;

    /// The vertical resolution.
    fn res_vert(&self) -> (r: i32)
        ensures
            r == self.info().res_vert,
    ;

    /// The stored palette size, a byte count.
    fn num_colors(&self) -> (r: u32)
        ensures
            r == self.info().num_colors,
    ;

    /// The stored count of important colors.
    fn num_important_colors(&self) -> (r: u32)
        ensures
            r == self.info().num_important_colors,
    ;

    /// The serialized descriptor.
    fn as_bytes(&self) -> (r: Vec<u8>)
        ensures
            r@ == spec_info_header_bytes(self.info()),
    ;
}

/// The one documented variant: the 40-byte fixed-layout descriptor.
#[derive(Clone, Copy, Debug)]
pub struct BitmapInfoHeader {
    length: u32,
    px_width: i32,
    px_height: i32,
    bits_per_pixel: u16,
    compression_type: Option<CompressionType>,
    img_size: u32,
    res_horiz: i32,
    res_vert: i32,
    num_colors: u32,
    num_important_colors: u32,
}

impl View for BitmapInfoHeader {
    type V = InfoHeaderView;

    closed spec fn view(&self) -> InfoHeaderView {
        InfoHeaderView {
            length: self.length,
            px_width: self.px_width,
            px_height: self.px_height,
            bits_per_pixel: self.bits_per_pixel,
            compression: self.compression_type,
            img_size: self.img_size,
            res_horiz: self.res_horiz,
            res_vert: self.res_vert,
            num_colors: self.num_colors,
            num_important_colors: self.num_important_colors,
        }
    }
}

impl BitmapInfoHeader {
    /// Direct construction; the descriptor length is fixed at 40.
    pub fn new(
        px_width: i32,
        px_height: i32,
        bits_per_pixel: u16,
        compression_type: Option<CompressionType>,
        img_size: u32,
        res_horiz: i32,
        res_vert: i32,
        num_colors: u32,
        num_important_colors: u32,
    ) -> (r: BitmapInfoHeader)
        ensures
            r@ == (InfoHeaderView {
                length: 40,
                px_width,
                px_height,
                bits_per_pixel,
                compression: compression_type,
                img_size,
                res_horiz,
                res_vert,
                num_colors,
                num_important_colors,
            }),
            spec_info_header_wf(r@),
    {
        BitmapInfoHeader {
            length: 40,
            px_width,
            px_height,
            bits_per_pixel,
            compression_type,
            img_size,
            res_horiz,
            res_vert,
            num_colors,
            num_important_colors,
        }
    }

    /// Reads the 40-byte descriptor off the front of `buf`. Fails with
    /// `Truncated` on fewer than 40 bytes, with `UnsupportedVariant` if the
    /// discriminant is not 40, and with `InvalidEncoding` on an unknown
    /// compression code.
    pub fn parse(buf: &[u8]) -> (r: Result<BitmapInfoHeader, FormatError>)
        ensures
            match r {
                Ok(h) => spec_parse_info_header(buf@) == Ok::<InfoHeaderView, FormatError>(h@)
                    && spec_info_header_wf(h@),
                Err(e) => spec_parse_info_header(buf@) == Err::<InfoHeaderView, FormatError>(e),
            },
    {
        let buf_len = buf.len();
        if buf_len < 4 {
            return Err(FormatError::Truncated);
        }
        let discriminant = read_u32_le(buf, 0);
        if discriminant != 40 {
            return Err(FormatError::UnsupportedVariant);
        }
        if buf_len < 40 {
            return Err(FormatError::Truncated);
        }
        let code = read_u32_le(buf, 16);
        let compression_type = if code == 0 {
            None
        } else if code == 1 {
            Some(CompressionType::Rle8)
        } else if code == 2 {
            Some(CompressionType::Rle4)
        } else {
            return Err(FormatError::InvalidEncoding);
        };
        let px_width = u32_to_i32(read_u32_le(buf, 4));
        let px_height = u32_to_i32(read_u32_le(buf, 8));
        let bits_per_pixel = read_u16_le(buf, 14);
        let img_size = read_u32_le(buf, 20);
        let res_horiz = u32_to_i32(read_u32_le(buf, 24));
        let res_vert = u32_to_i32(read_u32_le(buf, 28));
        let num_colors = read_u32_le(buf, 32);
        let num_important_colors = read_u32_le(buf, 36);
        Ok(
            BitmapInfoHeader {
                length: 40,
                px_width,
                px_height,
                bits_per_pixel,
                compression_type,
                img_size,
                res_horiz,
                res_vert,
                num_colors,
                num_important_colors,
            },
        )
    }
}

impl BmpInfoHeader for BitmapInfoHeader {
    open spec fn info(&self) -> InfoHeaderView {
        self@
    }

    fn length(&self) -> (r: u32) {
        self.length
    }

    fn px_width(&self) -> (r: i32) {
        self.px_width
    }

    fn px_height(&self) -> (r: i32) {
        self.px_height
    }

    fn bits_per_pixel(&self) -> (r: u16) {
        self.bits_per_pixel
    }

    fn compression_type(&self) -> (r: Option<&CompressionType>) {
        self.compression_type.as_ref()
    }

    fn img_size(&self) -> (r: u32) {
        self.img_size
    }

    fn res_horiz(&self) -> (r: i32) {
        self.res_horiz
    }

    fn res_vert(&self) -> (r: i32) {
        self.res_vert
    }

    fn num_colors(&self) -> (r: u32) {
        self.num_colors
    }

    fn num_important_colors(&self) -> (r: u32) {
        self.num_important_colors
    }

    fn as_bytes(&self) -> (r: Vec<u8>) {
        let mut v: Vec<u8> = Vec::new();
        push_u32_le(&mut v, self.length);
        push_u32_le(&mut v, i32_to_u32(self.px_width));
        push_u32_le(&mut v, i32_to_u32(self.px_height));
        v.push(0);
        v.push(0);
        push_u16_le(&mut v, self.bits_per_pixel);
        let code: u32 = match self.compression_type {
            None => 0,
            Some(CompressionType::Rle8) => 1,
            Some(CompressionType::Rle4) => 2,
        };
        push_u32_le(&mut v, code);
        push_u32_le(&mut v, self.img_size);
        push_u32_le(&mut v, i32_to_u32(self.res_horiz));
        push_u32_le(&mut v, i32_to_u32(self.res_vert));
        push_u32_le(&mut v, self.num_colors);
        push_u32_le(&mut v, self.num_important_colors);
        proof {
            assert(v@ =~= spec_info_header_bytes(self@));
        }
        v
    }
}

/// A discriminant other than 40 selects no known header variant.
pub proof fn lemma_unsupported_variant(s: Seq<u8>)
    requires
        s.len() >= 4,
        spec_u32_from_le_bytes(s.subrange(0, 4)) != 40,
    ensures
        spec_parse_info_header(s) == Err::<InfoHeaderView, FormatError>(
            FormatError::UnsupportedVariant,
        ),
{
}

/// Parsing inverts serialization for a well-formed descriptor, even with
/// arbitrary bytes following it.
#[verifier::rlimit(60)]
pub proof fn lemma_info_header_round_trip(h: InfoHeaderView, rest: Seq<u8>)
    requires
        spec_info_header_wf(h),
    ensures
        spec_info_header_bytes(h).len() == 40,
        spec_parse_info_header(spec_info_header_bytes(h) + rest) == Ok::<
            InfoHeaderView,
            FormatError,
        >(h),
        (spec_info_header_bytes(h) + rest).skip(40) == rest,
{
    vstd::bytes::lemma_auto_spec_u32_to_from_le_bytes();
    vstd::bytes::lemma_auto_spec_u16_to_from_le_bytes();
    crate::bytes::lemma_i32_u32_round_trip();
    let s = spec_info_header_bytes(h) + rest;
    assert(s.subrange(0, 4) =~= spec_u32_to_le_bytes(h.length));
    assert(s.subrange(4, 8) =~= spec_u32_to_le_bytes(spec_u32_of_i32(h.px_width)));
    assert(s.subrange(8, 12) =~= spec_u32_to_le_bytes(spec_u32_of_i32(h.px_height)));
    assert(s.subrange(14, 16) =~= spec_u16_to_le_bytes(h.bits_per_pixel));
    assert(s.subrange(16, 20) =~= spec_u32_to_le_bytes(spec_compression_code(h.compression)));
    assert(s.subrange(20, 24) =~= spec_u32_to_le_bytes(h.img_size));
    assert(s.subrange(24, 28) =~= spec_u32_to_le_bytes(spec_u32_of_i32(h.res_horiz)));
    assert(s.subrange(28, 32) =~= spec_u32_to_le_bytes(spec_u32_of_i32(h.res_vert)));
    assert(s.subrange(32, 36) =~= spec_u32_to_le_bytes(h.num_colors));
    assert(s.subrange(36, 40) =~= spec_u32_to_le_bytes(h.num_important_colors));
    let code = spec_u32_from_le_bytes(s.subrange(16, 20));
    assert(code == spec_compression_code(h.compression));
    assert(code <= 2);
    let parsed = spec_parse_info_header(s)->Ok_0;
    assert(parsed.compression == h.compression);
    assert(parsed =~= h);
    assert(s.skip(40) =~= rest);
}

} // verus!
