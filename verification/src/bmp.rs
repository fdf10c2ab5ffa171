//! The flat-header bitmap format: a 14-byte preamble, a
//! discriminant-selected geometry descriptor, an optional palette table, and
//! the raw pixel payload — plus the structural mapping between this model
//! and the chunked container.

pub mod bmp_file_header;
pub mod bmp_header;
pub mod bmp_info_header;

use crate::bmp::bmp_file_header::{
    spec_file_header_bytes, spec_file_header_wf, spec_parse_file_header, BmpFileHeader,
    FileHeaderView,
};
use crate::bmp::bmp_info_header::{
    spec_info_header_bytes, spec_info_header_wf, spec_parse_info_header, BitmapInfoHeader,
    BmpInfoHeader, CompressionType, InfoHeaderView,
};
use crate::bytes::{
    copy_range, push_bytes, push_u32_be, read_u32_be, read_u32_le, spec_i32_of_u32,
    spec_u32_from_be_bytes, spec_u32_of_i32, spec_u32_to_be_bytes, i32_to_u32,
};
use crate::png::chunk::{
    crc32_of, spec_code_idat, spec_code_ihdr, Chunk, ChunkView, PngChunkType,
};
use crate::png::chunk_type::spec_is_alpha;
use crate::png::Png;
use crate::FormatError;
use vstd::prelude::*;
use vstd::slice::{slice_index_get, slice_subrange, slice_to_vec};

verus! {

// ---------------------------------------------------------------------------
// the whole-image byte layout
// ---------------------------------------------------------------------------

/// The mathematical model of a flat image: its four parts.
#[verifier::ext_equal]
pub struct BmpView {
    pub file_header: FileHeaderView,
    pub info_header: InfoHeaderView,
    pub color_table: Option<Seq<u8>>,
    pub data: Seq<u8>,
}

/// The palette bytes, or nothing.
pub open spec fn spec_color_table_len(ct: Option<Seq<u8>>) -> int {
    match ct {
        Some(t) => t.len() as int,
        None => 0,
    }
}

/// Internal consistency of a flat image: the preamble and descriptor are
/// well formed, the palette is present exactly when `bits_per_pixel != 24`
/// and then holds `num_colors` bytes, and the stored pixel offset points
/// right after the palette.
pub open spec fn spec_bmp_wf(b: BmpView) -> bool {
    &&& spec_file_header_wf(b.file_header)
    &&& spec_info_header_wf(b.info_header)
    &&& (b.info_header.bits_per_pixel == 24 <==> b.color_table is None)
    &&& (match b.color_table {
        Some(t) => t.len() == b.info_header.num_colors,
        None => true,
    })
    &&& b.file_header.img_offset == 54 + spec_color_table_len(b.color_table)
}

/// The serialized image: preamble, descriptor, palette (if any), pixels.
pub open spec fn spec_bmp_bytes(b: BmpView) -> Seq<u8> {
    spec_file_header_bytes(b.file_header) + spec_info_header_bytes(b.info_header) + (match b
        .color_table {
        Some(t) => t,
        None => Seq::<u8>::empty(),
    }) + b.data
}

/// Parsing a whole flat image: preamble, descriptor, palette, pixels. The
/// palette is read only when `bits_per_pixel != 24`, starting right after
/// the descriptor and `num_colors` bytes long; the pixel payload starts at
/// the stored offset and runs to the end of the buffer.
pub open spec fn spec_parse_bmp(s: Seq<u8>) -> Result<BmpView, FormatError> {
    match spec_parse_file_header(s) {
        Err(e) => Err(e),
        Ok(fh) => match spec_parse_info_header(s.skip(14)) {
            Err(e) => Err(e),
            Ok(ih) => {
                match spec_parse_color_table(s, ih) {
                    Err(e) => Err(e),
                    Ok(ct) => {
                        if fh.img_offset > s.len() {
                            Err(FormatError::Truncated)
                        } else {
                            Ok(
                                BmpView {
                                    file_header: fh,
                                    info_header: ih,
                                    color_table: ct,
                                    data: s.skip(fh.img_offset as int),
                                },
                            )
                        }
                    },
                }
            },
        },
    }
}

/// The palette table trailing the descriptor: absent exactly when
/// `bits_per_pixel == 24`, otherwise `num_colors` bytes starting right after
/// the descriptor.
pub open spec fn spec_parse_color_table(s: Seq<u8>, ih: InfoHeaderView) -> Result<
    Option<Seq<u8>>,
    FormatError,
> {
    if ih.bits_per_pixel == 24 {
        Ok(None)
    } else {
        let start = 14 + ih.length as int;
        let end = start + ih.num_colors as int;
        if s.len() < end {
            Err(FormatError::Truncated)
        } else {
            Ok(Some(s.subrange(start, end)))
        }
    }
}

/// Reads the palette table of an image whose descriptor is `info_header`
/// out of the whole-image buffer: `None` when the pixel encoding needs no
/// palette, otherwise the `num_colors` bytes after the descriptor.
pub fn parse_color_table(buf: &[u8], info_header: &InfoHeader) -> (r: Result<
    Option<Vec<u8>>,
    FormatError,
>)
    ensures
        match r {
            Ok(Some(t)) => spec_parse_color_table(buf@, info_header@) == Ok::<
                Option<Seq<u8>>,
                FormatError,
            >(Some(t@)),
            Ok(None) => spec_parse_color_table(buf@, info_header@) == Ok::<
                Option<Seq<u8>>,
                FormatError,
            >(None),
            Err(e) => spec_parse_color_table(buf@, info_header@) == Err::<
                Option<Seq<u8>>,
                FormatError,
            >(e),
        },
{
    let buf_len = buf.len();
    if info_header.bits_per_pixel() == 24 {
        return Ok(None);
    }
    let length = info_header.length();
    let nc = info_header.num_colors();
    if buf_len < 14 || ((buf_len - 14) as u64) < (length as u64) + (nc as u64) {
        return Err(FormatError::Truncated);
    }
    let start: usize = 14 + (length as usize);
    Ok(Some(copy_range(buf, start, nc as usize)))
}

// ---------------------------------------------------------------------------
// the header-variant registry
// ---------------------------------------------------------------------------

/// The geometry descriptor as a tagged union over header variants, keyed by
/// the length discriminant. A new variant adds a case here and an arm in
/// [`InfoHeader::parse`] without touching call sites.
#[derive(Clone, Copy, Debug)]
pub enum InfoHeader {
    Bitmap(BitmapInfoHeader),
}

impl View for InfoHeader {
    type V = InfoHeaderView;

    closed spec fn view(&self) -> InfoHeaderView {
        match self {
            InfoHeader::Bitmap(h) => h@,
        }
    }
}

impl InfoHeader {
    /// The registry: reads the discriminant and dispatches to the variant's
    /// parser — 40 selects the documented 40-byte descriptor; anything else
    /// fails with `UnsupportedVariant`.
    pub fn parse(buf: &[u8]) -> (r: Result<InfoHeader, FormatError>)
        ensures
            match r {
                Ok(h) => spec_parse_info_header(buf@) == Ok::<InfoHeaderView, FormatError>(h@)
                    && spec_info_header_wf(h@),
                Err(e) => spec_parse_info_header(buf@) == Err::<InfoHeaderView, FormatError>(e),
            },
    {
        let buf_len = buf.len();
        if buf_len < 4 {
            return Err(FormatError::Truncated);
        }
        let discriminant = read_u32_le(buf, 0);
        match discriminant {
            40 => match BitmapInfoHeader::parse(buf) {
                Ok(h) => Ok(InfoHeader::Bitmap(h)),
                Err(e) => Err(e),
            },
            _ => Err(FormatError::UnsupportedVariant),
        }
    }
}

impl BmpInfoHeader for InfoHeader {
    open spec fn info(&self) -> InfoHeaderView {
        self@
    }

    fn length(&self) -> (r: u32) {
        match self {
            InfoHeader::Bitmap(h) => h.length(),
        }
    }

    fn px_width(&self) -> (r: i32) {
        match self {
            InfoHeader::Bitmap(h) => h.px_width(),
        }
    }

    fn px_height(&self) -> (r: i32) {
        match self {
            InfoHeader::Bitmap(h) => h.px_height(),
        }
    }

    fn bits_per_pixel(&self) -> (r: u16) {
        match self {
            InfoHeader::Bitmap(h) => h.bits_per_pixel(),
        }
    }

    fn compression_type(&self) -> (r: Option<&CompressionType>) {
        match self {
            InfoHeader::Bitmap(h) => h.compression_type(),
        }
    }

    fn img_size(&self) -> (r: u32) {
        match self {
            InfoHeader::Bitmap(h) => h.img_size(),
        }
    }

    fn res_horiz(&self) -> (r: i32) {
        match self {
            InfoHeader::Bitmap(h) => h.res_horiz(),
        }
    }

    fn res_vert(&self) -> (r: i32) {
        match self {
            InfoHeader::Bitmap(h) => h.res_vert(),
        }
    }

    fn num_colors(&self) -> (r: u32) {
        match self {
            InfoHeader::Bitmap(h) => h.num_colors(),
        }
    }

    fn num_important_colors(&self) -> (r: u32) {
        match self {
            InfoHeader::Bitmap(h) => h.num_important_colors(),
        }
    }

    fn as_bytes(&self) -> (r: Vec<u8>) {
        match self {
            InfoHeader::Bitmap(h) => h.as_bytes(),
        }
    }
}

// ---------------------------------------------------------------------------
// the image
// ---------------------------------------------------------------------------

/// A flat image: preamble, geometry descriptor, optional palette table, and
/// the raw pixel payload. It owns all four parts.
#[derive(Clone, Debug)]
pub struct Bmp {
    file_header: BmpFileHeader,
    info_header: InfoHeader,
    color_table: Option<Vec<u8>>,
    data: Vec<u8>,
}

impl View for Bmp {
    type V = BmpView;

    closed spec fn view(&self) -> BmpView {
        BmpView {
            file_header: self.file_header@,
            info_header: self.info_header@,
            color_table: match self.color_table {
                Some(t) => Some(t@),
                None => None,
            },
            data: self.data@,
        }
    }
}

impl Bmp {
    /// The preamble.
    pub fn file_header(&self) -> (r: &BmpFileHeader)
        ensures
            r@ == self@.file_header,
    {
        &self.file_header
    }

    /// The geometry descriptor.
    pub fn info_header(&self) -> (r: &InfoHeader)
        ensures
            r@ == self@.info_header,
    {
        &self.info_header
    }

    /// The palette table, if the image carries one.
    pub fn color_table(&self) -> (r: Option<&Vec<u8>>)
        ensures
            match r {
                Some(t) => self@.color_table == Some(t@),
                None => self@.color_table is None,
            },
    {
        self.color_table.as_ref()
    }

    /// The raw pixel payload.
    pub fn image_data(&self) -> (r: &[u8])
        ensures
            r@ == self@.data,
    {
        self.data.as_slice()
    }

    /// Parses a whole flat image, failing on the first violated invariant.
    pub fn parse(buf: &[u8]) -> (r: Result<Bmp, FormatError>)
        ensures
            match r {
                Ok(b) => spec_parse_bmp(buf@) == Ok::<BmpView, FormatError>(b@),
                Err(e) => spec_parse_bmp(buf@) == Err::<BmpView, FormatError>(e),
            },
    {
        let buf_len = buf.len();
        let file_header = match BmpFileHeader::parse(buf) {
            Ok(h) => h,
            Err(e) => {
                return Err(e);
            },
        };
        let tail = slice_subrange(buf, 14, buf_len);
        proof {
            assert(tail@ =~= buf@.skip(14));
        }
        let info_header = match InfoHeader::parse(tail) {
            Ok(h) => h,
            Err(e) => {
                return Err(e);
            },
        };
        let color_table = match parse_color_table(buf, &info_header) {
            Ok(ct) => ct,
            Err(e) => {
                return Err(e);
            },
        };
        let off: usize = file_header.img_offset() as usize;
        if off > buf_len {
            return Err(FormatError::Truncated);
        }
        let data = copy_range(buf, off, buf_len - off);
        proof {
            assert(data@ =~= buf@.skip(off as int));
        }
        Ok(Bmp { file_header, info_header, color_table, data })
    }

    /// The serialized image; round-trips with [`Bmp::parse`].
    pub fn to_bytes(&self) -> (r: Vec<u8>)
        ensures
            r@ == spec_bmp_bytes(self@),
    {
        let mut v = self.file_header.as_bytes();
        let ib = self.info_header.as_bytes();
        push_bytes(&mut v, ib.as_slice());
        match &self.color_table {
            Some(t) => push_bytes(&mut v, t.as_slice()),
            None => (),
        }
        push_bytes(&mut v, self.data.as_slice());
        proof {
            assert(v@ =~= spec_bmp_bytes(self@));
        }
        v
    }
}

/// Round trip: a well-formed flat image parses back from its own
/// serialization, part for part.
#[verifier::rlimit(60)]
pub proof fn lemma_bmp_round_trip(b: BmpView)
    requires
        spec_bmp_wf(b),
    ensures
        spec_parse_bmp(spec_bmp_bytes(b)) == Ok::<BmpView, FormatError>(b),
{
    let ctb = match b.color_table {
        Some(t) => t,
        None => Seq::<u8>::empty(),
    };
    let after_fh = spec_info_header_bytes(b.info_header) + (ctb + b.data);
    let s = spec_bmp_bytes(b);
    crate::bmp::bmp_file_header::lemma_file_header_round_trip(b.file_header, after_fh);
    assert(s =~= spec_file_header_bytes(b.file_header) + after_fh);
    assert(s.skip(14) == after_fh);
    crate::bmp::bmp_info_header::lemma_info_header_round_trip(b.info_header, ctb + b.data);
    assert(after_fh.skip(40) == ctb + b.data);
    assert(s.len() == 54 + ctb.len() + b.data.len());
    if b.info_header.bits_per_pixel == 24 {
        assert(b.file_header.img_offset == 54);
        assert(s.skip(54) =~= b.data);
        assert(spec_parse_bmp(s)->Ok_0 =~= b);
    } else {
        let nc = b.info_header.num_colors as int;
        assert(ctb.len() == nc);
        assert(s.subrange(54, 54 + nc) =~= ctb);
        assert(b.file_header.img_offset == 54 + nc);
        assert(s.skip(54 + nc) =~= b.data);
        assert(spec_parse_bmp(s)->Ok_0 =~= b);
    }
}

// ---------------------------------------------------------------------------
// the conversion pipeline
// ---------------------------------------------------------------------------

/// The first geometry-bearing record of a container, if any.
pub open spec fn spec_find_geom(cs: Seq<ChunkView>) -> Option<ChunkView>
    decreases cs.len(),
{
    if cs.len() == 0 {
        None
    } else if cs[0].type_code == spec_code_ihdr() {
        Some(cs[0])
    } else {
        spec_find_geom(cs.skip(1))
    }
}

/// The pixel-bearing payloads of a container, concatenated in record order.
pub open spec fn spec_concat_idat(cs: Seq<ChunkView>) -> Seq<u8>
    decreases cs.len(),
{
    if cs.len() == 0 {
        Seq::empty()
    } else {
        spec_concat_idat(cs.drop_last()) + (if cs.last().type_code == spec_code_idat() {
            cs.last().data
        } else {
            Seq::<u8>::empty()
        })
    }
}

/// The color types the geometry mapping has a rule for.
pub open spec fn spec_color_type_ok(ct: u8) -> bool {
    ct == 0 || ct == 2 || ct == 3 || ct == 4 || ct == 6
}

/// Bits per pixel from (color type, bit depth), per the fixed table:
/// grayscale keeps the depth, truecolor triples it, indexed is fixed at 8,
/// grayscale-with-alpha doubles it, truecolor-with-alpha is fixed at 32.
pub open spec fn spec_bpp_of(ct: u8, depth: u8) -> u16
    recommends
        spec_color_type_ok(ct),
{
    if ct == 0 {
        depth as u16
    } else if ct == 2 {
        (3 * depth) as u16
    } else if ct == 3 {
        8u16
    } else if ct == 4 {
        (2 * depth) as u16
    } else {
        32u16
    }
}

/// 2^bits_per_pixel, reduced to the 32-bit field it is stored in.
pub open spec fn spec_num_colors_of(bpp: u16) -> u32 {
    if bpp >= 32 {
        0u32
    } else {
        1u32 << (bpp as u32)
    }
}

/// Width times height scaled by the byte stride implied by bits-per-pixel,
/// reduced to the 32-bit field it is stored in.
pub open spec fn spec_img_size_of(w: u32, h: u32, bpp: u16) -> u32 {
    (((w * h * bpp) / 8) % 0x1_0000_0000) as u32
}

/// The flat image the mapping builds from the geometry record and the
/// relocated pixel payload. The geometry record's payload carries the width
/// and height as big-endian fields at offsets 0 and 4, the bit depth at
/// offset 9, and the color type at offset 10. The palette, when present, is
/// zero-filled; its content is not derived from the container.
pub open spec fn spec_png_to_bmp(geom: ChunkView, pixels: Seq<u8>) -> BmpView
    recommends
        geom.data.len() >= 11,
        spec_color_type_ok(geom.data[10]),
{
    let w = spec_u32_from_be_bytes(geom.data.subrange(0, 4));
    let h = spec_u32_from_be_bytes(geom.data.subrange(4, 8));
    let depth = geom.data[9];
    let ct = geom.data[10];
    let bpp = spec_bpp_of(ct, depth);
    let nc = spec_num_colors_of(bpp);
    let table_len: int = if bpp == 24 {
        0
    } else {
        nc as int
    };
    BmpView {
        file_header: FileHeaderView {
            length: (((54 + table_len + pixels.len()) % 0x1_0000_0000) as u32),
            reserved: seq![0u8, 0u8, 0u8, 0u8],
            img_offset: (((54 + table_len) % 0x1_0000_0000) as u32),
        },
        info_header: InfoHeaderView {
            length: 40,
            px_width: spec_i32_of_u32(w),
            px_height: spec_i32_of_u32(h),
            bits_per_pixel: bpp,
            compression: None,
            img_size: spec_img_size_of(w, h, bpp),
            res_horiz: 8,
            res_vert: 8,
            num_colors: nc,
            num_important_colors: 0,
        },
        color_table: if bpp == 24 {
            None
        } else {
            Some(Seq::new(nc as nat, |i: int| 0u8))
        },
        data: pixels,
    }
}

/// Color type and bit depth from bits-per-pixel: the inverse of the mapping
/// table. `None` where no row yields the value.
pub open spec fn spec_inverse_color(bpp: u16) -> Option<(u8, u8)> {
    if bpp == 1 {
        Some((0u8, 1u8))
    } else if bpp == 2 {
        Some((0u8, 2u8))
    } else if bpp == 4 {
        Some((0u8, 4u8))
    } else if bpp == 8 {
        Some((3u8, 8u8))
    } else if bpp == 16 {
        Some((0u8, 16u8))
    } else if bpp == 24 {
        Some((2u8, 8u8))
    } else if bpp == 32 {
        Some((6u8, 8u8))
    } else if bpp == 48 {
        Some((2u8, 16u8))
    } else {
        None
    }
}

/// The geometry payload the mirror mapping builds: width and height as
/// big-endian fields, then the bit depth and color type at the offsets the
/// forward mapping reads them from.
pub open spec fn spec_geom_payload(w: i32, h: i32, depth: u8, ct: u8) -> Seq<u8> {
    spec_u32_to_be_bytes(spec_u32_of_i32(w)) + spec_u32_to_be_bytes(spec_u32_of_i32(h)) + seq![
        0u8,
        depth,
        ct,
        0u8,
        0u8,
    ]
}

/// The two records the mirror mapping assembles: the geometry record, then
/// the pixel record carrying the payload verbatim.
pub open spec fn spec_bmp_to_png(b: BmpView) -> Seq<ChunkView>
    recommends
        spec_inverse_color(b.info_header.bits_per_pixel) is Some,
        b.data.len() <= u32::MAX,
{
    let ctd = spec_inverse_color(b.info_header.bits_per_pixel)->Some_0;
    let payload = spec_geom_payload(b.info_header.px_width, b.info_header.px_height, ctd.1, ctd.0);
    seq![
        ChunkView {
            length: 13,
            type_code: spec_code_ihdr(),
            data: payload,
            crc: crc32_of(spec_code_ihdr() + payload),
        },
        ChunkView {
            length: b.data.len() as u32,
            type_code: spec_code_idat(),
            data: b.data,
            crc: crc32_of(spec_code_idat() + b.data),
        },
    ]
}

/// A vector of `n` zero bytes.
fn zero_vec(n: usize) -> (r: Vec<u8>)
    ensures
        r@ == Seq::new(n as nat, |i: int| 0u8),
{
    let mut v: Vec<u8> = Vec::new();
    proof {
        assert(v@ =~= Seq::new(0, |j: int| 0u8));
    }
    let mut i: usize = 0;
    while i < n
        invariant
            i <= n,
            v@ == Seq::new(i as nat, |j: int| 0u8),
        decreases n - i,
    {
        v.push(0);
        i = i + 1;
        proof {
            assert(v@ =~= Seq::new(i as nat, |j: int| 0u8));
        }
    }
    v
}

/// The index of the first geometry-bearing record, if any.
fn find_geom_chunk(chunks: &[Chunk]) -> (r: Option<usize>)
    ensures
        match r {
            Some(i) => i < chunks@.len() && spec_find_geom(chunks@.map_values(|c: Chunk| c@))
                == Some(chunks@[i as int]@),
            None => spec_find_geom(chunks@.map_values(|c: Chunk| c@)) is None,
        },
{
    let ghost cs = chunks@.map_values(|c: Chunk| c@);
    let n = chunks.len();
    proof {
        assert(cs.skip(0) =~= cs);
    }
    let mut i: usize = 0;
    while i < n
        invariant
            i <= n,
            n == chunks@.len(),
            cs == chunks@.map_values(|c: Chunk| c@),
            spec_find_geom(cs) == spec_find_geom(cs.skip(i as int)),
        decreases n - i,
    {
        let c = slice_index_get(chunks, i);
        let tb = c.chunk_type().bytes();
        proof {
            assert(cs.skip(i as int)[0] == cs[i as int]);
        }
        if matches!(PngChunkType::from_code(&tb), PngChunkType::IHDR) {
            return Some(i);
        }
        proof {
            assert(cs[i as int].type_code != spec_code_ihdr());
            assert(cs.skip(i as int).skip(1) =~= cs.skip(i as int + 1));
        }
        i = i + 1;
    }
    proof {
        assert(cs.skip(n as int) =~= Seq::<ChunkView>::empty());
    }
    None
}

/// The pixel-bearing payloads, concatenated in record order.
fn concat_idat_data(chunks: &[Chunk]) -> (r: Vec<u8>)
    ensures
        r@ == spec_concat_idat(chunks@.map_values(|c: Chunk| c@)),
{
    let ghost cs = chunks@.map_values(|c: Chunk| c@);
    let mut v: Vec<u8> = Vec::new();
    proof {
        assert(cs.take(0) =~= Seq::<ChunkView>::empty());
        assert(v@ =~= spec_concat_idat(cs.take(0)));
    }
    let n = chunks.len();
    let mut i: usize = 0;
    while i < n
        invariant
            i <= n,
            n == chunks@.len(),
            cs == chunks@.map_values(|c: Chunk| c@),
            v@ == spec_concat_idat(cs.take(i as int)),
        decreases n - i,
    {
        let c = slice_index_get(chunks, i);
        let tb = c.chunk_type().bytes();
        if matches!(PngChunkType::from_code(&tb), PngChunkType::IDAT) {
            push_bytes(&mut v, c.data());
        }
        i = i + 1;
        proof {
            let t1 = cs.take(i as int);
            assert(t1.drop_last() =~= cs.take(i as int - 1));
            assert(t1.last() == cs[i as int - 1]);
            assert(v@ =~= spec_concat_idat(t1));
        }
    }
    proof {
        assert(cs.take(n as int) =~= cs);
    }
    v
}

impl Bmp {
    /// The chunked-to-flat mapping: locates the geometry record, derives the
    /// descriptor fields from its (color type, bit depth) pair, sizes the
    /// zero-filled palette, and relocates the pixel-bearing payloads
    /// verbatim. Fails with `InvalidEncoding` when no geometry record
    /// exists, with `Truncated` when the geometry payload is shorter than
    /// the fields it must carry, and with `UnsupportedColorType` when the
    /// color type has no rule in the table.
    pub fn from_png(png: &Png) -> (r: Result<Bmp, FormatError>)
        ensures
            match r {
                Ok(b) => match spec_find_geom(png@) {
                    Some(g) => g.data.len() >= 11 && spec_color_type_ok(g.data[10]) && b@
                        == spec_png_to_bmp(g, spec_concat_idat(png@)),
                    None => false,
                },
                Err(e) => match spec_find_geom(png@) {
                    None => e == FormatError::InvalidEncoding,
                    Some(g) => (g.data.len() < 11 && e == FormatError::Truncated) || (g.data.len()
                        >= 11 && !spec_color_type_ok(g.data[10]) && e
                        == FormatError::UnsupportedColorType),
                },
            },
    {
        let chunks = png.chunks();
        let gi = match find_geom_chunk(chunks) {
            Some(i) => i,
            None => {
                return Err(FormatError::InvalidEncoding);
            },
        };
        let g = slice_index_get(chunks, gi);
        let ghost gv = g@;
        let gdata = g.data();
        if gdata.len() < 11 {
            return Err(FormatError::Truncated);
        }
        let w = read_u32_be(gdata, 0);
        let h = read_u32_be(gdata, 4);
        let depth = *slice_index_get(gdata, 9);
        let ct = *slice_index_get(gdata, 10);
        proof {
            assert(gdata@.subrange(0, 4) == gv.data.subrange(0, 4));
            assert(gdata@.subrange(4, 8) == gv.data.subrange(4, 8));
        }
        let bpp: u16 = match ct {
            0 => depth as u16,
            2 => (depth as u16) * 3,
            3 => 8,
            4 => (depth as u16) * 2,
            6 => 32,
            _ => {
                return Err(FormatError::UnsupportedColorType);
            },
        };
        let nc: u32 = if bpp >= 32 {
            0
        } else {
            1u32 << (bpp as u32)
        };
        proof {
            let ghost wi = w as int;
            let ghost hi = h as int;
            let ghost bi = bpp as int;
            assert(wi * hi < 0x1_0000_0000_0000_0000 && wi * hi * bi
                < 0x1_0000_0000_0000_0000_0000) by (nonlinear_arith)
                requires
                    0 <= wi < 0x1_0000_0000,
                    0 <= hi < 0x1_0000_0000,
                    0 <= bi < 0x1_0000,
            ;
        }
        let wh: u128 = (w as u128) * (h as u128);
        let img_size_big: u128 = (wh * (bpp as u128)) / 8;
        let img_size: u32 = (img_size_big % 0x1_0000_0000) as u32;
        let color_table: Option<Vec<u8>>;
        let img_offset: u32;
        let table_len: u32;
        if bpp == 24 {
            color_table = None;
            img_offset = 54;
            table_len = 0;
        } else {
            color_table = Some(zero_vec(nc as usize));
            img_offset = (((54u64 + (nc as u64)) % 0x1_0000_0000u64) as u32);
            table_len = nc;
        }
        let data = concat_idat_data(chunks);
        let length: u32 = ((((54u128 + (table_len as u128)) + (data.len() as u128))
            % 0x1_0000_0000u128) as u32);
        let file_header = BmpFileHeader::new(length, [0, 0, 0, 0], img_offset);
        let info = BitmapInfoHeader::new(
            crate::bytes::u32_to_i32(w),
            crate::bytes::u32_to_i32(h),
            bpp,
            None,
            img_size,
            8,
            8,
            nc,
            0,
        );
        let b = Bmp { file_header, info_header: InfoHeader::Bitmap(info), color_table, data };
        proof {
            assert(b@.file_header.reserved =~= seq![0u8, 0u8, 0u8, 0u8]);
            assert(b@ =~= spec_png_to_bmp(gv, spec_concat_idat(png@)));
        }
        Ok(b)
    }

    /// The flat-to-chunked mirror: derives the (color type, bit depth) pair
    /// from bits-per-pixel by the inverse of the mapping table, wraps the
    /// geometry payload and the pixel payload each in a record, and
    /// assembles a container of the two. Fails with `UnsupportedColorType`
    /// when no table row yields the stored bits-per-pixel value.
    pub fn to_png(&self) -> (r: Result<Png, FormatError>)
        requires
            self@.data.len() <= u32::MAX,
        ensures
            match r {
                Ok(p) => spec_inverse_color(self@.info_header.bits_per_pixel) is Some && p@
                    == spec_bmp_to_png(self@) && crate::png::spec_png_wf(p@),
                Err(e) => e == FormatError::UnsupportedColorType && spec_inverse_color(
                    self@.info_header.bits_per_pixel,
                ) is None,
            },
    {
        let bpp = self.info_header.bits_per_pixel();
        let ct: u8;
        let depth: u8;
        if bpp == 1 {
            ct = 0;
            depth = 1;
        } else if bpp == 2 {
            ct = 0;
            depth = 2;
        } else if bpp == 4 {
            ct = 0;
            depth = 4;
        } else if bpp == 8 {
            ct = 3;
            depth = 8;
        } else if bpp == 16 {
            ct = 0;
            depth = 16;
        } else if bpp == 24 {
            ct = 2;
            depth = 8;
        } else if bpp == 32 {
            ct = 6;
            depth = 8;
        } else if bpp == 48 {
            ct = 2;
            depth = 16;
        } else {
            return Err(FormatError::UnsupportedColorType);
        }
        let mut payload: Vec<u8> = Vec::new();
        push_u32_be(&mut payload, i32_to_u32(self.info_header.px_width()));
        push_u32_be(&mut payload, i32_to_u32(self.info_header.px_height()));
        payload.push(0);
        payload.push(depth);
        payload.push(ct);
        payload.push(0);
        payload.push(0);
        proof {
            assert(payload@ =~= spec_geom_payload(
                self@.info_header.px_width,
                self@.info_header.px_height,
                depth,
                ct,
            ));
        }
        let ihdr_code: [u8; 4] = [73, 72, 68, 82];
        let idat_code: [u8; 4] = [73, 68, 65, 84];
        proof {
            assert(ihdr_code@ =~= spec_code_ihdr());
            assert(idat_code@ =~= spec_code_idat());
            assert forall|i: int| 0 <= i < 4 implies spec_is_alpha(#[trigger] ihdr_code@[i]) by {
                if i == 0 {
                } else if i == 1 {
                } else if i == 2 {
                }
            }
            assert forall|i: int| 0 <= i < 4 implies spec_is_alpha(#[trigger] idat_code@[i]) by {
                if i == 0 {
                } else if i == 1 {
                } else if i == 2 {
                }
            }
        }
        let ihdr_type = match crate::png::chunk_type::PngChunkType::parse(ihdr_code) {
            Ok(t) => t,
            Err(_) => {
                proof {
                    assert(false);
                }
                return Err(FormatError::UnsupportedColorType);
            },
        };
        let idat_type = match crate::png::chunk_type::PngChunkType::parse(idat_code) {
            Ok(t) => t,
            Err(_) => {
                proof {
                    assert(false);
                }
                return Err(FormatError::UnsupportedColorType);
            },
        };
        let ihdr_chunk = Chunk::new(ihdr_type, payload);
        let pixels = slice_to_vec(self.data.as_slice());
        let idat_chunk = Chunk::new(idat_type, pixels);
        let mut chunks: Vec<Chunk> = Vec::new();
        chunks.push(ihdr_chunk);
        chunks.push(idat_chunk);
        let p = Png::from_chunks(chunks);
        proof {
            assert(p@ =~= spec_bmp_to_png(self@));
        }
        Ok(p)
    }
}

/// Palette layout of the mapping's output: with 24 bits per pixel there is
/// no palette and the pixel offset is 54; with any other value the palette
/// holds `num_colors` bytes, and — whenever the offset field can carry the
/// sum — the pixel offset sits right after the palette, at
/// `54 + num_colors`. In that case the output is a well-formed flat image.
pub proof fn lemma_converted_palette_layout(geom: ChunkView, pixels: Seq<u8>)
    requires
        geom.data.len() >= 11,
        spec_color_type_ok(geom.data[10]),
    ensures
        ({
            let b = spec_png_to_bmp(geom, pixels);
            &&& (b.info_header.bits_per_pixel == 24 ==> b.color_table is None
                && b.file_header.img_offset == 54)
            &&& (b.info_header.bits_per_pixel != 24 ==> match b.color_table {
                Some(t) => t.len() == b.info_header.num_colors,
                None => false,
            })
            &&& (b.info_header.bits_per_pixel != 24 && b.info_header.num_colors < 0xffff_ffca
                ==> b.file_header.img_offset == 54 + b.info_header.num_colors)
            &&& (b.info_header.bits_per_pixel == 24 || b.info_header.num_colors < 0xffff_ffca
                ==> spec_bmp_wf(b))
        }),
{
}

/// Magic sensitivity: replacing either byte of the flat signature of a
/// serialized well-formed image with a different value makes parsing fail
/// with `BadMagic`.
pub proof fn lemma_flat_signature_flip(b: BmpView, j: int, v: u8)
    requires
        spec_bmp_wf(b),
        0 <= j < 2,
        v != spec_bmp_bytes(b)[j],
    ensures
        spec_parse_bmp(spec_bmp_bytes(b).update(j, v)) == Err::<BmpView, FormatError>(
            FormatError::BadMagic,
        ),
{
    vstd::bytes::lemma_auto_spec_u32_to_from_le_bytes();
    vstd::bytes::lemma_auto_spec_u16_to_from_le_bytes();
    let s0 = spec_bmp_bytes(b);
    let s = s0.update(j, v);
    assert(s0[0] == 66 && s0[1] == 77);
    assert(s.len() >= 14);
    assert(!(s[0] == 66 && s[1] == 77));
}

} // verus!
