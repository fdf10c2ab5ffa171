//! A binary image-container codec.
//!
//! The crate parses two fixed-layout raster image formats — a chunked,
//! self-describing container (magic header followed by length/type/data/checksum
//! records) and a flat-header bitmap (fixed-offset fields with an optional
//! palette table) — validates their internal integrity, re-serializes them
//! byte for byte, and converts between the two models.
//!
//! Every parser returns a typed [`FormatError`] on the first violated
//! invariant; nothing is retried and no partial value is returned.

use vstd::prelude::*;

pub mod bmp;
pub mod bytes;
pub mod png;

verus! {

/// The failure kinds of the codec. Every failure reflects malformed input or
/// an unsupported feature, never a transient condition.
#[derive(Clone, Copy, Debug, PartialEq, Eq, Structural)]
pub enum FormatError {
    /// The buffer is shorter than a field or record requires.
    Truncated,
    /// A fixed signature did not match.
    BadMagic,
    /// Bytes do not decode into a required textual or enumerated form.
    InvalidEncoding,
    /// The stored checksum does not equal the one recomputed over the record.
    ChecksumMismatch { stored: u32, computed: u32 },
    /// The header-length discriminant selects no known header variant.
    UnsupportedVariant,
    /// The geometry mapping has no rule for the given color-type value.
    UnsupportedColorType,
}

} // verus!
