//! The four-byte record-type identifier of the chunked container format.
//!
//! Every byte of an identifier must be alphabetic ASCII. Four boolean
//! properties are derived, one per byte, each testing bit 5 (0x20) of that
//! byte: criticality (byte 0, clear means critical), public/private (byte 1,
//! clear means public), reserved-bit validity (byte 2, clear means valid) and
//! safe-to-copy (byte 3, set means safe).

use crate::FormatError;
use vstd::array::array_index_get;
use vstd::prelude::*;
use vstd::string::StringSliceAdditionalSpecFns;
use vstd::utf8::encode_utf8;

verus! {

/// True for the ASCII codes of `A`-`Z` and `a`-`z`.
pub open spec fn spec_is_alpha(b: u8) -> bool {
    (65 <= b && b <= 90) || (97 <= b && b <= 122)
}

/// A well-formed type code: exactly four bytes, each alphabetic ASCII.
pub open spec fn spec_code_wf(code: Seq<u8>) -> bool {
    code.len() == 4 && (forall|i: int| 0 <= i < 4 ==> spec_is_alpha(#[trigger] code[i]))
}

/// Criticality: bit 5 of byte 0 is clear.
pub open spec fn spec_is_critical(code: Seq<u8>) -> bool {
    (code[0] & 0x20) == 0
}

/// Public/private: bit 5 of byte 1 is clear.
pub open spec fn spec_is_public(code: Seq<u8>) -> bool {
    (code[1] & 0x20) == 0
}

/// Reserved-bit validity: bit 5 of byte 2 is clear.
pub open spec fn spec_is_reserved_bit_valid(code: Seq<u8>) -> bool {
    (code[2] & 0x20) == 0
}

/// Safe-to-copy: bit 5 of byte 3 is set.
pub open spec fn spec_is_safe_to_copy(code: Seq<u8>) -> bool {
    (code[3] & 0x20) != 0
}

/// A four-byte record-type identifier with bit-derived property flags.
/// Immutable once constructed; validity of the bytes is enforced by both
/// constructors.
#[derive(Clone, Copy, Debug, PartialEq, Eq)]
pub struct PngChunkType {
    code: [u8; 4],
}

impl View for PngChunkType {
    type V = Seq<u8>;

    closed spec fn view(&self) -> Seq<u8> {
        self.code@
    }
}

impl PngChunkType {
    /// Every identifier that can be observed was checked at construction.
    #[verifier::type_invariant]
    pub closed spec fn inv(self) -> bool {
        spec_code_wf(self.code@)
    }

    /// What the construction-time check guarantees of every identifier.
    pub proof fn lemma_inv_code_wf(self)
        requires
            self.inv(),
        ensures
            spec_code_wf(self@),
    {
    }
}

/// True for the bytes that `spec_is_alpha` accepts.
fn byte_is_alpha(b: u8) -> (r: bool)
    ensures
        r == spec_is_alpha(b),
{
    (65 <= b && b <= 90) || (97 <= b && b <= 122)
}

/// Relies on `String::from_utf8`: the returned string's UTF-8 bytes are
/// exactly the vector passed in. Restricted here to ASCII input, on which
/// `String::from_utf8` always succeeds.
#[verifier::external_body]
fn ascii_to_string(bytes: Vec<u8>) -> (r: String)
    requires
        forall|i: int| 0 <= i < bytes@.len() ==> bytes@[i] < 128,
    ensures
        encode_utf8(r@) == bytes@,
{
    String::from_utf8(bytes).unwrap_or_default()
}

impl PngChunkType {
    /// Builds an identifier from four raw bytes; rejects any byte that is not
    /// alphabetic ASCII.
    pub fn parse(bytes: [u8; 4]) -> (r: Result<PngChunkType, FormatError>)
        ensures
            match r {
                Ok(t) => t@ == bytes@ && spec_code_wf(bytes@),
                Err(e) => e == FormatError::InvalidEncoding && !spec_code_wf(bytes@),
            },
    {
        let mut i: usize = 0;
        while i < 4
            invariant
                i <= 4,
                forall|j: int| 0 <= j < i ==> spec_is_alpha(#[trigger] bytes@[j]),
            decreases 4 - i,
        {
            if !byte_is_alpha(*array_index_get(&bytes, i)) {
                return Err(FormatError::InvalidEncoding);
            }
            i = i + 1;
        }
        Ok(PngChunkType { code: bytes })
    }

    /// Builds an identifier from text; rejects anything but exactly four
    /// alphabetic ASCII characters.
    pub fn from_text(s: &str) -> (r: Result<PngChunkType, FormatError>)
        ensures
            match r {
                Ok(t) => t@ == s.spec_bytes() && spec_code_wf(s.spec_bytes()),
                Err(e) => e == FormatError::InvalidEncoding && !spec_code_wf(s.spec_bytes()),
            },
    {
        let bs = s.as_bytes();
        if bs.len() != 4 {
            return Err(FormatError::InvalidEncoding);
        }
        let code: [u8; 4] = [
            *vstd::slice::slice_index_get(bs, 0),
            *vstd::slice::slice_index_get(bs, 1),
            *vstd::slice::slice_index_get(bs, 2),
            *vstd::slice::slice_index_get(bs, 3),
        ];
        proof {
            assert(code@ =~= s.spec_bytes());
        }
        Self::parse(code)
    }

    /// The four raw bytes of the identifier.
    pub fn bytes(&self) -> (r: [u8; 4])
        ensures
            r@ == self@,
    {
        self.code
    }

    /// Bit 5 of byte 0, clear means critical.
    pub fn is_critical(&self) -> (r: bool)
        ensures
            r == spec_is_critical(self@),
    {
        (*array_index_get(&self.code, 0) & 0x20) == 0
    }

    /// Bit 5 of byte 1, clear means public.
    pub fn is_public(&self) -> (r: bool)
        ensures
            r == spec_is_public(self@),
    {
        (*array_index_get(&self.code, 1) & 0x20) == 0
    }

    /// Bit 5 of byte 2, clear means the reserved bit is valid.
    pub fn is_reserved_bit_valid(&self) -> (r: bool)
        ensures
            r == spec_is_reserved_bit_valid(self@),
    {
        (*array_index_get(&self.code, 2) & 0x20) == 0
    }

    /// Bit 5 of byte 3, set means safe to copy.
    pub fn is_safe_to_copy(&self) -> (r: bool)
        ensures
            r == spec_is_safe_to_copy(self@),
    {
        (*array_index_get(&self.code, 3) & 0x20) != 0
    }

    /// Validity of an identifier is exactly reserved-bit validity; the
    /// alphabetic-ASCII requirement is enforced earlier, at construction.
    pub fn is_valid(&self) -> (r: bool)
        ensures
            r == spec_is_reserved_bit_valid(self@),
    {
        self.is_reserved_bit_valid()
    }

    /// The identifier as text, one character per byte.
    pub fn to_text(&self) -> (r: String)
        ensures
            encode_utf8(r@) == self@,
    {
        proof {
            use_type_invariant(&*self);
        }
        let mut v: Vec<u8> = Vec::new();
        v.push(*array_index_get(&self.code, 0));
        v.push(*array_index_get(&self.code, 1));
        v.push(*array_index_get(&self.code, 2));
        v.push(*array_index_get(&self.code, 3));
        proof {
            assert(v@ =~= self@);
        }
        ascii_to_string(v)
    }
}

} // verus!
