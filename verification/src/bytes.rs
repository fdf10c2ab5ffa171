//! Byte-level field encodings shared by both container formats: big-endian
//! and little-endian integer fields, and the signed/unsigned 32-bit
//! reinterpretation used by the flat format's geometry fields.

use vstd::bytes::{
    spec_u16_from_le_bytes, spec_u16_to_le_bytes, spec_u32_from_le_bytes, spec_u32_to_le_bytes,
    u16_from_le_bytes, u16_to_le_bytes, u32_from_le_bytes, u32_to_le_bytes,
};
use vstd::prelude::*;
use vstd::slice::{slice_index_get, slice_subrange, slice_to_vec};

verus! {

// ---------------------------------------------------------------------------
// big-endian u32 fields
// ---------------------------------------------------------------------------

/// The four bytes of `x`, most significant first.
pub open spec fn spec_u32_to_be_bytes(x: u32) -> Seq<u8> {
    seq![
        (((x >> 24) & 0xff) as u8),
        (((x >> 16) & 0xff) as u8),
        (((x >> 8) & 0xff) as u8),
        ((x & 0xff) as u8),
    ]
}

/// The value of four bytes read most significant first.
pub open spec fn spec_u32_from_be_bytes(s: Seq<u8>) -> u32
    recommends
        s.len() == 4,
{
    (((s[0] as u32) << 24) | ((s[1] as u32) << 16) | ((s[2] as u32) << 8) | (s[3] as u32))
}

pub proof fn lemma_u32_be_bytes_round_trip()
    ensures
        forall|x: u32| (#[trigger] spec_u32_to_be_bytes(x)).len() == 4,
        forall|x: u32| spec_u32_from_be_bytes(#[trigger] spec_u32_to_be_bytes(x)) == x,
        forall|s: Seq<u8>|
            s.len() == 4 ==> #[trigger] spec_u32_to_be_bytes(spec_u32_from_be_bytes(s)) == s,
{
    assert forall|x: u32| spec_u32_from_be_bytes(#[trigger] spec_u32_to_be_bytes(x)) == x by {
        assert((((((x >> 24) & 0xff) as u8) as u32) << 24
            | ((((x >> 16) & 0xff) as u8) as u32) << 16
            | ((((x >> 8) & 0xff) as u8) as u32) << 8
            | (((x & 0xff) as u8) as u32)) == x) by (bit_vector);
    };
    assert forall|s: Seq<u8>| s.len() == 4 implies #[trigger] spec_u32_to_be_bytes(
        spec_u32_from_be_bytes(s),
    ) == s by {
        let x = spec_u32_from_be_bytes(s);
        let s0 = s[0];
        let s1 = s[1];
        let s2 = s[2];
        let s3 = s[3];
        assert(((x >> 24) & 0xff) as u8 == s0 && ((x >> 16) & 0xff) as u8 == s1 && ((x >> 8)
            & 0xff) as u8 == s2 && (x & 0xff) as u8 == s3) by (bit_vector)
            requires
                x == (((s0 as u32) << 24) | ((s1 as u32) << 16) | ((s2 as u32) << 8) | (s3 as u32)),
        ;
        assert(spec_u32_to_be_bytes(x) =~= s);
    };
}

/// Reads the big-endian `u32` stored at offset `i`.
pub fn read_u32_be(buf: &[u8], i: usize) -> (x: u32)
    requires
        i + 4 <= buf@.len(),
    ensures
        x == spec_u32_from_be_bytes(buf@.subrange(i as int, i as int + 4)),
{
    let _len: usize = buf.len();
    let b0 = *slice_index_get(buf, i);
    let b1 = *slice_index_get(buf, i + 1);
    let b2 = *slice_index_get(buf, i + 2);
    let b3 = *slice_index_get(buf, i + 3);
    let x = ((b0 as u32) << 24) | ((b1 as u32) << 16) | ((b2 as u32) << 8) | (b3 as u32);
    proof {
        let s = buf@.subrange(i as int, i as int + 4);
        assert(s[0] == b0 && s[1] == b1 && s[2] == b2 && s[3] == b3);
    }
    x
}

/// Appends the big-endian encoding of `x`.
pub fn push_u32_be(v: &mut Vec<u8>, x: u32)
    ensures
        final(v)@ == old(v)@ + spec_u32_to_be_bytes(x),
{
    proof {
        assert((x >> 24) & 0xff < 256 && (x >> 16) & 0xff < 256 && (x >> 8) & 0xff < 256 && x
            & 0xff < 256) by (bit_vector);
    }
    v.push(((x >> 24) & 0xff) as u8);
    v.push(((x >> 16) & 0xff) as u8);
    v.push(((x >> 8) & 0xff) as u8);
    v.push((x & 0xff) as u8);
    proof {
        assert(v@ =~= old(v)@ + spec_u32_to_be_bytes(x));
    }
}

// ---------------------------------------------------------------------------
// little-endian u32 and u16 fields (encodings from vstd::bytes)
// ---------------------------------------------------------------------------

/// Reads the little-endian `u32` stored at offset `i`.
pub fn read_u32_le(buf: &[u8], i: usize) -> (x: u32)
    requires
        i + 4 <= buf@.len(),
    ensures
        x == spec_u32_from_le_bytes(buf@.subrange(i as int, i as int + 4)),
{
    let _len: usize = buf.len();
    u32_from_le_bytes(slice_subrange(buf, i, i + 4))
}

/// Reads the little-endian `u16` stored at offset `i`.
pub fn read_u16_le(buf: &[u8], i: usize) -> (x: u16)
    requires
        i + 2 <= buf@.len(),
    ensures
        x == spec_u16_from_le_bytes(buf@.subrange(i as int, i as int + 2)),
{
    let _len: usize = buf.len();
    u16_from_le_bytes(slice_subrange(buf, i, i + 2))
}

/// Appends the little-endian encoding of `x`.
pub fn push_u32_le(v: &mut Vec<u8>, x: u32)
    ensures
        final(v)@ == old(v)@ + spec_u32_to_le_bytes(x),
{
    let b = u32_to_le_bytes(x);
    push_bytes(v, b.as_slice());
}

/// Appends the little-endian encoding of `x`.
pub fn push_u16_le(v: &mut Vec<u8>, x: u16)
    ensures
        final(v)@ == old(v)@ + spec_u16_to_le_bytes(x),
{
    let b = u16_to_le_bytes(x);
    push_bytes(v, b.as_slice());
}

// ---------------------------------------------------------------------------
// signed/unsigned 32-bit reinterpretation
// ---------------------------------------------------------------------------

/// The unsigned value with the same 32-bit representation as `x`.
pub open spec fn spec_u32_of_i32(x: i32) -> u32 {
    (((x as i64) & 0xffff_ffff) as u32)
}

/// The signed value with the same 32-bit representation as `x`.
pub open spec fn spec_i32_of_u32(x: u32) -> i32 {
    if x >= 0x8000_0000 {
        (((x as i64) - 0x1_0000_0000i64) as i32)
    } else {
        (x as i32)
    }
}

pub proof fn lemma_i32_u32_round_trip()
    ensures
        forall|x: i32| spec_i32_of_u32(#[trigger] spec_u32_of_i32(x)) == x,
        forall|x: u32| spec_u32_of_i32(#[trigger] spec_i32_of_u32(x)) == x,
{
    assert forall|x: i32| spec_i32_of_u32(#[trigger] spec_u32_of_i32(x)) == x by {
        assert((((x as i64) & 0xffff_ffff) as u32) >= 0x8000_0000 ==> ((((((x as i64)
            & 0xffff_ffff) as u32) as i64) - 0x1_0000_0000i64) as i32) == x) by (bit_vector);
        assert((((x as i64) & 0xffff_ffff) as u32) < 0x8000_0000 ==> ((((x as i64)
            & 0xffff_ffff) as u32) as i32) == x) by (bit_vector);
    };
    assert forall|x: u32| spec_u32_of_i32(#[trigger] spec_i32_of_u32(x)) == x by {
        assert(x >= 0x8000_0000 ==> ((((((x as i64) - 0x1_0000_0000i64) as i32) as i64)
            & 0xffff_ffff) as u32) == x) by (bit_vector);
        assert(x < 0x8000_0000 ==> ((((x as i32) as i64) & 0xffff_ffff) as u32) == x)
            by (bit_vector);
    };
}

/// The unsigned 32-bit reinterpretation, as executable code.
pub fn i32_to_u32(x: i32) -> (r: u32)
    ensures
        r == spec_u32_of_i32(x),
{
    proof {
        assert(0 <= ((x as i64) & 0xffff_ffff) < 0x1_0000_0000) by (bit_vector);
    }
    (((x as i64) & 0xffff_ffff) as u32)
}

/// The signed 32-bit reinterpretation, as executable code.
pub fn u32_to_i32(x: u32) -> (r: i32)
    ensures
        r == spec_i32_of_u32(x),
{
    if x >= 0x8000_0000 {
        (((x as i64) - 0x1_0000_0000i64) as i32)
    } else {
        (x as i32)
    }
}

// ---------------------------------------------------------------------------
// raw byte runs
// ---------------------------------------------------------------------------

/// Appends every byte of `s`, in order.
pub fn push_bytes(v: &mut Vec<u8>, s: &[u8])
    ensures
        final(v)@ == old(v)@ + s@,
{
    proof {
        assert(v@ =~= old(v)@ + s@.subrange(0, 0));
    }
    let mut i: usize = 0;
    while i < s.len()
        invariant
            i <= s@.len(),
            v@ == old(v)@ + s@.subrange(0, i as int),
        decreases s@.len() - i,
    {
        v.push(*slice_index_get(s, i));
        i = i + 1;
        proof {
            assert(v@ =~= old(v)@ + s@.subrange(0, i as int));
        }
    }
    proof {
        assert(s@.subrange(0, s@.len() as int) =~= s@);
    }
}

/// Copies the `n` bytes starting at offset `i` into a fresh vector.
pub fn copy_range(buf: &[u8], i: usize, n: usize) -> (r: Vec<u8>)
    requires
        i + n <= buf@.len(),
    ensures
        r@ == buf@.subrange(i as int, i as int + n as int),
{
    let _len: usize = buf.len();
    slice_to_vec(slice_subrange(buf, i, i + n))
}

} // verus!
