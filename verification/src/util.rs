//! Fixed-width big-endian integer encode/decode and the byte-order probe and
//! flip primitives that per-frame endianness resolution is built from.

use vstd::prelude::*;

verus! {

/// The four bytes of `v` in big-endian order.
pub open spec fn spec_int_to_bytes(v: u32) -> Seq<u8> {
    seq![
        ((v >> 24) & 0xff) as u8,
        ((v >> 16) & 0xff) as u8,
        ((v >> 8) & 0xff) as u8,
        (v & 0xff) as u8,
    ]
}

/// The `u32` read from four bytes in big-endian order.
pub open spec fn spec_bytes_to_int(b: Seq<u8>) -> u32
    recommends
        b.len() == 4,
{
    (((b[0] as u32) << 24) | ((b[1] as u32) << 16) | ((b[2] as u32) << 8) | (b[3] as u32)) as u32
}

/// Full byte-order reversal of a 32-bit word.
pub open spec fn spec_flip_endianness(v: u32) -> u32 {
    (((v >> 24) & 0x000000ff) | ((v >> 8) & 0x0000ff00) | ((v << 8) & 0x00ff0000) | ((v << 24)
        & 0xff000000)) as u32
}

/// The protocol's byte-order probe: a daemon signals its byte order through
/// the high bits of a frame's leading word, and a word with none of the
/// sentinel bits set came from a sender with the receiver's byte order.
pub open spec fn spec_same_endianness(v: u32) -> bool {
    v & 0x80000080 == 0
}

/// Convert a `u32` to its 4-byte big-endian representation.
pub fn int_to_bytes(i: u32) -> (r: Vec<u8>)
    ensures
        r@ == spec_int_to_bytes(i),
{
    let mut v: Vec<u8> = Vec::new();
    v.push(((i >> 24) & 0xff) as u8);
    v.push(((i >> 16) & 0xff) as u8);
    v.push(((i >> 8) & 0xff) as u8);
    v.push((i & 0xff) as u8);
    proof {
        assert(v@ =~= spec_int_to_bytes(i));
    }
    v
}

/// Read a `u32` from a 4-byte big-endian representation.
pub fn bytes_to_int(bytes: &[u8]) -> (r: u32)
    requires
        bytes@.len() == 4,
    ensures
        r == spec_bytes_to_int(bytes@),
{
    let i0 = bytes[0] as u32;
    let i1 = bytes[1] as u32;
    let i2 = bytes[2] as u32;
    let i3 = bytes[3] as u32;
    proof {
        assert((i0 << 24) | (i1 << 16) | (i2 << 8) | i3 <= 0xffffffff) by (bit_vector);
    }
    (i0 << 24) | (i1 << 16) | (i2 << 8) | i3
}

/// True when the argument word has the same byte order as the local side's
/// reading of the frame, per the sentinel pattern in its high bits.
pub fn same_endianness(i: u32) -> (r: bool)
    ensures
        r == spec_same_endianness(i),
{
    (i & 0x80000080) == 0
}

/// Flip the byte order of the argument word.
pub fn flip_endianness(i: u32) -> (r: u32)
    ensures
        r == spec_flip_endianness(i),
{
    let i0 = (i >> 24) & 0x000000ff;
    let i1 = (i >> 8) & 0x0000ff00;
    let i2 = (i << 8) & 0x00ff0000;
    let i3 = (i << 24) & 0xff000000;
    i0 | i1 | i2 | i3
}

/// Reading back the big-endian bytes of a word yields the word: decoding is
/// a left inverse of encoding.
pub proof fn lemma_int_to_bytes_to_int(x: u32)
    ensures
        spec_bytes_to_int(spec_int_to_bytes(x)) == x,
{
    let b0 = ((x >> 24) & 0xff) as u8;
    let b1 = ((x >> 16) & 0xff) as u8;
    let b2 = ((x >> 8) & 0xff) as u8;
    let b3 = (x & 0xff) as u8;
    assert((((b0 as u32) << 24) | ((b1 as u32) << 16) | ((b2 as u32) << 8) | (b3 as u32)) as u32
        == x) by (bit_vector)
        requires
            b0 == ((x >> 24) & 0xff) as u8,
            b1 == ((x >> 16) & 0xff) as u8,
            b2 == ((x >> 8) & 0xff) as u8,
            b3 == (x & 0xff) as u8,
    ;
}

/// Flipping a word's byte order twice yields the word: the flip is an
/// involution.
pub proof fn lemma_flip_endianness_involution(x: u32)
    ensures
        spec_flip_endianness(spec_flip_endianness(x)) == x,
{
    assert(spec_flip_endianness(spec_flip_endianness(x)) == x) by (bit_vector);
}

} // verus!
