//! Big-endian integer encoding used by every wire format in the crate.
use vstd::prelude::*;

verus! {

/// The big-endian bytes of a 16-bit value.
pub open spec fn be16(x: u16) -> Seq<u8> {
    seq![(x >> 8u16) as u8, x as u8]
}

/// The big-endian bytes of a 32-bit value.
pub open spec fn be32(x: u32) -> Seq<u8> {
    seq![(x >> 24u32) as u8, (x >> 16u32) as u8, (x >> 8u32) as u8, x as u8]
}

/// The big-endian bytes of a 64-bit value.
pub open spec fn be64(x: u64) -> Seq<u8> {
    seq![
        (x >> 56u64) as u8,
        (x >> 48u64) as u8,
        (x >> 40u64) as u8,
        (x >> 32u64) as u8,
        (x >> 24u64) as u8,
        (x >> 16u64) as u8,
        (x >> 8u64) as u8,
        x as u8,
    ]
}

/// The 16-bit value whose big-endian bytes are `b0 b1`.
pub open spec fn from_be16(b0: u8, b1: u8) -> u16 {
    ((b0 as u16) << 8u16) | (b1 as u16)
}

/// The 32-bit value whose big-endian bytes are `b0 .. b3`.
pub open spec fn from_be32(b0: u8, b1: u8, b2: u8, b3: u8) -> u32 {
    ((b0 as u32) << 24u32) | ((b1 as u32) << 16u32) | ((b2 as u32) << 8u32) | (b3 as u32)
}

/// The 64-bit value whose big-endian bytes are `b[0] .. b[7]`.
pub open spec fn from_be64(b: Seq<u8>) -> u64 {
    ((b[0] as u64) << 56u64) | ((b[1] as u64) << 48u64) | ((b[2] as u64) << 40u64)
        | ((b[3] as u64) << 32u64) | ((b[4] as u64) << 24u64) | ((b[5] as u64) << 16u64)
        | ((b[6] as u64) << 8u64) | (b[7] as u64)
}

pub fn u16_to_be(x: u16) -> (r: [u8; 2])
    ensures
        r@ == be16(x),
{
    [(x >> 8u16) as u8, x as u8]
}

pub fn u32_to_be(x: u32) -> (r: [u8; 4])
    ensures
        r@ == be32(x),
{
    [(x >> 24u32) as u8, (x >> 16u32) as u8, (x >> 8u32) as u8, x as u8]
}

pub fn u64_to_be(x: u64) -> (r: [u8; 8])
    ensures
        r@ == be64(x),
{
    [
        (x >> 56u64) as u8,
        (x >> 48u64) as u8,
        (x >> 40u64) as u8,
        (x >> 32u64) as u8,
        (x >> 24u64) as u8,
        (x >> 16u64) as u8,
        (x >> 8u64) as u8,
        x as u8,
    ]
}

pub fn u16_from_be(b0: u8, b1: u8) -> (r: u16)
    ensures
        r == from_be16(b0, b1),
{
    ((b0 as u16) << 8u16) | (b1 as u16)
}

pub fn u32_from_be(b0: u8, b1: u8, b2: u8, b3: u8) -> (r: u32)
    ensures
        r == from_be32(b0, b1, b2, b3),
{
    ((b0 as u32) << 24u32) | ((b1 as u32) << 16u32) | ((b2 as u32) << 8u32) | (b3 as u32)
}

/// Reading back what was written gives the same 16-bit value.
pub proof fn lemma_be16_roundtrip(x: u16)
    ensures
        from_be16(be16(x)[0], be16(x)[1]) == x,
{
    let b0 = (x >> 8u16) as u8;
    let b1 = x as u8;
    assert((((((x >> 8u16) as u8) as u16) << 8u16) | ((x as u8) as u16)) == x) by (bit_vector);
}

/// Reading back what was written gives the same 32-bit value.
pub proof fn lemma_be32_roundtrip(x: u32)
    ensures
        from_be32(be32(x)[0], be32(x)[1], be32(x)[2], be32(x)[3]) == x,
{
    assert((((((x >> 24u32) as u8) as u32) << 24u32) | ((((x >> 16u32) as u8) as u32) << 16u32)
        | ((((x >> 8u32) as u8) as u32) << 8u32) | ((x as u8) as u32)) == x) by (bit_vector);
}

/// Reading back what was written gives the same 64-bit value.
pub proof fn lemma_be64_roundtrip(x: u64)
    ensures
        from_be64(be64(x)) == x,
{
    assert((((((x >> 56u64) as u8) as u64) << 56u64) | ((((x >> 48u64) as u8) as u64) << 48u64)
        | ((((x >> 40u64) as u8) as u64) << 40u64) | ((((x >> 32u64) as u8) as u64) << 32u64)
        | ((((x >> 24u64) as u8) as u64) << 24u64) | ((((x >> 16u64) as u8) as u64) << 16u64)
        | ((((x >> 8u64) as u8) as u64) << 8u64) | ((x as u8) as u64)) == x) by (bit_vector);
}

/// The value of two big-endian bytes.
pub proof fn lemma_from_be16_value(b0: u8, b1: u8)
    ensures
        from_be16(b0, b1) == b0 * 256 + b1,
{
    assert(((b0 as u16) << 8u16) | (b1 as u16) == b0 as u16 * 256 + b1 as u16) by (bit_vector);
}

/// The value of four big-endian bytes.
pub proof fn lemma_from_be32_value(b0: u8, b1: u8, b2: u8, b3: u8)
    ensures
        from_be32(b0, b1, b2, b3) == b0 * 16777216 + b1 * 65536 + b2 * 256 + b3,
{
    assert(((b0 as u32) << 24u32) | ((b1 as u32) << 16u32) | ((b2 as u32) << 8u32) | (b3 as u32)
        == b0 as u32 * 16777216 + b1 as u32 * 65536 + b2 as u32 * 256 + b3 as u32) by (bit_vector);
}

} // verus!
