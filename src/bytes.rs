//! Big-endian byte encodings of fixed-width integers.
use vstd::prelude::*;

verus! {

/// Two bytes, most significant first.
pub open spec fn be16(x: u16) -> Seq<u8> {
    seq![(x >> 8u16) as u8, (x & 0xffu16) as u8]
}

/// Four bytes, most significant first.
pub open spec fn be32(x: u32) -> Seq<u8> {
    seq![(x >> 24u32) as u8, ((x >> 16u32) & 0xffu32) as u8, ((x >> 8u32) & 0xffu32) as u8, (x & 0xffu32) as u8]
}

/// Eight bytes, most significant first.
pub open spec fn be64(x: u64) -> Seq<u8> {
    be32((x >> 32u64) as u32) + be32((x & 0xffff_ffffu64) as u32)
}

pub open spec fn be16_value(b0: u8, b1: u8) -> u16 {
    (((b0 as u16) << 8u16) | (b1 as u16)) as u16
}

pub open spec fn be32_value(b0: u8, b1: u8, b2: u8, b3: u8) -> u32 {
    (((b0 as u32) << 24u32) | ((b1 as u32) << 16u32) | ((b2 as u32) << 8u32) | (b3 as u32)) as u32
}

pub open spec fn be64_value(hi: u32, lo: u32) -> u64 {
    (((hi as u64) << 32u64) | (lo as u64)) as u64
}

pub proof fn lemma_be16_parts(b0: u8, b1: u8)
    ensures
        (be16_value(b0, b1) >> 8u16) as u8 == b0,
        (be16_value(b0, b1) & 0xffu16) as u8 == b1,
{
    assert((((((b0 as u16) << 8u16) | (b1 as u16)) as u16) >> 8u16) as u8 == b0) by (bit_vector);
    assert((((((b0 as u16) << 8u16) | (b1 as u16)) as u16) & 0xffu16) as u8 == b1) by (bit_vector);
}

pub proof fn lemma_be16_of(b0: u8, b1: u8)
    ensures
        be16(be16_value(b0, b1)) == seq![b0, b1],
{
    lemma_be16_parts(b0, b1);
    assert(be16(be16_value(b0, b1)) =~= seq![b0, b1]);
}

pub proof fn lemma_be32_of(b0: u8, b1: u8, b2: u8, b3: u8)
    ensures
        be32(be32_value(b0, b1, b2, b3)) == seq![b0, b1, b2, b3],
{
    let x = be32_value(b0, b1, b2, b3);
    assert(x >> 24u32 == b0 as u32) by (bit_vector)
        requires x == (((b0 as u32) << 24u32) | ((b1 as u32) << 16u32) | ((b2 as u32) << 8u32) | (b3 as u32)) as u32;
    assert((x >> 16u32) & 0xffu32 == b1 as u32) by (bit_vector)
        requires x == (((b0 as u32) << 24u32) | ((b1 as u32) << 16u32) | ((b2 as u32) << 8u32) | (b3 as u32)) as u32;
    assert((x >> 8u32) & 0xffu32 == b2 as u32) by (bit_vector)
        requires x == (((b0 as u32) << 24u32) | ((b1 as u32) << 16u32) | ((b2 as u32) << 8u32) | (b3 as u32)) as u32;
    assert(x & 0xffu32 == b3 as u32) by (bit_vector)
        requires x == (((b0 as u32) << 24u32) | ((b1 as u32) << 16u32) | ((b2 as u32) << 8u32) | (b3 as u32)) as u32;
    assert(be32(x) =~= seq![b0, b1, b2, b3]);
}

pub proof fn lemma_be64_of(hi: u32, lo: u32)
    ensures
        be64(be64_value(hi, lo)) == be32(hi) + be32(lo),
{
    let x = be64_value(hi, lo);
    assert((x >> 32u64) as u32 == hi) by (bit_vector)
        requires x == (((hi as u64) << 32u64) | (lo as u64)) as u64;
    assert((x & 0xffff_ffffu64) as u32 == lo) by (bit_vector)
        requires x == (((hi as u64) << 32u64) | (lo as u64)) as u64;
}

pub broadcast proof fn lemma_be_lengths(x: u16, y: u32, z: u64)
    ensures
        #[trigger] be16(x).len() == 2,
        #[trigger] be32(y).len() == 4,
        #[trigger] be64(z).len() == 8,
{
}

/// Reading back the four bytes of `be32(x)` gives `x`.
pub proof fn lemma_be32_value_of(x: u32)
    ensures
        be32_value(be32(x)[0], be32(x)[1], be32(x)[2], be32(x)[3]) == x,
{
    assert(be32_value((x >> 24u32) as u8, ((x >> 16u32) & 0xffu32) as u8, ((x >> 8u32) & 0xffu32) as u8, (x & 0xffu32) as u8) == x) by (bit_vector);
}

/// A signed 32-bit value keeps its bits through the unsigned form, read the other way.
pub proof fn lemma_i32_round(x: i32)
    ensures
        ((x as u32) as i32) == x,
{
    assert(((x as u32) as i32) == x) by (bit_vector);
}

/// A signed 16-bit value keeps its bits through the unsigned form.
pub proof fn lemma_i16_bits(u: u16)
    ensures
        ((u as i16) as u16) == u,
{
    assert(((u as i16) as u16) == u) by (bit_vector);
}

pub proof fn lemma_i32_bits(u: u32)
    ensures
        ((u as i32) as u32) == u,
{
    assert(((u as i32) as u32) == u) by (bit_vector);
}

pub proof fn lemma_i8_bits(u: u8)
    ensures
        ((u as i8) as u8) == u,
{
    assert(((u as i8) as u8) == u) by (bit_vector);
}

} // verus!
