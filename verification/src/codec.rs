use vstd::arithmetic::div_mod::{
    lemma_div_denominator, lemma_fundamental_div_mod, lemma_fundamental_div_mod_converse,
};
use vstd::prelude::*;
use vstd::slice::{slice_subrange, slice_to_vec};

verus! {

/// The unsigned value of two little-endian bytes.
pub open spec fn le_u16(b: Seq<u8>) -> int
    recommends
        b.len() == 2,
{
    b[0] as int + 256 * (b[1] as int)
}

/// The unsigned value of four little-endian bytes.
pub open spec fn le_u32(b: Seq<u8>) -> int
    recommends
        b.len() == 4,
{
    b[0] as int + 256 * (b[1] as int) + 65536 * (b[2] as int) + 16777216 * (b[3] as int)
}

/// The two's-complement value of four little-endian bytes.
pub open spec fn le_i32(b: Seq<u8>) -> int
    recommends
        b.len() == 4,
{
    if le_u32(b) < 0x8000_0000 {
        le_u32(b)
    } else {
        le_u32(b) - 0x1_0000_0000
    }
}

/// The unsigned 32-bit value that stands for `x` in two's complement.
pub open spec fn twos_complement(x: int) -> int {
    if x < 0 {
        x + 0x1_0000_0000
    } else {
        x
    }
}

/// The four bytes of an unsigned 32-bit value, least significant first.
pub open spec fn u32_le_bytes(u: int) -> Seq<u8> {
    seq![
        (u % 256) as u8,
        ((u / 256) % 256) as u8,
        ((u / 65536) % 256) as u8,
        ((u / 16777216) % 256) as u8,
    ]
}

/// The four bytes of an unsigned 32-bit value, most significant first.
pub open spec fn u32_be_bytes(u: int) -> Seq<u8> {
    seq![
        ((u / 16777216) % 256) as u8,
        ((u / 65536) % 256) as u8,
        ((u / 256) % 256) as u8,
        (u % 256) as u8,
    ]
}

/// The two bytes of an unsigned 16-bit value, most significant first.
pub open spec fn u16_be_bytes(u: int) -> Seq<u8> {
    seq![((u / 256) % 256) as u8, (u % 256) as u8]
}

/// The little-endian two's-complement encoding of a signed 32-bit value.
pub open spec fn i32_le_bytes(x: int) -> Seq<u8> {
    u32_le_bytes(twos_complement(x))
}

/// The big-endian two's-complement encoding of a signed 32-bit value.
pub open spec fn i32_be_bytes(x: int) -> Seq<u8> {
    u32_be_bytes(twos_complement(x))
}

/// The four bytes of a value below 2^32 add up to the value.
proof fn lemma_u32_le_sum(u: int)
    requires
        0 <= u < 0x1_0000_0000,
    ensures
        u32_le_bytes(u).len() == 4,
        le_u32(u32_le_bytes(u)) == u,
{
    let q1 = u / 256;
    let q2 = u / 65536;
    let q3 = u / 16777216;
    lemma_fundamental_div_mod(u, 256);
    lemma_fundamental_div_mod(q1, 256);
    lemma_fundamental_div_mod(q2, 256);
    lemma_div_denominator(u, 256, 256);
    lemma_div_denominator(u, 65536, 256);
    assert(q1 / 256 == q2);
    assert(q2 / 256 == q3);
    assert(0 <= q3 < 256);
    assert(q3 % 256 == q3);
    let b = u32_le_bytes(u);
    assert(b[0] as int == u % 256);
    assert(b[1] as int == q1 % 256);
    assert(b[2] as int == q2 % 256);
    assert(b[3] as int == q3);
}

/// Four bytes are the bytes of the value they add up to.
proof fn lemma_le_u32_split(b: Seq<u8>)
    requires
        b.len() == 4,
    ensures
        0 <= le_u32(b) < 0x1_0000_0000,
        u32_le_bytes(le_u32(b)) == b,
{
    let u = le_u32(b);
    let b0 = b[0] as int;
    let b1 = b[1] as int;
    let b2 = b[2] as int;
    let b3 = b[3] as int;
    lemma_fundamental_div_mod_converse(u, 256, b1 + 256 * b2 + 65536 * b3, b0);
    lemma_fundamental_div_mod_converse(b1 + 256 * b2 + 65536 * b3, 256, b2 + 256 * b3, b1);
    lemma_fundamental_div_mod_converse(u, 65536, b2 + 256 * b3, b0 + 256 * b1);
    lemma_fundamental_div_mod_converse(b2 + 256 * b3, 256, b3, b2);
    lemma_fundamental_div_mod_converse(u, 16777216, b3, b0 + 256 * b1 + 65536 * b2);
    lemma_fundamental_div_mod_converse(b3, 256, 0, b3);
    assert(u32_le_bytes(u) =~= b);
}

/// Decoding undoes encoding: every `i32` survives a trip through its
/// little-endian bytes.
pub proof fn lemma_i32_le_roundtrip(x: i32)
    ensures
        i32_le_bytes(x as int).len() == 4,
        le_i32(i32_le_bytes(x as int)) == x,
{
    lemma_u32_le_sum(twos_complement(x as int));
}

/// Encoding undoes decoding: four bytes are the encoding of the value they
/// decode to.
pub proof fn lemma_le_i32_bytes(b: Seq<u8>)
    requires
        b.len() == 4,
    ensures
        i32::MIN <= le_i32(b) <= i32::MAX,
        i32_le_bytes(le_i32(b)) == b,
{
    lemma_le_u32_split(b);
    assert(twos_complement(le_i32(b)) == le_u32(b));
}

/// Reads the unsigned 16-bit little-endian value at `at`.
pub fn read_u16_le(bytes: &[u8], at: usize) -> (r: u16)
    requires
        at + 2 <= bytes.len(),
    ensures
        r == le_u16(bytes@.subrange(at as int, at + 2)),
{
    let lo: u16 = bytes[at] as u16;
    let hi: u16 = bytes[at + 1] as u16;
    lo + 256 * hi
}

/// Reads the signed 32-bit little-endian value at `at`.
pub fn read_i32_le(bytes: &[u8], at: usize) -> (r: i32)
    requires
        at + 4 <= bytes.len(),
    ensures
        r == le_i32(bytes@.subrange(at as int, at + 4)),
{
    let b0: u32 = bytes[at] as u32;
    let b1: u32 = bytes[at + 1] as u32;
    let b2: u32 = bytes[at + 2] as u32;
    let b3: u32 = bytes[at + 3] as u32;
    let u: u32 = b0 + 256 * b1 + 65536 * b2 + 16777216 * b3;
    if u < 0x8000_0000 {
        u as i32
    } else {
        let low: i32 = (u - 0x8000_0000) as i32;
        low + i32::MIN
    }
}

/// Appends the four bytes of `u`, least significant first.
fn push_u32_le(out: &mut Vec<u8>, u: u32)
    ensures
        final(out)@ == old(out)@ + u32_le_bytes(u as int),
{
    out.push((u % 256) as u8);
    out.push(((u / 256) % 256) as u8);
    out.push(((u / 65536) % 256) as u8);
    out.push(((u / 16777216) % 256) as u8);
}

/// The unsigned value that stands for `x` in two's complement.
fn to_twos_complement(x: i32) -> (u: u32)
    ensures
        u == twos_complement(x as int),
{
    if x >= 0 {
        x as u32
    } else {
        let low: u32 = (x - i32::MIN) as u32;
        low + 0x8000_0000
    }
}

/// Appends the little-endian encoding of `x` to `out`.
pub fn push_i32_le(out: &mut Vec<u8>, x: i32)
    ensures
        final(out)@ == old(out)@ + i32_le_bytes(x as int),
{
    let u = to_twos_complement(x);
    push_u32_le(out, u);
}

/// Appends the four bytes of `u`, most significant first.
pub fn push_u32_be(out: &mut Vec<u8>, u: u32)
    ensures
        final(out)@ == old(out)@ + u32_be_bytes(u as int),
{
    out.push(((u / 16777216) % 256) as u8);
    out.push(((u / 65536) % 256) as u8);
    out.push(((u / 256) % 256) as u8);
    out.push((u % 256) as u8);
}

/// Appends the big-endian encoding of `x` to `out`.
pub fn push_i32_be(out: &mut Vec<u8>, x: i32)
    ensures
        final(out)@ == old(out)@ + i32_be_bytes(x as int),
{
    let u = to_twos_complement(x);
    push_u32_be(out, u);
}

/// Appends the two bytes of `u`, most significant first.
pub fn push_u16_be(out: &mut Vec<u8>, u: u16)
    ensures
        final(out)@ == old(out)@ + u16_be_bytes(u as int),
{
    out.push(((u / 256) % 256) as u8);
    out.push((u % 256) as u8);
}

/// Appends every byte of `bytes` to `out`.
pub fn push_all(out: &mut Vec<u8>, bytes: &[u8])
    ensures
        final(out)@ == old(out)@ + bytes@,
{
    out.extend_from_slice(bytes);
}

/// A copy of `bytes[from..to]`.
pub fn copy_range(bytes: &[u8], from: usize, to: usize) -> (r: Vec<u8>)
    requires
        from <= to <= bytes.len(),
    ensures
        r@ == bytes@.subrange(from as int, to as int),
{
    slice_to_vec(slice_subrange(bytes, from, to))
}

} // verus!
