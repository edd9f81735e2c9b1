//! Word-level building blocks: rotations, byte swaps, little-endian loads and
//! the folded 64x64 multiplication.

use vstd::arithmetic::div_mod::{lemma_add_mod_noop, lemma_small_mod};
use vstd::prelude::*;

verus! {

/// `x` rotated left by `r` bits, for `0 < r < 32`.
pub open spec fn rotl32(x: u32, r: u32) -> u32 {
    (x << r) | (x >> ((32 - r) as u32))
}

/// `x` rotated left by `r` bits, for `0 < r < 64`.
pub open spec fn rotl64(x: u64, r: u64) -> u64 {
    (x << r) | (x >> ((64 - r) as u64))
}

/// `x` with its four bytes in reverse order.
pub open spec fn swap32(x: u32) -> u32 {
    ((x << 24) & 0xff00_0000) | ((x << 8) & 0x00ff_0000) | ((x >> 8) & 0x0000_ff00) | ((x >> 24)
        & 0x0000_00ff)
}

/// `x` with its eight bytes in reverse order.
pub open spec fn swap64(x: u64) -> u64 {
    ((x << 56) & 0xff00_0000_0000_0000) | ((x << 40) & 0x00ff_0000_0000_0000) | ((x << 24)
        & 0x0000_ff00_0000_0000) | ((x << 8) & 0x0000_00ff_0000_0000) | ((x >> 8)
        & 0x0000_0000_ff00_0000) | ((x >> 24) & 0x0000_0000_00ff_0000) | ((x >> 40)
        & 0x0000_0000_0000_ff00) | ((x >> 56) & 0x0000_0000_0000_00ff)
}

/// `v ^ (v >> s)`.
pub open spec fn xorshift64(v: u64, s: u64) -> u64 {
    v ^ (v >> s)
}

/// The 32-bit word stored little-endian at `s[i..i + 4]`.
pub open spec fn le32(s: Seq<u8>, i: int) -> u32 {
    (s[i] as u32) | ((s[i + 1] as u32) << 8) | ((s[i + 2] as u32) << 16) | ((s[i + 3] as u32)
        << 24)
}

/// The 64-bit word stored little-endian at `s[i..i + 8]`.
pub open spec fn le64(s: Seq<u8>, i: int) -> u64 {
    (s[i] as u64) | ((s[i + 1] as u64) << 8) | ((s[i + 2] as u64) << 16) | ((s[i + 3] as u64)
        << 24) | ((s[i + 4] as u64) << 32) | ((s[i + 5] as u64) << 40) | ((s[i + 6] as u64) << 48)
        | ((s[i + 7] as u64) << 56)
}

/// The product of the low 32 bits of `a` and the low 32 bits of `b`.
#[verifier::opaque]
pub open spec fn mul32to64(a: u64, b: u64) -> u64 {
    ((a & 0xffff_ffff) * (b & 0xffff_ffff)) as u64
}

/// The low half of the 128-bit product `a * b` xored with its high half.
#[verifier::opaque]
pub open spec fn mul128_fold64(a: u64, b: u64) -> u64 {
    mul128_lo(a, b) ^ mul128_hi(a, b)
}

/// The low 64 bits of the 128-bit product `a * b`.
#[verifier::opaque]
pub open spec fn mul128_lo(a: u64, b: u64) -> u64 {
    ((a as int * b as int) % 0x1_0000_0000_0000_0000) as u64
}

/// The high 64 bits of the 128-bit product `a * b`.
#[verifier::opaque]
pub open spec fn mul128_hi(a: u64, b: u64) -> u64 {
    ((a as int * b as int) / 0x1_0000_0000_0000_0000) as u64
}

/// A length counter that wraps at 2^64 keeps the true length modulo 2^64.
pub proof fn lemma_wrapping_length(before: nat, counter: u64, added: usize)
    requires
        counter == before % 0x1_0000_0000_0000_0000,
    ensures
        counter.wrapping_add(added as u64) == (before + added) % 0x1_0000_0000_0000_0000,
{
    lemma_add_mod_noop(before as int, added as int, 0x1_0000_0000_0000_0000);
    lemma_small_mod(added as nat, 0x1_0000_0000_0000_0000);
}

/// Rotates `x` left by `r` bits.
pub(crate) fn rotate_left32(x: u32, r: u32) -> (out: u32)
    requires
        0 < r < 32,
    ensures
        out == rotl32(x, r),
{
    (x << r) | (x >> (32 - r))
}

/// Rotates `x` left by `r` bits.
pub(crate) fn rotate_left64(x: u64, r: u64) -> (out: u64)
    requires
        0 < r < 64,
    ensures
        out == rotl64(x, r),
{
    (x << r) | (x >> (64 - r))
}

/// Reverses the bytes of `x`.
pub(crate) fn swap_bytes32(x: u32) -> (out: u32)
    ensures
        out == swap32(x),
{
    ((x << 24) & 0xff00_0000) | ((x << 8) & 0x00ff_0000) | ((x >> 8) & 0x0000_ff00) | ((x >> 24)
        & 0x0000_00ff)
}

/// Reverses the bytes of `x`.
pub(crate) fn swap_bytes64(x: u64) -> (out: u64)
    ensures
        out == swap64(x),
{
    ((x << 56) & 0xff00_0000_0000_0000) | ((x << 40) & 0x00ff_0000_0000_0000) | ((x << 24)
        & 0x0000_ff00_0000_0000) | ((x << 8) & 0x0000_00ff_0000_0000) | ((x >> 8)
        & 0x0000_0000_ff00_0000) | ((x >> 24) & 0x0000_0000_00ff_0000) | ((x >> 40)
        & 0x0000_0000_0000_ff00) | ((x >> 56) & 0x0000_0000_0000_00ff)
}

/// Reads the little-endian word at `data[i..i + 4]`.
pub(crate) fn read_le32(data: &[u8], i: usize) -> (out: u32)
    requires
        i + 4 <= data@.len(),
    ensures
        out == le32(data@, i as int),
{
    (data[i] as u32) | ((data[i + 1] as u32) << 8) | ((data[i + 2] as u32) << 16) | ((data[i
        + 3] as u32) << 24)
}

/// Reads the little-endian word at `data[i..i + 8]`.
pub(crate) fn read_le64(data: &[u8], i: usize) -> (out: u64)
    requires
        i + 8 <= data@.len(),
    ensures
        out == le64(data@, i as int),
{
    (data[i] as u64) | ((data[i + 1] as u64) << 8) | ((data[i + 2] as u64) << 16) | ((data[i
        + 3] as u64) << 24) | ((data[i + 4] as u64) << 32) | ((data[i + 5] as u64) << 40) | ((
    data[i + 6] as u64) << 48) | ((data[i + 7] as u64) << 56)
}

/// Multiplies the low halves of `a` and `b`.
pub(crate) fn mul_32to64(a: u64, b: u64) -> (out: u64)
    ensures
        out == mul32to64(a, b),
{
    reveal(mul32to64);
    let x: u64 = a & 0xffff_ffff;
    let y: u64 = b & 0xffff_ffff;
    assert(x <= 0xffff_ffff) by (bit_vector)
        requires
            x == a & 0xffff_ffff,
    ;
    assert(y <= 0xffff_ffff) by (bit_vector)
        requires
            y == b & 0xffff_ffff,
    ;
    assert(x * y <= 0xffff_ffff * 0xffff_ffff) by (nonlinear_arith)
        requires
            x <= 0xffff_ffff,
            y <= 0xffff_ffff,
    ;
    x * y
}

/// Multiplies `a` and `b` to 128 bits and xors the two halves of the product.
pub(crate) fn mul_128_fold64(a: u64, b: u64) -> (out: u64)
    ensures
        out == mul128_fold64(a, b),
{
    reveal(mul128_fold64);
    let (lo, hi) = mul_64to128(a, b);
    lo ^ hi
}

/// Multiplies `a` and `b` to 128 bits: the low half, then the high half.
pub(crate) fn mul_64to128(a: u64, b: u64) -> (out: (u64, u64))
    ensures
        out.0 == mul128_lo(a, b),
        out.1 == mul128_hi(a, b),
{
    reveal(mul128_lo);
    reveal(mul128_hi);
    assert(a as int * b as int <= 0xffff_ffff_ffff_ffff * 0xffff_ffff_ffff_ffff) by (
        nonlinear_arith
    )
        requires
            a <= 0xffff_ffff_ffff_ffff,
            b <= 0xffff_ffff_ffff_ffff,
    ;
    assert(0 <= a as int * b as int) by (nonlinear_arith);
    let p: u128 = (a as u128) * (b as u128);
    let lo: u64 = p as u64;
    let hi: u64 = (p >> 64) as u64;
    assert(lo == p % 0x1_0000_0000_0000_0000 && hi == p / 0x1_0000_0000_0000_0000) by (bit_vector)
        requires
            lo == p as u64,
            hi == (p >> 64) as u64,
            p <= 0xffff_ffff_ffff_ffff_u128 * 0xffff_ffff_ffff_ffff_u128,
    ;
    (lo, hi)
}

} // verus!
