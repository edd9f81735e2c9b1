//! The XXH3 digest of an input of up to 240 bytes.

use crate::bits::{
    mul_128_fold64, read_le32, read_le64, rotate_left64, swap_bytes32, swap_bytes64,
};
use crate::xxh3_spec::{
    avalanche3, hash_len_0, hash_len_129to240, hash_len_17to128, hash_len_1to3, hash_len_4to8,
    hash_len_9to16, hash_short, mix16, rrmxmx, sum_pairs, sum_rounds, PRIME_MX1, PRIME_MX2,
};
use crate::xxh64::{avalanche, PRIME64_1};
use vstd::prelude::*;

verus! {

/// The shortest secret that the formulas can work with: none of them reads
/// the secret at this offset or beyond, from the start or from the end.
pub const SHORT_SECRET_LEN: usize = 136;

pub(crate) fn avalanche_3(h: u64) -> (out: u64)
    ensures
        out == avalanche3(h),
{
    reveal(avalanche3);
    let a = (h ^ (h >> 37)).wrapping_mul(PRIME_MX1);
    a ^ (a >> 32)
}

fn rrmxmx_mix(h: u64, len: u64) -> (out: u64)
    ensures
        out == rrmxmx(h, len),
{
    reveal(rrmxmx);
    let a = (h ^ rotate_left64(h, 49) ^ rotate_left64(h, 24)).wrapping_mul(PRIME_MX2);
    let b = (a ^ (a >> 35).wrapping_add(len)).wrapping_mul(PRIME_MX2);
    b ^ (b >> 28)
}

pub(crate) fn mix_16(input: &[u8], at: usize, secret: &[u8], sat: usize, seed: u64) -> (out: u64)
    requires
        at + 16 <= input.len(),
        sat + 16 <= secret.len(),
    ensures
        out == mix16(input@, at as int, secret@, sat as int, seed),
{
    reveal(mix16);
    mul_128_fold64(
        read_le64(input, at) ^ read_le64(secret, sat).wrapping_add(seed),
        read_le64(input, at + 8) ^ read_le64(secret, sat + 8).wrapping_sub(seed),
    )
}

fn len_0(secret: &[u8], seed: u64) -> (hash: u64)
    requires
        secret.len() >= SHORT_SECRET_LEN,
    ensures
        hash == hash_len_0(secret@, seed),
{
    avalanche(seed ^ (read_le64(secret, 56) ^ read_le64(secret, 64)))
}

fn len_1to3(input: &[u8], secret: &[u8], seed: u64) -> (hash: u64)
    requires
        1 <= input.len() <= 3,
        secret.len() >= SHORT_SECRET_LEN,
    ensures
        hash == hash_len_1to3(input@, secret@, seed),
{
    let len = input.len();
    let combined: u32 = ((input[0] as u32) << 16) | ((input[len / 2] as u32) << 24) | (input[len
        - 1] as u32) | ((len as u32) << 8);
    let bitflip = ((read_le32(secret, 0) ^ read_le32(secret, 4)) as u64).wrapping_add(seed);
    avalanche((combined as u64) ^ bitflip)
}

fn len_4to8(input: &[u8], secret: &[u8], seed: u64) -> (hash: u64)
    requires
        4 <= input.len() <= 8,
        secret.len() >= SHORT_SECRET_LEN,
    ensures
        hash == hash_len_4to8(input@, secret@, seed),
{
    let len = input.len();
    let low = #[verifier::truncate]
    (seed as u32);
    let seed = seed ^ ((swap_bytes32(low) as u64) << 32);
    let bitflip = (read_le64(secret, 8) ^ read_le64(secret, 16)).wrapping_sub(seed);
    let input64 = (read_le32(input, len - 4) as u64).wrapping_add(
        (read_le32(input, 0) as u64) << 32,
    );
    rrmxmx_mix(input64 ^ bitflip, len as u64)
}

fn len_9to16(input: &[u8], secret: &[u8], seed: u64) -> (hash: u64)
    requires
        9 <= input.len() <= 16,
        secret.len() >= SHORT_SECRET_LEN,
    ensures
        hash == hash_len_9to16(input@, secret@, seed),
{
    let len = input.len();
    let bitflip1 = (read_le64(secret, 24) ^ read_le64(secret, 32)).wrapping_add(seed);
    let bitflip2 = (read_le64(secret, 40) ^ read_le64(secret, 48)).wrapping_sub(seed);
    let lo = read_le64(input, 0) ^ bitflip1;
    let hi = read_le64(input, len - 8) ^ bitflip2;
    avalanche_3(
        (len as u64).wrapping_add(swap_bytes64(lo)).wrapping_add(hi).wrapping_add(
            mul_128_fold64(lo, hi),
        ),
    )
}

fn len_17to128(input: &[u8], secret: &[u8], seed: u64) -> (hash: u64)
    requires
        17 <= input.len() <= 128,
        secret.len() >= SHORT_SECRET_LEN,
    ensures
        hash == hash_len_17to128(input@, secret@, seed),
{
    let len = input.len();
    let pairs = (len - 1) / 32 + 1;
    let mut sum: u64 = 0;
    let mut i: usize = 0;
    while i < pairs
        invariant
            17 <= len <= 128,
            len == input.len(),
            secret.len() >= SHORT_SECRET_LEN,
            pairs == (len - 1) / 32 + 1,
            i <= pairs,
            sum == sum_pairs(input@, secret@, seed, i as nat),
        decreases pairs - i,
    {
        sum = sum.wrapping_add(mix_16(input, 16 * i, secret, 32 * i, seed)).wrapping_add(
            mix_16(input, len - 16 * (i + 1), secret, 32 * i + 16, seed),
        );
        i = i + 1;
    }
    avalanche_3((len as u64).wrapping_mul(PRIME64_1).wrapping_add(sum))
}

/// The sum of the mixes of the rounds `from..to`, as `sum_rounds` defines it.
fn rounds(input: &[u8], secret: &[u8], seed: u64, from: usize, to: usize, sat: usize) -> (sum: u64)
    requires
        from <= to,
        16 * to <= input.len(),
        16 * (to - from) + sat <= secret.len(),
        input.len() <= 240,
    ensures
        sum == sum_rounds(input@, secret@, seed, from as int, to as int, sat as int),
{
    let mut sum: u64 = 0;
    let mut i: usize = from;
    while i < to
        invariant
            from <= i <= to,
            16 * to <= input.len(),
            16 * (to - from) + sat <= secret.len(),
            input.len() <= 240,
            sum == sum_rounds(input@, secret@, seed, from as int, i as int, sat as int),
        decreases to - i,
    {
        sum = sum.wrapping_add(mix_16(input, 16 * i, secret, 16 * (i - from) + sat, seed));
        i = i + 1;
    }
    sum
}

fn len_129to240(input: &[u8], secret: &[u8], seed: u64) -> (hash: u64)
    requires
        129 <= input.len() <= 240,
        secret.len() >= SHORT_SECRET_LEN,
    ensures
        hash == hash_len_129to240(input@, secret@, seed),
{
    let len = input.len();
    let head = avalanche_3(
        (len as u64).wrapping_mul(PRIME64_1).wrapping_add(rounds(input, secret, seed, 0, 8, 0)),
    );
    let rest = mix_16(input, len - 16, secret, 119, seed).wrapping_add(
        rounds(input, secret, seed, 8, len / 16, 3),
    );
    avalanche_3(head.wrapping_add(rest))
}

/// The digest of an input of up to 240 bytes under `seed` and `secret`.
pub(crate) fn short(input: &[u8], secret: &[u8], seed: u64) -> (hash: u64)
    requires
        input.len() <= 240,
        secret.len() >= SHORT_SECRET_LEN,
    ensures
        hash == hash_short(input@, secret@, seed),
{
    let len = input.len();
    if len == 0 {
        len_0(secret, seed)
    } else if len <= 3 {
        len_1to3(input, secret, seed)
    } else if len <= 8 {
        len_4to8(input, secret, seed)
    } else if len <= 16 {
        len_9to16(input, secret, seed)
    } else if len <= 128 {
        len_17to128(input, secret, seed)
    } else {
        len_129to240(input, secret, seed)
    }
}

} // verus!
