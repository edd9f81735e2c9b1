//! The XXH3 hash with 128 bits of output.
//!
//! It shares its secret, its seed and, for long inputs, its accumulators with
//! the 64-bit hash; only the formulas that turn them into a digest differ.

use crate::bits::{
    le32, le64, mul128_hi, mul128_lo, mul32to64, mul_32to64, mul_64to128, read_le32, read_le64,
    rotate_left32, rotl32, swap32, swap64, swap_bytes32, swap_bytes64, xorshift64,
};
use crate::policy::ConfigError;
use crate::secret::{Keying, DEFAULT_SECRET, SECRET_SIZE_MIN};
use crate::xxh32::PRIME32_2;
use crate::xxh3::derive_secret;
use crate::xxh3_long::{fold_all, merge};
use crate::xxh3_short::{avalanche_3, mix_16, SHORT_SECRET_LEN};
use crate::xxh3_spec::{
    avalanche3, final_acc, len64, merge_accs, mix16, MIDSIZE_MAX, PRIME_MX2,
};
use crate::xxh64::{avalanche, avalanche64, PRIME64_1, PRIME64_2, PRIME64_4};
use vstd::prelude::*;

verus! {

/// A 128-bit digest as its two halves.
#[derive(Clone, Copy, Debug, PartialEq, Eq)]
pub struct Hash128 {
    pub low: u64,
    pub high: u64,
}

impl Hash128 {
    /// The digest as one number: `high` in the upper 64 bits, `low` in the
    /// lower.
    pub open spec fn value(self) -> u128 {
        ((self.high as u128) << 64) | (self.low as u128)
    }

    /// The two halves of `value`.
    pub fn from_u128(value: u128) -> (out: Hash128)
        ensures
            out.value() == value,
    {
        let low = #[verifier::truncate]
        (value as u64);
        let high = (value >> 64) as u64;
        assert(((high as u128) << 64) | (low as u128) == value) by (bit_vector)
            requires
                low == value as u64,
                high == (value >> 64) as u64,
        ;
        Hash128 { low, high }
    }

    /// The digest as one number.
    pub fn to_u128(self) -> (out: u128)
        ensures
            out == self.value(),
    {
        ((self.high as u128) << 64) | (self.low as u128)
    }
}

/// The digest of the empty input.
pub open spec fn hash128_len_0(secret: Seq<u8>, seed: u64) -> Hash128 {
    Hash128 {
        low: avalanche64(seed ^ (le64(secret, 64) ^ le64(secret, 72))),
        high: avalanche64(seed ^ (le64(secret, 80) ^ le64(secret, 88))),
    }
}

/// The digest of an input of one to three bytes.
pub open spec fn hash128_len_1to3(input: Seq<u8>, secret: Seq<u8>, seed: u64) -> Hash128 {
    let len = input.len() as int;
    let combined_low: u32 = ((input[0] as u32) << 16) | ((input[len / 2] as u32) << 24) | (
    input[len - 1] as u32) | ((len as u32) << 8);
    let combined_high = rotl32(swap32(combined_low), 13);
    let bitflip_low = ((le32(secret, 0) ^ le32(secret, 4)) as u64).wrapping_add(seed);
    let bitflip_high = ((le32(secret, 8) ^ le32(secret, 12)) as u64).wrapping_sub(seed);
    Hash128 {
        low: avalanche64((combined_low as u64) ^ bitflip_low),
        high: avalanche64((combined_high as u64) ^ bitflip_high),
    }
}

/// The digest of an input of four to eight bytes.
#[verifier::opaque]
pub open spec fn hash128_len_4to8(input: Seq<u8>, secret: Seq<u8>, seed: u64) -> Hash128 {
    let len = input.len() as int;
    let seed = seed ^ ((swap32(seed as u32) as u64) << 32);
    let input64 = (le32(input, 0) as u64).wrapping_add((le32(input, len - 4) as u64) << 32);
    let bitflip = (le64(secret, 16) ^ le64(secret, 24)).wrapping_add(seed);
    let keyed = input64 ^ bitflip;
    let factor = PRIME64_1.wrapping_add((len as u64) << 2);
    let high = mul128_hi(keyed, factor).wrapping_add(mul128_lo(keyed, factor) << 1);
    let low = mul128_lo(keyed, factor) ^ (high >> 3);
    Hash128 {
        low: xorshift64(xorshift64(low, 35).wrapping_mul(PRIME_MX2), 28),
        high: avalanche3(high),
    }
}

/// The digest of an input of nine to sixteen bytes.
#[verifier::opaque]
pub open spec fn hash128_len_9to16(input: Seq<u8>, secret: Seq<u8>, seed: u64) -> Hash128 {
    let len = input.len() as int;
    let bitflip_low = (le64(secret, 32) ^ le64(secret, 40)).wrapping_sub(seed);
    let bitflip_high = (le64(secret, 48) ^ le64(secret, 56)).wrapping_add(seed);
    let input_low = le64(input, 0);
    let input_high = le64(input, len - 8);
    let keyed = input_low ^ input_high ^ bitflip_low;
    let m_low = mul128_lo(keyed, PRIME64_1).wrapping_add(((len - 1) as u64) << 54);
    let flipped = input_high ^ bitflip_high;
    let m_high = mul128_hi(keyed, PRIME64_1).wrapping_add(flipped).wrapping_add(
        mul32to64(flipped, (PRIME32_2 - 1) as u64),
    );
    let mixed = m_low ^ swap64(m_high);
    Hash128 {
        low: avalanche3(mul128_lo(mixed, PRIME64_2)),
        high: avalanche3(
            mul128_hi(mixed, PRIME64_2).wrapping_add(m_high.wrapping_mul(PRIME64_2)),
        ),
    }
}

/// The pair of running words `acc` after 32 bytes of input, sixteen at `a`
/// and sixteen at `b`, mixed with 32 bytes of secret at `sat`.
#[verifier::opaque]
pub open spec fn mix32(
    acc: Hash128,
    input: Seq<u8>,
    a: int,
    b: int,
    secret: Seq<u8>,
    sat: int,
    seed: u64,
) -> Hash128 {
    Hash128 {
        low: acc.low.wrapping_add(mix16(input, a, secret, sat, seed)) ^ le64(
            input,
            b,
        ).wrapping_add(le64(input, b + 8)),
        high: acc.high.wrapping_add(mix16(input, b, secret, sat + 16, seed)) ^ le64(
            input,
            a,
        ).wrapping_add(le64(input, a + 8)),
    }
}

/// For an input of 17 to 128 bytes: `acc` after the pairs `n - 1`, ..., 0, in
/// this order. Pair `i` takes sixteen bytes at distance `16 * i` from the
/// start and sixteen bytes at the same distance from the end.
pub open spec fn mix_pairs_down(
    acc: Hash128,
    input: Seq<u8>,
    secret: Seq<u8>,
    seed: u64,
    n: nat,
) -> Hash128
    decreases n,
{
    if n == 0 {
        acc
    } else {
        let i = n - 1;
        mix_pairs_down(
            mix32(acc, input, 16 * i, input.len() - 16 * (i + 1), secret, 32 * i, seed),
            input,
            secret,
            seed,
            i as nat,
        )
    }
}

/// `acc` after the 32-byte rounds `0..n` of the input from `from` on, round
/// `j` with the secret at `sat + 32 * j`.
pub open spec fn mix_rounds_up(
    acc: Hash128,
    input: Seq<u8>,
    from: int,
    secret: Seq<u8>,
    sat: int,
    seed: u64,
    n: nat,
) -> Hash128
    decreases n,
{
    if n == 0 {
        acc
    } else {
        let j = n - 1;
        mix32(
            mix_rounds_up(acc, input, from, secret, sat, seed, j as nat),
            input,
            from + 32 * j,
            from + 32 * j + 16,
            secret,
            sat + 32 * j,
            seed,
        )
    }
}

/// The digest of a mid-sized input from its pair of running words.
#[verifier::opaque]
pub open spec fn finish_mid(acc: Hash128, len: u64, seed: u64) -> Hash128 {
    Hash128 {
        low: avalanche3(acc.low.wrapping_add(acc.high)),
        high: 0u64.wrapping_sub(
            avalanche3(
                acc.low.wrapping_mul(PRIME64_1).wrapping_add(
                    acc.high.wrapping_mul(PRIME64_4),
                ).wrapping_add(len.wrapping_sub(seed).wrapping_mul(PRIME64_2)),
            ),
        ),
    }
}

/// The pair of running words that a mid-sized input starts from.
pub open spec fn start_mid(len: u64) -> Hash128 {
    Hash128 { low: len.wrapping_mul(PRIME64_1), high: 0 }
}

/// The digest of an input of 17 to 128 bytes.
pub open spec fn hash128_len_17to128(input: Seq<u8>, secret: Seq<u8>, seed: u64) -> Hash128 {
    let len = input.len();
    finish_mid(
        mix_pairs_down(start_mid(len as u64), input, secret, seed, (len - 1) as nat / 32 + 1),
        len as u64,
        seed,
    )
}

/// The digest of an input of 129 to 240 bytes.
pub open spec fn hash128_len_129to240(input: Seq<u8>, secret: Seq<u8>, seed: u64) -> Hash128 {
    let len = input.len() as int;
    let head = mix_rounds_up(start_mid(len as u64), input, 0, secret, 0, seed, 4);
    let stirred = Hash128 { low: avalanche3(head.low), high: avalanche3(head.high) };
    let body = mix_rounds_up(stirred, input, 128, secret, 3, seed, ((len - 128) / 32) as nat);
    let last = mix32(body, input, len - 16, len - 32, secret, 103, 0u64.wrapping_sub(seed));
    finish_mid(last, len as u64, seed)
}

/// The digest of an input of up to 240 bytes under `seed` and `secret`.
pub open spec fn hash128_short(input: Seq<u8>, secret: Seq<u8>, seed: u64) -> Hash128 {
    if input.len() == 0 {
        hash128_len_0(secret, seed)
    } else if input.len() <= 3 {
        hash128_len_1to3(input, secret, seed)
    } else if input.len() <= 8 {
        hash128_len_4to8(input, secret, seed)
    } else if input.len() <= 16 {
        hash128_len_9to16(input, secret, seed)
    } else if input.len() <= 128 {
        hash128_len_17to128(input, secret, seed)
    } else {
        hash128_len_129to240(input, secret, seed)
    }
}

/// The digest of an input of more than 240 bytes under `secret`: the
/// accumulators of the 64-bit hash, merged twice.
pub open spec fn hash128_long(input: Seq<u8>, secret: Seq<u8>) -> Hash128 {
    let acc = final_acc(input, secret);
    Hash128 {
        low: merge_accs(acc, secret, 11, len64(input).wrapping_mul(PRIME64_1)),
        high: merge_accs(
            acc,
            secret,
            secret.len() - 75,
            !len64(input).wrapping_mul(PRIME64_2),
        ),
    }
}

/// The 128-bit XXH3 digest of `input` under the customisation `keying`, as
/// its two halves.
pub open spec fn xxh3_128_halves(input: Seq<u8>, keying: Keying) -> Hash128 {
    if input.len() <= MIDSIZE_MAX {
        hash128_short(input, keying.short_secret(), keying.seed())
    } else {
        hash128_long(input, keying.long_secret())
    }
}

/// The 128-bit XXH3 digest of `input` under the customisation `keying`.
pub open spec fn xxh3_128_spec(input: Seq<u8>, keying: Keying) -> u128 {
    xxh3_128_halves(input, keying).value()
}

fn len_0(secret: &[u8], seed: u64) -> (hash: Hash128)
    requires
        secret.len() >= SHORT_SECRET_LEN,
    ensures
        hash == hash128_len_0(secret@, seed),
{
    Hash128 {
        low: avalanche(seed ^ (read_le64(secret, 64) ^ read_le64(secret, 72))),
        high: avalanche(seed ^ (read_le64(secret, 80) ^ read_le64(secret, 88))),
    }
}

fn len_1to3(input: &[u8], secret: &[u8], seed: u64) -> (hash: Hash128)
    requires
        1 <= input.len() <= 3,
        secret.len() >= SHORT_SECRET_LEN,
    ensures
        hash == hash128_len_1to3(input@, secret@, seed),
{
    let len = input.len();
    let combined_low: u32 = ((input[0] as u32) << 16) | ((input[len / 2] as u32) << 24) | (
    input[len - 1] as u32) | ((len as u32) << 8);
    let combined_high = rotate_left32(swap_bytes32(combined_low), 13);
    let bitflip_low = ((read_le32(secret, 0) ^ read_le32(secret, 4)) as u64).wrapping_add(seed);
    let bitflip_high = ((read_le32(secret, 8) ^ read_le32(secret, 12)) as u64).wrapping_sub(
        seed,
    );
    Hash128 {
        low: avalanche((combined_low as u64) ^ bitflip_low),
        high: avalanche((combined_high as u64) ^ bitflip_high),
    }
}

fn len_4to8(input: &[u8], secret: &[u8], seed: u64) -> (hash: Hash128)
    requires
        4 <= input.len() <= 8,
        secret.len() >= SHORT_SECRET_LEN,
    ensures
        hash == hash128_len_4to8(input@, secret@, seed),
{
    reveal(hash128_len_4to8);
    let len = input.len();
    let seed_low = #[verifier::truncate]
    (seed as u32);
    let seed = seed ^ ((swap_bytes32(seed_low) as u64) << 32);
    let input64 = (read_le32(input, 0) as u64).wrapping_add(
        (read_le32(input, len - 4) as u64) << 32,
    );
    let bitflip = (read_le64(secret, 16) ^ read_le64(secret, 24)).wrapping_add(seed);
    let keyed = input64 ^ bitflip;
    let (m_low, m_high) = mul_64to128(keyed, PRIME64_1.wrapping_add((len as u64) << 2));
    let high = m_high.wrapping_add(m_low << 1);
    let low = m_low ^ (high >> 3);
    let low = (low ^ (low >> 35)).wrapping_mul(PRIME_MX2);
    Hash128 { low: low ^ (low >> 28), high: avalanche_3(high) }
}

fn len_9to16(input: &[u8], secret: &[u8], seed: u64) -> (hash: Hash128)
    requires
        9 <= input.len() <= 16,
        secret.len() >= SHORT_SECRET_LEN,
    ensures
        hash == hash128_len_9to16(input@, secret@, seed),
{
    reveal(hash128_len_9to16);
    let len = input.len();
    let bitflip_low = (read_le64(secret, 32) ^ read_le64(secret, 40)).wrapping_sub(seed);
    let bitflip_high = (read_le64(secret, 48) ^ read_le64(secret, 56)).wrapping_add(seed);
    let input_low = read_le64(input, 0);
    let input_high = read_le64(input, len - 8);
    let (m_low, m_high) = mul_64to128(input_low ^ input_high ^ bitflip_low, PRIME64_1);
    let m_low = m_low.wrapping_add(((len - 1) as u64) << 54);
    let flipped = input_high ^ bitflip_high;
    let m_high = m_high.wrapping_add(flipped).wrapping_add(
        mul_32to64(flipped, (PRIME32_2 - 1) as u64),
    );
    let mixed = m_low ^ swap_bytes64(m_high);
    let (h_low, h_high) = mul_64to128(mixed, PRIME64_2);
    Hash128 {
        low: avalanche_3(h_low),
        high: avalanche_3(h_high.wrapping_add(m_high.wrapping_mul(PRIME64_2))),
    }
}

fn mix_32(
    acc: Hash128,
    input: &[u8],
    a: usize,
    b: usize,
    secret: &[u8],
    sat: usize,
    seed: u64,
) -> (out: Hash128)
    requires
        a + 16 <= input.len(),
        b + 16 <= input.len(),
        sat + 32 <= secret.len(),
    ensures
        out == mix32(acc, input@, a as int, b as int, secret@, sat as int, seed),
{
    reveal(mix32);
    Hash128 {
        low: acc.low.wrapping_add(mix_16(input, a, secret, sat, seed)) ^ read_le64(
            input,
            b,
        ).wrapping_add(read_le64(input, b + 8)),
        high: acc.high.wrapping_add(mix_16(input, b, secret, sat + 16, seed)) ^ read_le64(
            input,
            a,
        ).wrapping_add(read_le64(input, a + 8)),
    }
}

fn finish(acc: Hash128, len: u64, seed: u64) -> (hash: Hash128)
    ensures
        hash == finish_mid(acc, len, seed),
{
    reveal(finish_mid);
    Hash128 {
        low: avalanche_3(acc.low.wrapping_add(acc.high)),
        high: 0u64.wrapping_sub(
            avalanche_3(
                acc.low.wrapping_mul(PRIME64_1).wrapping_add(
                    acc.high.wrapping_mul(PRIME64_4),
                ).wrapping_add(len.wrapping_sub(seed).wrapping_mul(PRIME64_2)),
            ),
        ),
    }
}

fn len_17to128(input: &[u8], secret: &[u8], seed: u64) -> (hash: Hash128)
    requires
        17 <= input.len() <= 128,
        secret.len() >= SHORT_SECRET_LEN,
    ensures
        hash == hash128_len_17to128(input@, secret@, seed),
{
    let len = input.len();
    let mut acc = Hash128 { low: (len as u64).wrapping_mul(PRIME64_1), high: 0 };
    let ghost goal = mix_pairs_down(acc, input@, secret@, seed, (len - 1) as nat / 32 + 1);
    let mut n: usize = (len - 1) / 32 + 1;
    while n > 0
        invariant
            17 <= len <= 128,
            len == input.len(),
            secret.len() >= SHORT_SECRET_LEN,
            n <= (len - 1) / 32 + 1,
            mix_pairs_down(acc, input@, secret@, seed, n as nat) == goal,
        decreases n,
    {
        let i = n - 1;
        acc = mix_32(acc, input, 16 * i, len - 16 * (i + 1), secret, 32 * i, seed);
        n = i;
    }
    finish(acc, len as u64, seed)
}

/// `acc` after `n` rounds of 32 bytes, as `mix_rounds_up` defines it.
fn rounds_up(
    acc: Hash128,
    input: &[u8],
    from: usize,
    secret: &[u8],
    sat: usize,
    seed: u64,
    n: usize,
) -> (out: Hash128)
    requires
        from + 32 * n <= input.len(),
        sat + 32 * n <= secret.len(),
        input.len() <= 240,
    ensures
        out == mix_rounds_up(acc, input@, from as int, secret@, sat as int, seed, n as nat),
{
    let mut out = acc;
    let mut j: usize = 0;
    while j < n
        invariant
            j <= n,
            from + 32 * n <= input.len(),
            sat + 32 * n <= secret.len(),
            input.len() <= 240,
            out == mix_rounds_up(acc, input@, from as int, secret@, sat as int, seed, j as nat),
        decreases n - j,
    {
        out = mix_32(out, input, from + 32 * j, from + 32 * j + 16, secret, sat + 32 * j, seed);
        j = j + 1;
    }
    out
}

fn len_129to240(input: &[u8], secret: &[u8], seed: u64) -> (hash: Hash128)
    requires
        129 <= input.len() <= 240,
        secret.len() >= SHORT_SECRET_LEN,
    ensures
        hash == hash128_len_129to240(input@, secret@, seed),
{
    let len = input.len();
    let start = Hash128 { low: (len as u64).wrapping_mul(PRIME64_1), high: 0 };
    let head = rounds_up(start, input, 0, secret, 0, seed, 4);
    let stirred = Hash128 { low: avalanche_3(head.low), high: avalanche_3(head.high) };
    let body = rounds_up(stirred, input, 128, secret, 3, seed, (len - 128) / 32);
    let last = mix_32(body, input, len - 16, len - 32, secret, 103, 0u64.wrapping_sub(seed));
    finish(last, len as u64, seed)
}

fn short128(input: &[u8], secret: &[u8], seed: u64) -> (hash: Hash128)
    requires
        input.len() <= 240,
        secret.len() >= SHORT_SECRET_LEN,
    ensures
        hash == hash128_short(input@, secret@, seed),
{
    let len = input.len();
    if len == 0 {
        len_0(secret, seed)
    } else if len <= 3 {
        len_1to3(input, secret, seed)
    } else if len <= 8 {
        len_4to8(input, secret, seed)
    } else if len <= 16 {
        len_9to16(input, secret, seed)
    } else if len <= 128 {
        len_17to128(input, secret, seed)
    } else {
        len_129to240(input, secret, seed)
    }
}

fn long128(input: &[u8], secret: &[u8]) -> (hash: Hash128)
    requires
        input.len() > 240,
        secret.len() >= SHORT_SECRET_LEN,
    ensures
        hash == hash128_long(input@, secret@),
{
    let len = input.len();
    let acc = fold_all(input, secret);
    Hash128 {
        low: merge(&acc, secret, 11, (len as u64).wrapping_mul(PRIME64_1)),
        high: merge(&acc, secret, secret.len() - 75, !(len as u64).wrapping_mul(PRIME64_2)),
    }
}

/// Calculates the 128-bit XXH3 hash of `input` with the built-in secret.
pub fn xxh3_128(input: &[u8]) -> (hash: u128)
    ensures
        hash == xxh3_128_spec(input@, Keying::Default),
{
    if input.len() <= 240 {
        short128(input, DEFAULT_SECRET.as_slice(), 0).to_u128()
    } else {
        long128(input, DEFAULT_SECRET.as_slice()).to_u128()
    }
}

/// Calculates the 128-bit XXH3 hash of `input` under `seed`.
pub fn xxh3_128_with_seed(input: &[u8], seed: u64) -> (hash: u128)
    ensures
        hash == xxh3_128_spec(input@, Keying::Seeded(seed)),
{
    if input.len() <= 240 {
        short128(input, DEFAULT_SECRET.as_slice(), seed).to_u128()
    } else {
        let secret = derive_secret(seed);
        long128(input, secret.as_slice()).to_u128()
    }
}

/// Calculates the 128-bit XXH3 hash of `input` under a secret of the
/// caller's, which must have at least `SECRET_SIZE_MIN` bytes.
pub fn xxh3_128_with_secret(input: &[u8], secret: &[u8]) -> (r: Result<u128, ConfigError>)
    ensures
        secret.len() >= SECRET_SIZE_MIN ==> r == Ok::<u128, ConfigError>(
            xxh3_128_spec(input@, Keying::SecretBytes(secret@)),
        ),
        secret.len() < SECRET_SIZE_MIN ==> r == Err::<u128, ConfigError>(
            ConfigError::SecretTooShort { len: secret.len() },
        ),
{
    if secret.len() < SECRET_SIZE_MIN {
        Err(ConfigError::SecretTooShort { len: secret.len() })
    } else if input.len() <= 240 {
        Ok(short128(input, secret, 0).to_u128())
    } else {
        Ok(long128(input, secret).to_u128())
    }
}

} // verus!
