//! What the 64-bit member of the XXH3 family computes, as functions over
//! sequences of bytes.
//!
//! An input of up to 240 bytes is hashed directly from a seed and a secret,
//! by one of five formulas chosen by its length. A longer input is folded
//! stripe by stripe into eight accumulators under a secret alone.

use crate::bits::{le32, le64, mul128_fold64, mul32to64, rotl64, swap32, swap64, xorshift64};
use crate::secret::Keying;
use crate::xxh32::{PRIME32_1, PRIME32_2, PRIME32_3};
use crate::xxh64::{avalanche64, PRIME64_1, PRIME64_2, PRIME64_3, PRIME64_4, PRIME64_5};
use vstd::prelude::*;

verus! {

pub const PRIME_MX1: u64 = 0x165667919E3779F9;

pub const PRIME_MX2: u64 = 0x9FB21C651E98DF25;

/// The longest input that is hashed without accumulators.
pub const MIDSIZE_MAX: usize = 240;

/// The final mixing used by every formula but the shortest ones.
#[verifier::opaque]
pub open spec fn avalanche3(h: u64) -> u64 {
    xorshift64(xorshift64(h, 37).wrapping_mul(PRIME_MX1), 32)
}

/// The final mixing for inputs of four to eight bytes.
#[verifier::opaque]
pub open spec fn rrmxmx(h: u64, len: u64) -> u64 {
    let a = (h ^ rotl64(h, 49) ^ rotl64(h, 24)).wrapping_mul(PRIME_MX2);
    let b = (a ^ (a >> 35).wrapping_add(len)).wrapping_mul(PRIME_MX2);
    xorshift64(b, 28)
}

/// Sixteen bytes of input at `at` mixed with sixteen bytes of secret at `sat`.
#[verifier::opaque]
pub open spec fn mix16(input: Seq<u8>, at: int, secret: Seq<u8>, sat: int, seed: u64) -> u64 {
    mul128_fold64(
        le64(input, at) ^ le64(secret, sat).wrapping_add(seed),
        le64(input, at + 8) ^ le64(secret, sat + 8).wrapping_sub(seed),
    )
}

/// The digest of the empty input.
pub open spec fn hash_len_0(secret: Seq<u8>, seed: u64) -> u64 {
    avalanche64(seed ^ (le64(secret, 56) ^ le64(secret, 64)))
}

/// The digest of an input of one to three bytes.
pub open spec fn hash_len_1to3(input: Seq<u8>, secret: Seq<u8>, seed: u64) -> u64 {
    let len = input.len() as int;
    let combined: u32 = ((input[0] as u32) << 16) | ((input[len / 2] as u32) << 24) | (input[len
        - 1] as u32) | ((len as u32) << 8);
    let bitflip = ((le32(secret, 0) ^ le32(secret, 4)) as u64).wrapping_add(seed);
    avalanche64((combined as u64) ^ bitflip)
}

/// The digest of an input of four to eight bytes.
pub open spec fn hash_len_4to8(input: Seq<u8>, secret: Seq<u8>, seed: u64) -> u64 {
    let len = input.len() as int;
    let seed = seed ^ ((swap32(seed as u32) as u64) << 32);
    let bitflip = (le64(secret, 8) ^ le64(secret, 16)).wrapping_sub(seed);
    let input64 = (le32(input, len - 4) as u64).wrapping_add((le32(input, 0) as u64) << 32);
    rrmxmx(input64 ^ bitflip, len as u64)
}

/// The digest of an input of nine to sixteen bytes.
pub open spec fn hash_len_9to16(input: Seq<u8>, secret: Seq<u8>, seed: u64) -> u64 {
    let len = input.len() as int;
    let bitflip1 = (le64(secret, 24) ^ le64(secret, 32)).wrapping_add(seed);
    let bitflip2 = (le64(secret, 40) ^ le64(secret, 48)).wrapping_sub(seed);
    let lo = le64(input, 0) ^ bitflip1;
    let hi = le64(input, len - 8) ^ bitflip2;
    avalanche3(
        (len as u64).wrapping_add(swap64(lo)).wrapping_add(hi).wrapping_add(mul128_fold64(lo, hi)),
    )
}

/// For an input of 17 to 128 bytes: the sum, modulo 2^64, of the first `n`
/// pairs of mixes. Pair `i` takes sixteen bytes at distance `16 * i` from the
/// start and sixteen bytes at the same distance from the end.
pub open spec fn sum_pairs(input: Seq<u8>, secret: Seq<u8>, seed: u64, n: nat) -> u64
    decreases n,
{
    if n == 0 {
        0
    } else {
        let i = n - 1;
        sum_pairs(input, secret, seed, i as nat).wrapping_add(
            mix16(input, 16 * i, secret, 32 * i, seed),
        ).wrapping_add(mix16(input, input.len() - 16 * (i + 1), secret, 32 * i + 16, seed))
    }
}

/// The digest of an input of 17 to 128 bytes.
pub open spec fn hash_len_17to128(input: Seq<u8>, secret: Seq<u8>, seed: u64) -> u64 {
    let len = input.len();
    avalanche3(
        (len as u64).wrapping_mul(PRIME64_1).wrapping_add(
            sum_pairs(input, secret, seed, (len - 1) as nat / 32 + 1),
        ),
    )
}

/// The sum, modulo 2^64, of the mixes of the sixteen-byte rounds `from..to`
/// of the input, round `i` with the secret at `16 * (i - from) + sat`.
pub open spec fn sum_rounds(
    input: Seq<u8>,
    secret: Seq<u8>,
    seed: u64,
    from: int,
    to: int,
    sat: int,
) -> u64
    decreases to - from,
{
    if to <= from {
        0
    } else {
        let i = to - 1;
        sum_rounds(input, secret, seed, from, i, sat).wrapping_add(
            mix16(input, 16 * i, secret, 16 * (i - from) + sat, seed),
        )
    }
}

/// The digest of an input of 129 to 240 bytes.
pub open spec fn hash_len_129to240(input: Seq<u8>, secret: Seq<u8>, seed: u64) -> u64 {
    let len = input.len() as int;
    let head = avalanche3(
        (len as u64).wrapping_mul(PRIME64_1).wrapping_add(sum_rounds(input, secret, seed, 0, 8, 0)),
    );
    let rest = mix16(input, len - 16, secret, 119, seed).wrapping_add(
        sum_rounds(input, secret, seed, 8, len / 16, 3),
    );
    avalanche3(head.wrapping_add(rest))
}

/// The digest of an input of up to 240 bytes under `seed` and `secret`.
pub open spec fn hash_short(input: Seq<u8>, secret: Seq<u8>, seed: u64) -> u64 {
    if input.len() == 0 {
        hash_len_0(secret, seed)
    } else if input.len() <= 3 {
        hash_len_1to3(input, secret, seed)
    } else if input.len() <= 8 {
        hash_len_4to8(input, secret, seed)
    } else if input.len() <= 16 {
        hash_len_9to16(input, secret, seed)
    } else if input.len() <= 128 {
        hash_len_17to128(input, secret, seed)
    } else {
        hash_len_129to240(input, secret, seed)
    }
}

/// The eight accumulators before any input.
pub open spec fn init_acc() -> Seq<u64> {
    seq![
        PRIME32_3 as u64,
        PRIME64_1,
        PRIME64_2,
        PRIME64_3,
        PRIME64_4,
        PRIME32_2 as u64,
        PRIME64_5,
        PRIME32_1 as u64,
    ]
}

/// The lane next to lane `i`: lanes are paired (0, 1), (2, 3) and so on.
pub open spec fn neighbour(i: int) -> int {
    if i % 2 == 0 {
        i + 1
    } else {
        i - 1
    }
}

/// Lane `i` after the stripe `input[at..at + 64]` under the secret at `sat`:
/// it gains the word of its neighbour and the product of the halves of its
/// own keyed word.
#[verifier::opaque]
pub open spec fn accumulate_lane(
    acc: u64,
    input: Seq<u8>,
    at: int,
    secret: Seq<u8>,
    sat: int,
    i: int,
) -> u64 {
    let key = le64(input, at + 8 * i) ^ le64(secret, sat + 8 * i);
    acc.wrapping_add(le64(input, at + 8 * neighbour(i))).wrapping_add(mul32to64(key, key >> 32))
}

/// The accumulators after the stripe `input[at..at + 64]` under the secret
/// at `sat`.
pub open spec fn accumulate(
    acc: Seq<u64>,
    input: Seq<u8>,
    at: int,
    secret: Seq<u8>,
    sat: int,
) -> Seq<u64> {
    Seq::new(8, |i: int| accumulate_lane(acc[i], input, at, secret, sat, i))
}

/// One accumulator scrambled with the secret word `key`.
#[verifier::opaque]
pub open spec fn scramble_lane(acc: u64, key: u64) -> u64 {
    (xorshift64(acc, 47) ^ key).wrapping_mul(PRIME32_1 as u64)
}

/// The accumulators scrambled with the last 64 bytes of the secret.
pub open spec fn scramble(acc: Seq<u64>, secret: Seq<u8>) -> Seq<u64> {
    Seq::new(8, |i: int| scramble_lane(acc[i], le64(secret, secret.len() - 64 + 8 * i)))
}

/// How many stripes are folded before the accumulators are scrambled.
pub open spec fn stripes_per_block(secret: Seq<u8>) -> int {
    (secret.len() - 64) / 8
}

/// The accumulators after the first `n` stripes of `input`. Stripe `j` meets
/// the secret at `8 * (j % stripes_per_block)`, and each full block ends with
/// a scramble.
pub open spec fn acc_after(input: Seq<u8>, secret: Seq<u8>, n: nat) -> Seq<u64>
    decreases n,
{
    if n == 0 {
        init_acc()
    } else {
        let j = n - 1;
        let per_block = stripes_per_block(secret);
        let folded = accumulate(
            acc_after(input, secret, j as nat),
            input,
            64 * j,
            secret,
            8 * (j % per_block),
        );
        if n % (per_block as nat) == 0 {
            scramble(folded, secret)
        } else {
            folded
        }
    }
}

/// The accumulators of a long input before they are merged: all stripes that
/// end before the last byte, then the last 64 bytes as a stripe of their own.
pub open spec fn final_acc(input: Seq<u8>, secret: Seq<u8>) -> Seq<u64> {
    accumulate(
        acc_after(input, secret, ((input.len() - 1) / 64) as nat),
        input,
        input.len() - 64,
        secret,
        secret.len() - 71,
    )
}

/// Two accumulators mixed with sixteen bytes of secret at `sat`.
#[verifier::opaque]
pub open spec fn mix2(a: u64, b: u64, secret: Seq<u8>, sat: int) -> u64 {
    mul128_fold64(a ^ le64(secret, sat), b ^ le64(secret, sat + 8))
}

/// The eight accumulators merged into one word, with the secret at `sat`.
pub open spec fn merge_accs(acc: Seq<u64>, secret: Seq<u8>, sat: int, start: u64) -> u64 {
    avalanche3(
        start.wrapping_add(mix2(acc[0], acc[1], secret, sat)).wrapping_add(
            mix2(acc[2], acc[3], secret, sat + 16),
        ).wrapping_add(mix2(acc[4], acc[5], secret, sat + 32)).wrapping_add(
            mix2(acc[6], acc[7], secret, sat + 48),
        ),
    )
}

/// The length of an input as it enters a digest: modulo 2^64.
pub open spec fn len64(input: Seq<u8>) -> u64 {
    (input.len() % 0x1_0000_0000_0000_0000) as u64
}

/// The digest of an input of more than 240 bytes under `secret`.
pub open spec fn hash_long(input: Seq<u8>, secret: Seq<u8>) -> u64 {
    merge_accs(final_acc(input, secret), secret, 11, len64(input).wrapping_mul(PRIME64_1))
}

/// The 64-bit XXH3 digest of `input` under the customisation `keying`.
pub open spec fn xxh3_64_spec(input: Seq<u8>, keying: Keying) -> u64 {
    if input.len() <= MIDSIZE_MAX {
        hash_short(input, keying.short_secret(), keying.seed())
    } else {
        hash_long(input, keying.long_secret())
    }
}

} // verus!
