//! The 32-bit hash: four lanes fed by 16-byte stripes, a tail of up to
//! fifteen bytes, and a final avalanche.

use crate::bits::{le32, read_le32, rotate_left32, rotl32};
use vstd::prelude::*;

verus! {

pub const PRIME32_1: u32 = 0x9E3779B1;

pub const PRIME32_2: u32 = 0x85EBCA77;

pub const PRIME32_3: u32 = 0xC2B2AE3D;

pub const PRIME32_4: u32 = 0x27D4EB2F;

pub const PRIME32_5: u32 = 0x165667B1;

/// One lane after it has absorbed the word `input`.
#[verifier::opaque]
pub open spec fn round32(acc: u32, input: u32) -> u32 {
    rotl32(acc.wrapping_add(input.wrapping_mul(PRIME32_2)), 13).wrapping_mul(PRIME32_1)
}

/// The final mixing of all bits.
#[verifier::opaque]
pub open spec fn avalanche32(h: u32) -> u32 {
    let a = (h ^ (h >> 15)).wrapping_mul(PRIME32_2);
    let b = (a ^ (a >> 13)).wrapping_mul(PRIME32_3);
    b ^ (b >> 16)
}

/// The four lanes before any input.
pub open spec fn init_lanes32(seed: u32) -> Seq<u32> {
    seq![
        seed.wrapping_add(PRIME32_1).wrapping_add(PRIME32_2),
        seed.wrapping_add(PRIME32_2),
        seed,
        seed.wrapping_sub(PRIME32_1),
    ]
}

/// The lanes after the first `n` stripes of `data`.
pub open spec fn lanes32_after(data: Seq<u8>, seed: u32, n: nat) -> Seq<u32>
    decreases n,
{
    if n == 0 {
        init_lanes32(seed)
    } else {
        let prev = lanes32_after(data, seed, (n - 1) as nat);
        let at = 16 * (n - 1);
        seq![
            round32(prev[0], le32(data, at)),
            round32(prev[1], le32(data, at + 4)),
            round32(prev[2], le32(data, at + 8)),
            round32(prev[3], le32(data, at + 12)),
        ]
    }
}

/// The four lanes folded into one word.
#[verifier::opaque]
pub open spec fn merge_lanes32(lanes: Seq<u32>) -> u32 {
    rotl32(lanes[0], 1).wrapping_add(rotl32(lanes[1], 7)).wrapping_add(
        rotl32(lanes[2], 12),
    ).wrapping_add(rotl32(lanes[3], 18))
}

/// `h` after a four-byte word of the tail.
#[verifier::opaque]
pub open spec fn tail32_word(h: u32, w: u32) -> u32 {
    rotl32(h.wrapping_add(w.wrapping_mul(PRIME32_3)), 17).wrapping_mul(PRIME32_4)
}

/// `h` after a single byte of the tail.
#[verifier::opaque]
pub open spec fn tail32_byte(h: u32, b: u8) -> u32 {
    rotl32(h.wrapping_add((b as u32).wrapping_mul(PRIME32_5)), 11).wrapping_mul(PRIME32_1)
}

/// The digest from the intermediate word `h` and the bytes of `data` from
/// `pos` on: words while four bytes are left, then bytes, then the avalanche.
pub open spec fn finalize32(h: u32, data: Seq<u8>, pos: int) -> u32
    decreases data.len() - pos,
{
    if pos < 0 {
        0
    } else if pos + 4 <= data.len() {
        finalize32(tail32_word(h, le32(data, pos)), data, pos + 4)
    } else if pos < data.len() {
        finalize32(tail32_byte(h, data[pos]), data, pos + 1)
    } else {
        avalanche32(h)
    }
}

/// The 32-bit digest of `data` under `seed`.
pub open spec fn xxh32_spec(data: Seq<u8>, seed: u32) -> u32 {
    let stripes = data.len() / 16;
    let start = if data.len() >= 16 {
        merge_lanes32(lanes32_after(data, seed, stripes))
    } else {
        seed.wrapping_add(PRIME32_5)
    };
    finalize32(start.wrapping_add((data.len() % 0x1_0000_0000) as u32), data, 16 * (stripes as int))
}

fn round(acc: u32, input: u32) -> (out: u32)
    ensures
        out == round32(acc, input),
{
    reveal(round32);
    rotate_left32(acc.wrapping_add(input.wrapping_mul(PRIME32_2)), 13).wrapping_mul(PRIME32_1)
}

fn avalanche(h: u32) -> (out: u32)
    ensures
        out == avalanche32(h),
{
    reveal(avalanche32);
    let a = (h ^ (h >> 15)).wrapping_mul(PRIME32_2);
    let b = (a ^ (a >> 13)).wrapping_mul(PRIME32_3);
    b ^ (b >> 16)
}

fn tail_word(h: u32, w: u32) -> (out: u32)
    ensures
        out == tail32_word(h, w),
{
    reveal(tail32_word);
    rotate_left32(h.wrapping_add(w.wrapping_mul(PRIME32_3)), 17).wrapping_mul(PRIME32_4)
}

fn tail_byte(h: u32, b: u8) -> (out: u32)
    ensures
        out == tail32_byte(h, b),
{
    reveal(tail32_byte);
    rotate_left32(h.wrapping_add((b as u32).wrapping_mul(PRIME32_5)), 11).wrapping_mul(PRIME32_1)
}

fn merge(v1: u32, v2: u32, v3: u32, v4: u32) -> (out: u32)
    ensures
        out == merge_lanes32(seq![v1, v2, v3, v4]),
{
    reveal(merge_lanes32);
    rotate_left32(v1, 1).wrapping_add(rotate_left32(v2, 7)).wrapping_add(
        rotate_left32(v3, 12),
    ).wrapping_add(rotate_left32(v4, 18))
}

fn finalize(h: u32, data: &[u8], from: usize) -> (out: u32)
    requires
        from <= data@.len(),
    ensures
        out == finalize32(h, data@, from as int),
{
    let len = data.len();
    let ghost goal = finalize32(h, data@, from as int);
    let mut h = h;
    let mut pos = from;
    while len - pos >= 4
        invariant
            len == data@.len(),
            pos <= len,
            finalize32(h, data@, pos as int) == goal,
        decreases len - pos,
    {
        h = tail_word(h, read_le32(data, pos));
        pos = pos + 4;
    }
    while pos < len
        invariant
            len == data@.len(),
            pos <= len,
            len - pos < 4,
            finalize32(h, data@, pos as int) == goal,
        decreases len - pos,
    {
        h = tail_byte(h, data[pos]);
        pos = pos + 1;
    }
    avalanche(h)
}

/// Calculates the 32-bit hash of `input` under `seed`.
pub fn xxh32(input: &[u8], seed: u32) -> (hash: u32)
    ensures
        hash == xxh32_spec(input@, seed),
{
    let len = input.len();
    let mut pos: usize = 0;
    let start = if len >= 16 {
        let mut v1 = seed.wrapping_add(PRIME32_1).wrapping_add(PRIME32_2);
        let mut v2 = seed.wrapping_add(PRIME32_2);
        let mut v3 = seed;
        let mut v4 = seed.wrapping_sub(PRIME32_1);
        let ghost mut done: nat = 0;
        while len - pos >= 16
            invariant
                len == input@.len(),
                pos <= len,
                pos == 16 * done,
                v1 == lanes32_after(input@, seed, done)[0],
                v2 == lanes32_after(input@, seed, done)[1],
                v3 == lanes32_after(input@, seed, done)[2],
                v4 == lanes32_after(input@, seed, done)[3],
            decreases len - pos,
        {
            v1 = round(v1, read_le32(input, pos));
            v2 = round(v2, read_le32(input, pos + 4));
            v3 = round(v3, read_le32(input, pos + 8));
            v4 = round(v4, read_le32(input, pos + 12));
            pos = pos + 16;
            proof {
                done = done + 1;
            }
        }
        proof {
            assert(done == len as nat / 16);
            assert(seq![v1, v2, v3, v4] =~= lanes32_after(input@, seed, done));
        }
        merge(v1, v2, v3, v4)
    } else {
        seed.wrapping_add(PRIME32_5)
    };
    let low = ((len as u64) % 0x1_0000_0000) as u32;
    finalize(start.wrapping_add(low), input, pos)
}

} // verus!
