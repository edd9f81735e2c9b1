//! The 64-bit hash: four lanes fed by 32-byte stripes, a tail of up to
//! thirty-one bytes, and a final avalanche.

use crate::bits::{le32, le64, read_le32, read_le64, rotate_left64, rotl64};
use vstd::prelude::*;

verus! {

pub const PRIME64_1: u64 = 0x9E3779B185EBCA87;

pub const PRIME64_2: u64 = 0xC2B2AE3D27D4EB4F;

pub const PRIME64_3: u64 = 0x165667B19E3779F9;

pub const PRIME64_4: u64 = 0x85EBCA77C2B2AE63;

pub const PRIME64_5: u64 = 0x27D4EB2F165667C5;

/// One lane after it has absorbed the word `input`.
#[verifier::opaque]
pub open spec fn round64(acc: u64, input: u64) -> u64 {
    rotl64(acc.wrapping_add(input.wrapping_mul(PRIME64_2)), 31).wrapping_mul(PRIME64_1)
}

/// The running word `h` after the lane `lane` has been merged into it.
#[verifier::opaque]
pub open spec fn merge_round64(h: u64, lane: u64) -> u64 {
    (h ^ round64(0, lane)).wrapping_mul(PRIME64_1).wrapping_add(PRIME64_4)
}

/// The final mixing of all bits.
#[verifier::opaque]
pub open spec fn avalanche64(h: u64) -> u64 {
    let a = (h ^ (h >> 33)).wrapping_mul(PRIME64_2);
    let b = (a ^ (a >> 29)).wrapping_mul(PRIME64_3);
    b ^ (b >> 32)
}

/// The four lanes before any input.
pub open spec fn init_lanes64(seed: u64) -> Seq<u64> {
    seq![
        seed.wrapping_add(PRIME64_1).wrapping_add(PRIME64_2),
        seed.wrapping_add(PRIME64_2),
        seed,
        seed.wrapping_sub(PRIME64_1),
    ]
}

/// The lanes `lanes` after the stripe `data[at..at + 32]`.
pub open spec fn fold_stripe64(lanes: Seq<u64>, data: Seq<u8>, at: int) -> Seq<u64> {
    seq![
        round64(lanes[0], le64(data, at)),
        round64(lanes[1], le64(data, at + 8)),
        round64(lanes[2], le64(data, at + 16)),
        round64(lanes[3], le64(data, at + 24)),
    ]
}

/// The lanes after the first `n` stripes of `data`.
pub open spec fn lanes64_after(data: Seq<u8>, seed: u64, n: nat) -> Seq<u64>
    decreases n,
{
    if n == 0 {
        init_lanes64(seed)
    } else {
        fold_stripe64(lanes64_after(data, seed, (n - 1) as nat), data, 32 * (n - 1))
    }
}

/// The four lanes folded into one word.
#[verifier::opaque]
pub open spec fn merge_lanes64(lanes: Seq<u64>) -> u64 {
    let h = rotl64(lanes[0], 1).wrapping_add(rotl64(lanes[1], 7)).wrapping_add(
        rotl64(lanes[2], 12),
    ).wrapping_add(rotl64(lanes[3], 18));
    merge_round64(
        merge_round64(merge_round64(merge_round64(h, lanes[0]), lanes[1]), lanes[2]),
        lanes[3],
    )
}

/// `h` after an eight-byte word of the tail.
#[verifier::opaque]
pub open spec fn tail64_word8(h: u64, w: u64) -> u64 {
    rotl64(h ^ round64(0, w), 27).wrapping_mul(PRIME64_1).wrapping_add(PRIME64_4)
}

/// `h` after a four-byte word of the tail.
#[verifier::opaque]
pub open spec fn tail64_word4(h: u64, w: u32) -> u64 {
    rotl64(h ^ (w as u64).wrapping_mul(PRIME64_1), 23).wrapping_mul(PRIME64_2).wrapping_add(
        PRIME64_3,
    )
}

/// `h` after a single byte of the tail.
#[verifier::opaque]
pub open spec fn tail64_byte(h: u64, b: u8) -> u64 {
    rotl64(h ^ (b as u64).wrapping_mul(PRIME64_5), 11).wrapping_mul(PRIME64_1)
}

/// The digest from the intermediate word `h` and the bytes of `data` from
/// `pos` on: eight-byte words while eight bytes are left, then one four-byte
/// word if four are left, then single bytes, then the avalanche.
pub open spec fn finalize64(h: u64, data: Seq<u8>, pos: int) -> u64
    decreases data.len() - pos,
{
    if pos < 0 {
        0
    } else if pos + 8 <= data.len() {
        finalize64(tail64_word8(h, le64(data, pos)), data, pos + 8)
    } else if pos + 4 <= data.len() {
        finalize64(tail64_word4(h, le32(data, pos)), data, pos + 4)
    } else if pos < data.len() {
        finalize64(tail64_byte(h, data[pos]), data, pos + 1)
    } else {
        avalanche64(h)
    }
}

/// The word that the tail is mixed into: the merged lanes once a whole
/// stripe was seen, the seed otherwise, plus the length modulo 2^64.
pub open spec fn start64(data: Seq<u8>, seed: u64) -> u64 {
    let base = if data.len() >= 32 {
        merge_lanes64(lanes64_after(data, seed, data.len() / 32))
    } else {
        seed.wrapping_add(PRIME64_5)
    };
    base.wrapping_add((data.len() % 0x1_0000_0000_0000_0000) as u64)
}

/// The 64-bit digest of `data` under `seed`.
pub open spec fn xxh64_spec(data: Seq<u8>, seed: u64) -> u64 {
    finalize64(start64(data, seed), data, 32 * (data.len() / 32) as int)
}

pub(crate) fn round(acc: u64, input: u64) -> (out: u64)
    ensures
        out == round64(acc, input),
{
    reveal(round64);
    rotate_left64(acc.wrapping_add(input.wrapping_mul(PRIME64_2)), 31).wrapping_mul(PRIME64_1)
}

fn merge_round(h: u64, lane: u64) -> (out: u64)
    ensures
        out == merge_round64(h, lane),
{
    reveal(merge_round64);
    (h ^ round(0, lane)).wrapping_mul(PRIME64_1).wrapping_add(PRIME64_4)
}

pub(crate) fn avalanche(h: u64) -> (out: u64)
    ensures
        out == avalanche64(h),
{
    reveal(avalanche64);
    let a = (h ^ (h >> 33)).wrapping_mul(PRIME64_2);
    let b = (a ^ (a >> 29)).wrapping_mul(PRIME64_3);
    b ^ (b >> 32)
}

pub(crate) fn merge(lanes: &[u64; 4]) -> (out: u64)
    ensures
        out == merge_lanes64(lanes@),
{
    reveal(merge_lanes64);
    let h = rotate_left64(lanes[0], 1).wrapping_add(rotate_left64(lanes[1], 7)).wrapping_add(
        rotate_left64(lanes[2], 12),
    ).wrapping_add(rotate_left64(lanes[3], 18));
    merge_round(merge_round(merge_round(merge_round(h, lanes[0]), lanes[1]), lanes[2]), lanes[3])
}

pub(crate) fn init_lanes(seed: u64) -> (lanes: [u64; 4])
    ensures
        lanes@ == init_lanes64(seed),
{
    let lanes = [
        seed.wrapping_add(PRIME64_1).wrapping_add(PRIME64_2),
        seed.wrapping_add(PRIME64_2),
        seed,
        seed.wrapping_sub(PRIME64_1),
    ];
    assert(lanes@ =~= init_lanes64(seed));
    lanes
}

/// Folds the stripe `data[at..at + 32]` into `lanes`.
pub(crate) fn fold_stripe(lanes: &mut [u64; 4], data: &[u8], at: usize)
    requires
        at + 32 <= data.len(),
    ensures
        final(lanes)@ == fold_stripe64(old(lanes)@, data@, at as int),
{
    let v1 = round(lanes[0], read_le64(data, at));
    let v2 = round(lanes[1], read_le64(data, at + 8));
    let v3 = round(lanes[2], read_le64(data, at + 16));
    let v4 = round(lanes[3], read_le64(data, at + 24));
    *lanes = [v1, v2, v3, v4];
    assert(lanes@ =~= fold_stripe64(old(lanes)@, data@, at as int));
}

fn tail_word8(h: u64, w: u64) -> (out: u64)
    ensures
        out == tail64_word8(h, w),
{
    reveal(tail64_word8);
    rotate_left64(h ^ round(0, w), 27).wrapping_mul(PRIME64_1).wrapping_add(PRIME64_4)
}

fn tail_word4(h: u64, w: u32) -> (out: u64)
    ensures
        out == tail64_word4(h, w),
{
    reveal(tail64_word4);
    rotate_left64(h ^ (w as u64).wrapping_mul(PRIME64_1), 23).wrapping_mul(PRIME64_2).wrapping_add(
        PRIME64_3,
    )
}

fn tail_byte(h: u64, b: u8) -> (out: u64)
    ensures
        out == tail64_byte(h, b),
{
    reveal(tail64_byte);
    rotate_left64(h ^ (b as u64).wrapping_mul(PRIME64_5), 11).wrapping_mul(PRIME64_1)
}

/// Mixes the bytes of `data` from `from` on into `h` and finishes the digest.
pub(crate) fn finalize(h: u64, data: &[u8], from: usize) -> (out: u64)
    requires
        from <= data@.len(),
    ensures
        out == finalize64(h, data@, from as int),
{
    let len = data.len();
    let ghost goal = finalize64(h, data@, from as int);
    let mut h = h;
    let mut pos = from;
    while len - pos >= 8
        invariant
            len == data@.len(),
            pos <= len,
            finalize64(h, data@, pos as int) == goal,
        decreases len - pos,
    {
        h = tail_word8(h, read_le64(data, pos));
        pos = pos + 8;
    }
    if len - pos >= 4 {
        h = tail_word4(h, read_le32(data, pos));
        pos = pos + 4;
    }
    while pos < len
        invariant
            len == data@.len(),
            pos <= len,
            len - pos < 4,
            finalize64(h, data@, pos as int) == goal,
        decreases len - pos,
    {
        h = tail_byte(h, data[pos]);
        pos = pos + 1;
    }
    avalanche(h)
}

/// Calculates the 64-bit hash of `input` under `seed`.
pub fn xxh64(input: &[u8], seed: u64) -> (hash: u64)
    ensures
        hash == xxh64_spec(input@, seed),
{
    let len = input.len();
    let mut pos: usize = 0;
    let base = if len >= 32 {
        let mut lanes = init_lanes(seed);
        let ghost mut done: nat = 0;
        while len - pos >= 32
            invariant
                len == input@.len(),
                pos <= len,
                pos == 32 * done,
                lanes@ == lanes64_after(input@, seed, done),
            decreases len - pos,
        {
            fold_stripe(&mut lanes, input, pos);
            pos = pos + 32;
            proof {
                done = done + 1;
            }
        }
        assert(done == len as nat / 32);
        merge(&lanes)
    } else {
        seed.wrapping_add(PRIME64_5)
    };
    finalize(base.wrapping_add(len as u64), input, pos)
}

} // verus!
