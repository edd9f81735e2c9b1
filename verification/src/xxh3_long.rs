//! The XXH3 digest of an input of more than 240 bytes: eight accumulators
//! that take in the input stripe by stripe.

use crate::bits::{le64, mul_128_fold64, mul_32to64, read_le64};
use crate::xxh32::{PRIME32_1, PRIME32_2, PRIME32_3};
use crate::xxh3_short::{avalanche_3, SHORT_SECRET_LEN};
use crate::xxh3_spec::{
    acc_after, accumulate, accumulate_lane, final_acc, hash_long, init_acc, merge_accs, mix2,
    neighbour, scramble, scramble_lane, stripes_per_block,
};
use crate::xxh64::{PRIME64_1, PRIME64_2, PRIME64_3, PRIME64_4, PRIME64_5};
use vstd::arithmetic::div_mod::{lemma_fundamental_div_mod, lemma_fundamental_div_mod_converse};
use vstd::prelude::*;

verus! {

/// Counting up modulo `d`: the remainder grows by one, or falls back to zero
/// from `d - 1`.
pub proof fn lemma_mod_succ(k: int, d: int)
    requires
        0 <= k,
        0 < d,
    ensures
        (k + 1) % d == if k % d + 1 == d {
            0
        } else {
            k % d + 1
        },
{
    lemma_fundamental_div_mod(k, d);
    let q = k / d;
    assert(q * d == d * q) by (nonlinear_arith);
    assert((q + 1) * d == q * d + d) by (nonlinear_arith);
    if k % d + 1 == d {
        lemma_fundamental_div_mod_converse(k + 1, d, q + 1, 0);
    } else {
        lemma_fundamental_div_mod_converse(k + 1, d, q, k % d + 1);
    }
}

/// Folding a stripe looks only at its 64 bytes of input and 64 bytes of
/// secret, wherever they stand.
pub proof fn lemma_accumulate_same_bytes(
    acc: Seq<u64>,
    a: Seq<u8>,
    at: int,
    b: Seq<u8>,
    bt: int,
    s: Seq<u8>,
    sat: int,
    t: Seq<u8>,
    tat: int,
)
    requires
        forall|j: int| at <= j < at + 64 ==> #[trigger] a[j] == b[j - at + bt],
        forall|j: int| sat <= j < sat + 64 ==> #[trigger] s[j] == t[j - sat + tat],
    ensures
        accumulate(acc, a, at, s, sat) == accumulate(acc, b, bt, t, tat),
{
    reveal(accumulate_lane);
    assert forall|i: int| 0 <= i < 8 implies accumulate_lane(acc[i], a, at, s, sat, i)
        == accumulate_lane(acc[i], b, bt, t, tat, i) by {
        lemma_le64_same_bytes(a, at + 8 * i, b, bt + 8 * i);
        lemma_le64_same_bytes(a, at + 8 * neighbour(i), b, bt + 8 * neighbour(i));
        lemma_le64_same_bytes(s, sat + 8 * i, t, tat + 8 * i);
    }
    assert(accumulate(acc, a, at, s, sat) =~= accumulate(acc, b, bt, t, tat));
}

/// A word read from equal bytes is the same word.
pub proof fn lemma_le64_same_bytes(a: Seq<u8>, at: int, b: Seq<u8>, bt: int)
    requires
        a[at] == b[bt],
        a[at + 1] == b[bt + 1],
        a[at + 2] == b[bt + 2],
        a[at + 3] == b[bt + 3],
        a[at + 4] == b[bt + 4],
        a[at + 5] == b[bt + 5],
        a[at + 6] == b[bt + 6],
        a[at + 7] == b[bt + 7],
    ensures
        le64(a, at) == le64(b, bt),
{
}

pub(crate) fn initial_acc() -> (acc: [u64; 8])
    ensures
        acc@ == init_acc(),
{
    let acc = [
        PRIME32_3 as u64,
        PRIME64_1,
        PRIME64_2,
        PRIME64_3,
        PRIME64_4,
        PRIME32_2 as u64,
        PRIME64_5,
        PRIME32_1 as u64,
    ];
    assert(acc@ =~= init_acc());
    acc
}

/// Folds the stripe `input[at..at + 64]` into the accumulators, with the
/// secret at `sat`.
pub(crate) fn accumulate_stripe(
    acc: &mut [u64; 8],
    input: &[u8],
    at: usize,
    secret: &[u8],
    sat: usize,
)
    requires
        at + 64 <= input.len(),
        sat + 64 <= secret.len(),
    ensures
        final(acc)@ == accumulate(old(acc)@, input@, at as int, secret@, sat as int),
{
    let ghost before = acc@;
    let mut i: usize = 0;
    while i < 8
        invariant
            i <= 8,
            i % 2 == 0,
            at + 64 <= input.len(),
            sat + 64 <= secret.len(),
            forall|j: int|
                0 <= j < i ==> #[trigger] acc@[j] == accumulate_lane(
                    before[j],
                    input@,
                    at as int,
                    secret@,
                    sat as int,
                    j,
                ),
            forall|j: int| i <= j < 8 ==> #[trigger] acc@[j] == before[j],
        decreases 8 - i,
    {
        proof {
            reveal(accumulate_lane);
        }
        let even = read_le64(input, at + 8 * i);
        let odd = read_le64(input, at + 8 * i + 8);
        let even_key = even ^ read_le64(secret, sat + 8 * i);
        let odd_key = odd ^ read_le64(secret, sat + 8 * i + 8);
        let lane0 = acc[i].wrapping_add(odd).wrapping_add(mul_32to64(even_key, even_key >> 32));
        let lane1 = acc[i + 1].wrapping_add(even).wrapping_add(
            mul_32to64(odd_key, odd_key >> 32),
        );
        acc[i] = lane0;
        acc[i + 1] = lane1;
        i = i + 2;
    }
    assert(acc@ =~= accumulate(before, input@, at as int, secret@, sat as int));
}

/// Scrambles the accumulators with the last 64 bytes of the secret.
pub(crate) fn scramble_acc(acc: &mut [u64; 8], secret: &[u8])
    requires
        secret.len() >= 64,
    ensures
        final(acc)@ == scramble(old(acc)@, secret@),
{
    let ghost before = acc@;
    let base = secret.len() - 64;
    let mut i: usize = 0;
    while i < 8
        invariant
            i <= 8,
            base + 64 == secret.len(),
            forall|j: int|
                0 <= j < i ==> #[trigger] acc@[j] == scramble_lane(
                    before[j],
                    le64(secret@, base + 8 * j),
                ),
            forall|j: int| i <= j < 8 ==> #[trigger] acc@[j] == before[j],
        decreases 8 - i,
    {
        proof {
            reveal(scramble_lane);
        }
        let key = read_le64(secret, base + 8 * i);
        let lane = acc[i];
        acc[i] = ((lane ^ (lane >> 47)) ^ key).wrapping_mul(PRIME32_1 as u64);
        i = i + 1;
    }
    assert(acc@ =~= scramble(before, secret@));
}

fn mix_2(a: u64, b: u64, secret: &[u8], sat: usize) -> (out: u64)
    requires
        sat + 16 <= secret.len(),
    ensures
        out == mix2(a, b, secret@, sat as int),
{
    reveal(mix2);
    mul_128_fold64(a ^ read_le64(secret, sat), b ^ read_le64(secret, sat + 8))
}

/// Merges the accumulators into one word, with the secret at `sat`.
pub(crate) fn merge(acc: &[u64; 8], secret: &[u8], sat: usize, start: u64) -> (out: u64)
    requires
        sat + 64 <= secret.len(),
    ensures
        out == merge_accs(acc@, secret@, sat as int, start),
{
    avalanche_3(
        start.wrapping_add(mix_2(acc[0], acc[1], secret, sat)).wrapping_add(
            mix_2(acc[2], acc[3], secret, sat + 16),
        ).wrapping_add(mix_2(acc[4], acc[5], secret, sat + 32)).wrapping_add(
            mix_2(acc[6], acc[7], secret, sat + 48),
        ),
    )
}

/// Takes in stripe number `k` of the stream `w`, found at `src[at..at + 64]`.
/// `so_far` counts the stripes of the current block.
pub(crate) fn consume_stripe(
    acc: &mut [u64; 8],
    so_far: &mut usize,
    src: &[u8],
    at: usize,
    secret: &[u8],
    Ghost(w): Ghost<Seq<u8>>,
    Ghost(k): Ghost<nat>,
)
    requires
        secret.len() >= SHORT_SECRET_LEN,
        at + 64 <= src.len(),
        forall|j: int| at <= j < at + 64 ==> #[trigger] src@[j] == w[j - at + 64 * k],
        old(acc)@ == acc_after(w, secret@, k),
        *old(so_far) == k as int % stripes_per_block(secret@),
    ensures
        final(acc)@ == acc_after(w, secret@, k + 1),
        *final(so_far) == (k + 1) as int % stripes_per_block(secret@),
{
    let per_block = (secret.len() - 64) / 8;
    proof {
        lemma_mod_succ(k as int, per_block as int);
        lemma_accumulate_same_bytes(
            acc@,
            src@,
            at as int,
            w,
            64 * (k as int),
            secret@,
            8 * (*so_far as int),
            secret@,
            8 * (*so_far as int),
        );
    }
    accumulate_stripe(acc, src, at, secret, 8 * *so_far);
    *so_far = *so_far + 1;
    if *so_far == per_block {
        scramble_acc(acc, secret);
        *so_far = 0;
    }
}

/// The accumulators of an input of more than 240 bytes, ready to be merged.
pub(crate) fn fold_all(input: &[u8], secret: &[u8]) -> (acc: [u64; 8])
    requires
        input.len() > 240,
        secret.len() >= SHORT_SECRET_LEN,
    ensures
        acc@ == final_acc(input@, secret@),
{
    let len = input.len();
    let stripes = (len - 1) / 64;
    let mut acc = initial_acc();
    let mut so_far: usize = 0;
    let mut k: usize = 0;
    while k < stripes
        invariant
            len == input.len(),
            stripes == (len - 1) / 64,
            secret.len() >= SHORT_SECRET_LEN,
            k <= stripes,
            acc@ == acc_after(input@, secret@, k as nat),
            so_far == k as int % stripes_per_block(secret@),
        decreases stripes - k,
    {
        consume_stripe(
            &mut acc,
            &mut so_far,
            input,
            64 * k,
            secret,
            Ghost(input@),
            Ghost(k as nat),
        );
        k = k + 1;
    }
    accumulate_stripe(&mut acc, input, len - 64, secret, secret.len() - 71);
    acc
}

/// The digest of an input of more than 240 bytes under `secret`.
pub(crate) fn long(input: &[u8], secret: &[u8]) -> (hash: u64)
    requires
        input.len() > 240,
        secret.len() >= SHORT_SECRET_LEN,
    ensures
        hash == hash_long(input@, secret@),
{
    let acc = fold_all(input, secret);
    merge(&acc, secret, 11, (input.len() as u64).wrapping_mul(PRIME64_1))
}

} // verus!
