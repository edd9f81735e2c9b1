//! Laws that relate the streaming states to the one-shot functions.

use crate::secret::{lemma_derived_secret_of_zero, Keying};
use crate::xxh3_128::xxh3_128_spec;
use crate::xxh3_spec::xxh3_64_spec;
use crate::xxh3_stream::XXH3_64;
use crate::xxh64::xxh64_spec;
use crate::xxh64_stream::XXH64;
use vstd::prelude::*;

verus! {

/// The chunks joined end to end.
pub open spec fn concat(chunks: Seq<Seq<u8>>) -> Seq<u8>
    decreases chunks.len(),
{
    if chunks.len() == 0 {
        Seq::empty()
    } else {
        concat(chunks.drop_last()) + chunks.last()
    }
}

/// What a state has written once each of `chunks` was written to it in turn,
/// if `start` was written before.
pub open spec fn written_after(start: Seq<u8>, chunks: Seq<Seq<u8>>) -> Seq<u8>
    decreases chunks.len(),
{
    if chunks.len() == 0 {
        start
    } else {
        written_after(start, chunks.drop_last()) + chunks.last()
    }
}

/// Writing chunk after chunk writes their concatenation.
pub proof fn lemma_written_after(start: Seq<u8>, chunks: Seq<Seq<u8>>)
    ensures
        written_after(start, chunks) == start + concat(chunks),
    decreases chunks.len(),
{
    if chunks.len() == 0 {
        assert(start + concat(chunks) =~= start);
    } else {
        lemma_written_after(start, chunks.drop_last());
        assert(start + concat(chunks.drop_last()) + chunks.last() =~= start + (concat(
            chunks.drop_last(),
        ) + chunks.last()));
    }
}

/// Joining the chunks of two lists is joining the two lists' concatenations:
/// where the cuts fall does not matter.
pub proof fn lemma_concat_append(a: Seq<Seq<u8>>, b: Seq<Seq<u8>>)
    ensures
        concat(a + b) == concat(a) + concat(b),
    decreases b.len(),
{
    if b.len() == 0 {
        assert(a + b =~= a);
        assert(concat(a) + concat(b) =~= concat(a));
    } else {
        lemma_concat_append(a, b.drop_last());
        assert((a + b).drop_last() =~= a + b.drop_last());
        assert((a + b).last() == b.last());
        assert(concat(a) + concat(b.drop_last()) + b.last() =~= concat(a) + (concat(
            b.drop_last(),
        ) + b.last()));
    }
}

/// Chunking invariance of the 64-bit hash: a state made with `seed`, after
/// the chunks were written to it in turn, gives the one-shot hash of their
/// concatenation, however the input was cut.
pub proof fn law_xxh64_chunking_invariance(hasher: XXH64, seed: u64, chunks: Seq<Seq<u8>>)
    requires
        hasher.seed() == seed,
        hasher.written() == written_after(Seq::empty(), chunks),
    ensures
        hasher.digest() == xxh64_spec(concat(chunks), seed),
{
    lemma_written_after(Seq::empty(), chunks);
    assert(Seq::<u8>::empty() + concat(chunks) =~= concat(chunks));
}

/// Chunking invariance of the 64-bit XXH3 hash, under any customisation.
pub proof fn law_xxh3_chunking_invariance(hasher: XXH3_64, keying: Keying, chunks: Seq<Seq<u8>>)
    requires
        hasher.keying() == keying,
        hasher.written() == written_after(Seq::empty(), chunks),
    ensures
        hasher.digest() == xxh3_64_spec(concat(chunks), keying),
{
    lemma_written_after(Seq::empty(), chunks);
    assert(Seq::<u8>::empty() + concat(chunks) =~= concat(chunks));
}

/// Two ways of cutting the same input give the same digest.
pub proof fn law_xxh3_cuts_do_not_matter(
    a: XXH3_64,
    b: XXH3_64,
    chunks_a: Seq<Seq<u8>>,
    chunks_b: Seq<Seq<u8>>,
)
    requires
        a.keying() == b.keying(),
        a.written() == written_after(Seq::empty(), chunks_a),
        b.written() == written_after(Seq::empty(), chunks_b),
        concat(chunks_a) == concat(chunks_b),
    ensures
        a.digest() == b.digest(),
{
    law_xxh3_chunking_invariance(a, a.keying(), chunks_a);
    law_xxh3_chunking_invariance(b, b.keying(), chunks_b);
}

/// Determinism of the 64-bit hash: the digest depends on the seed and the
/// bytes written since the state was made or last reset, and on nothing
/// else.
pub proof fn law_xxh64_digest_determined(a: XXH64, b: XXH64)
    requires
        a.seed() == b.seed(),
        a.written() == b.written(),
    ensures
        a.digest() == b.digest(),
{
}

/// Determinism of the 64-bit XXH3 hash: the digest depends on the
/// customisation and the bytes written since the state was made or last
/// reset, and on nothing else.
pub proof fn law_xxh3_digest_determined(a: XXH3_64, b: XXH3_64)
    requires
        a.keying() == b.keying(),
        a.written() == b.written(),
    ensures
        a.digest() == b.digest(),
{
}

/// Resettability of the 64-bit hash. `before` is a state that has hashed
/// `bytes` under `seed`, whatever it had been through. `after` is any state
/// that was reset with the same seed, so that nothing is written, and then
/// fed `bytes` again. Both give the same digest.
pub proof fn law_xxh64_reset_reproduces(before: XXH64, after: XXH64, seed: u64, bytes: Seq<u8>)
    requires
        before.seed() == seed,
        before.written() == bytes,
        after.seed() == seed,
        after.written() == Seq::<u8>::empty() + bytes,
    ensures
        after.digest() == before.digest(),
{
    assert(Seq::<u8>::empty() + bytes =~= bytes);
}

/// Resettability of the 64-bit XXH3 hash. `before` is a state that has
/// hashed `bytes` under `keying`, whatever it had been through. `after` is
/// any state that was reset with the same policy, so that nothing is
/// written, and then fed `bytes` again. Both give the same digest.
pub proof fn law_xxh3_reset_reproduces(
    before: XXH3_64,
    after: XXH3_64,
    keying: Keying,
    bytes: Seq<u8>,
)
    requires
        before.keying() == keying,
        before.written() == bytes,
        after.keying() == keying,
        after.written() == Seq::<u8>::empty() + bytes,
    ensures
        after.digest() == before.digest(),
{
    assert(Seq::<u8>::empty() + bytes =~= bytes);
}

/// The seed 0 is no seed: it gives the digests of the built-in secret.
pub proof fn law_seed_zero_is_default(input: Seq<u8>)
    ensures
        xxh3_64_spec(input, Keying::Seeded(0)) == xxh3_64_spec(input, Keying::Default),
        xxh3_128_spec(input, Keying::Seeded(0)) == xxh3_128_spec(input, Keying::Default),
{
    lemma_derived_secret_of_zero();
}

/// The contents of a list of chunks.
pub open spec fn chunk_views(chunks: Seq<&[u8]>) -> Seq<Seq<u8>> {
    chunks.map_values(|chunk: &[u8]| chunk@)
}

/// The 64-bit hash of the chunks' concatenation, computed by writing them to
/// a streaming state one by one.
pub fn xxh64_chunks(chunks: &[&[u8]], seed: u64) -> (hash: u64)
    ensures
        hash == xxh64_spec(concat(chunk_views(chunks@)), seed),
{
    let mut hasher = XXH64::new(seed);
    let mut i: usize = 0;
    while i < chunks.len()
        invariant
            i <= chunks.len(),
            hasher.seed() == seed,
            hasher.written() == written_after(
                Seq::empty(),
                chunk_views(chunks@).subrange(0, i as int),
            ),
        decreases chunks.len() - i,
    {
        hasher.write(chunks[i]);
        proof {
            let all = chunk_views(chunks@);
            assert(all.subrange(0, i + 1).drop_last() =~= all.subrange(0, i as int));
            assert(all.subrange(0, i + 1).last() == chunks[i as int]@);
        }
        i = i + 1;
    }
    proof {
        let all = chunk_views(chunks@);
        assert(all.subrange(0, i as int) =~= all);
        law_xxh64_chunking_invariance(hasher, seed, all);
    }
    hasher.finish()
}

/// The 64-bit XXH3 hash of the chunks' concatenation, computed by writing
/// them to a streaming state one by one.
pub fn xxh3_64_chunks(chunks: &[&[u8]]) -> (hash: u64)
    ensures
        hash == xxh3_64_spec(concat(chunk_views(chunks@)), Keying::Default),
{
    let mut hasher = XXH3_64::new();
    let mut i: usize = 0;
    while i < chunks.len()
        invariant
            i <= chunks.len(),
            hasher.keying() == Keying::Default,
            hasher.written() == written_after(
                Seq::empty(),
                chunk_views(chunks@).subrange(0, i as int),
            ),
        decreases chunks.len() - i,
    {
        hasher.write(chunks[i]);
        proof {
            let all = chunk_views(chunks@);
            assert(all.subrange(0, i + 1).drop_last() =~= all.subrange(0, i as int));
            assert(all.subrange(0, i + 1).last() == chunks[i as int]@);
        }
        i = i + 1;
    }
    proof {
        let all = chunk_views(chunks@);
        assert(all.subrange(0, i as int) =~= all);
        law_xxh3_chunking_invariance(hasher, Keying::Default, all);
    }
    hasher.finish()
}

} // verus!
