//! The streaming form of the 64-bit hash.

use crate::xxh64::{
    finalize, finalize64, fold_stripe, fold_stripe64, init_lanes, lanes64_after, merge,
    tail64_byte, tail64_word4, tail64_word8, xxh64_spec, PRIME64_5,
};
use crate::bits::{le32, le64, lemma_wrapping_length};
use vstd::prelude::*;
use vstd::slice::slice_subrange;

verus! {

/// The lanes after `n` stripes depend on the first `32 * n` bytes only.
pub proof fn lemma_lanes64_prefix(a: Seq<u8>, b: Seq<u8>, seed: u64, n: nat)
    requires
        32 * n <= a.len(),
        32 * n <= b.len(),
        forall|i: int| 0 <= i < 32 * n ==> a[i] == b[i],
    ensures
        lanes64_after(a, seed, n) == lanes64_after(b, seed, n),
    decreases n,
{
    if n > 0 {
        lemma_lanes64_prefix(a, b, seed, (n - 1) as nat);
        let at = 32 * (n - 1);
        assert(le64(a, at) == le64(b, at));
        assert(le64(a, at + 8) == le64(b, at + 8));
        assert(le64(a, at + 16) == le64(b, at + 16));
        assert(le64(a, at + 24) == le64(b, at + 24));
    }
}

/// The tail mixing depends on the bytes from the given position on only.
pub proof fn lemma_finalize64_suffix(h: u64, a: Seq<u8>, pa: int, b: Seq<u8>, pb: int)
    requires
        0 <= pa <= a.len(),
        0 <= pb <= b.len(),
        a.len() - pa == b.len() - pb,
        forall|i: int| pa <= i < a.len() ==> #[trigger] a[i] == b[i - pa + pb],
    ensures
        finalize64(h, a, pa) == finalize64(h, b, pb),
    decreases a.len() - pa,
{
    if pa + 8 <= a.len() {
        assert(le64(a, pa) == le64(b, pb));
        lemma_finalize64_suffix(tail64_word8(h, le64(a, pa)), a, pa + 8, b, pb + 8);
    } else if pa + 4 <= a.len() {
        assert(le32(a, pa) == le32(b, pb));
        lemma_finalize64_suffix(tail64_word4(h, le32(a, pa)), a, pa + 4, b, pb + 4);
    } else if pa < a.len() {
        assert(a[pa] == b[pb]);
        lemma_finalize64_suffix(tail64_byte(h, a[pa]), a, pa + 1, b, pb + 1);
    }
}

/// What a streaming state holds: the lanes, the bytes that do not yet fill a
/// stripe, and the length so far.
#[derive(Clone, Copy)]
struct State64 {
    total_len: u64,
    lanes: [u64; 4],
    buffer: [u8; 32],
    buffered: u32,
    large: bool,
    seed: u64,
    written: Ghost<Seq<u8>>,
}

impl State64 {
    /// The state has taken in the first `m` bytes of `w`: all of them but the
    /// last `buffered` are folded into the lanes, and those are in the buffer.
    #[verifier::opaque]
    spec fn absorbed(&self, w: Seq<u8>, m: int) -> bool {
        &&& self.buffered <= 32
        &&& self.buffered <= m <= w.len()
        &&& (m - self.buffered) % 32 == 0
        &&& self.lanes@ == lanes64_after(w, self.seed, ((m - self.buffered) / 32) as nat)
        &&& forall|i: int|
            0 <= i < self.buffered ==> self.buffer[i] == w[m - self.buffered + i]
    }

    spec fn wf(&self) -> bool {
        &&& self.absorbed(self.written@, self.written@.len() as int)
        &&& self.buffered < 32
        &&& self.total_len == self.written@.len() % 0x1_0000_0000_0000_0000
        &&& self.large == (self.written@.len() >= 32)
    }

    fn new(seed: u64) -> (st: Self)
        ensures
            st.wf(),
            st.seed == seed,
            st.written@ == Seq::<u8>::empty(),
    {
        reveal(State64::absorbed);
        State64 {
            total_len: 0,
            lanes: init_lanes(seed),
            buffer: [0u8; 32],
            buffered: 0,
            large: false,
            seed,
            written: Ghost(Seq::empty()),
        }
    }

    fn digest(&self) -> (hash: u64)
        requires
            self.wf(),
        ensures
            hash == xxh64_spec(self.written@, self.seed),
    {
        reveal(State64::absorbed);
        let base = if self.large {
            merge(&self.lanes)
        } else {
            self.seed.wrapping_add(PRIME64_5)
        };
        let tail = slice_subrange(self.buffer.as_slice(), 0, self.buffered as usize);
        proof {
            let w = self.written@;
            lemma_finalize64_suffix(
                base.wrapping_add(self.total_len),
                tail@,
                0,
                w,
                32 * (w.len() / 32) as int,
            );
        }
        finalize(base.wrapping_add(self.total_len), tail, 0)
    }

    /// Moves bytes of `bytes` from `pos` on into the buffer, until it is full
    /// or they are used up. Returns the position reached.
    fn fill(
        &mut self,
        bytes: &[u8],
        pos: usize,
        Ghost(w): Ghost<Seq<u8>>,
        Ghost(base): Ghost<int>,
    ) -> (end: usize)
        requires
            pos <= bytes.len(),
            old(self).absorbed(w, base + pos),
            base >= 0,
            w.len() == base + bytes@.len(),
            forall|i: int| 0 <= i < bytes@.len() ==> #[trigger] bytes@[i] == w[base + i],
        ensures
            pos <= end <= bytes.len(),
            final(self).absorbed(w, base + end),
            final(self).buffered == old(self).buffered + (end - pos),
            final(self).buffered <= 32,
            end == bytes.len() || final(self).buffered == 32,
            final(self).lanes == old(self).lanes,
            final(self).seed == old(self).seed,
            final(self).total_len == old(self).total_len,
            final(self).large == old(self).large,
            final(self).written == old(self).written,
    {
        reveal(State64::absorbed);
        let len = bytes.len();
        let mut at = pos;
        while at < len && self.buffered < 32
            invariant
                len == bytes@.len(),
                pos <= at <= len,
                base >= 0,
                w.len() == base + bytes@.len(),
                forall|i: int| 0 <= i < bytes@.len() ==> #[trigger] bytes@[i] == w[base + i],
                self.absorbed(w, base + at),
                self.buffered == old(self).buffered + (at - pos),
                self.lanes == old(self).lanes,
                self.seed == old(self).seed,
                self.total_len == old(self).total_len,
                self.large == old(self).large,
                self.written == old(self).written,
            decreases len - at,
        {
            proof {
                reveal(State64::absorbed);
            }
            self.buffer[self.buffered as usize] = bytes[at];
            self.buffered = self.buffered + 1;
            at = at + 1;
        }
        at
    }

    /// Folds the full buffer into the lanes and empties it.
    fn flush(&mut self, Ghost(w): Ghost<Seq<u8>>, Ghost(m): Ghost<int>)
        requires
            old(self).absorbed(w, m),
            old(self).buffered == 32,
        ensures
            final(self).absorbed(w, m),
            final(self).buffered == 0,
            final(self).seed == old(self).seed,
            final(self).total_len == old(self).total_len,
            final(self).large == old(self).large,
            final(self).written == old(self).written,
    {
        reveal(State64::absorbed);
        let ghost before = self.lanes@;
        fold_stripe(&mut self.lanes, self.buffer.as_slice(), 0);
        self.buffered = 0;
        proof {
            let at = m - 32;
            assert(le64(self.buffer@, 0) == le64(w, at));
            assert(le64(self.buffer@, 8) == le64(w, at + 8));
            assert(le64(self.buffer@, 16) == le64(w, at + 16));
            assert(le64(self.buffer@, 24) == le64(w, at + 24));
            assert(self.lanes@ == fold_stripe64(before, w, at));
            assert(m / 32 == at / 32 + 1);
        }
    }

    /// Folds whole stripes of `bytes` from `pos` on into the lanes, while a
    /// whole stripe is left. Returns the position reached.
    fn fold(
        &mut self,
        bytes: &[u8],
        pos: usize,
        Ghost(w): Ghost<Seq<u8>>,
        Ghost(base): Ghost<int>,
    ) -> (end: usize)
        requires
            pos <= bytes.len(),
            old(self).absorbed(w, base + pos),
            old(self).buffered == 0,
            base >= 0,
            w.len() == base + bytes@.len(),
            forall|i: int| 0 <= i < bytes@.len() ==> #[trigger] bytes@[i] == w[base + i],
        ensures
            pos <= end <= bytes.len(),
            bytes.len() - end < 32,
            (end - pos) % 32 == 0,
            final(self).absorbed(w, base + end),
            final(self).buffered == 0,
            final(self).seed == old(self).seed,
            final(self).total_len == old(self).total_len,
            final(self).large == old(self).large,
            final(self).written == old(self).written,
    {
        reveal(State64::absorbed);
        let len = bytes.len();
        let mut at = pos;
        while len - at >= 32
            invariant
                len == bytes@.len(),
                pos <= at <= len,
                (at - pos) % 32 == 0,
                base >= 0,
                w.len() == base + bytes@.len(),
                forall|i: int| 0 <= i < bytes@.len() ==> #[trigger] bytes@[i] == w[base + i],
                self.absorbed(w, base + at),
                self.buffered == 0,
                self.seed == old(self).seed,
                self.total_len == old(self).total_len,
                self.large == old(self).large,
                self.written == old(self).written,
            decreases len - at,
        {
            let ghost before = self.lanes@;
            fold_stripe(&mut self.lanes, bytes, at);
            proof {
                reveal(State64::absorbed);
                let to = base + at;
                assert(le64(bytes@, at as int) == le64(w, to));
                assert(le64(bytes@, at + 8) == le64(w, to + 8));
                assert(le64(bytes@, at + 16) == le64(w, to + 16));
                assert(le64(bytes@, at + 24) == le64(w, to + 24));
                assert(self.lanes@ == fold_stripe64(before, w, to));
                assert((to + 32) / 32 == to / 32 + 1);
            }
            at = at + 32;
        }
        at
    }

    /// The state after `bytes` have been written too.
    fn absorb(self, bytes: &[u8]) -> (st: Self)
        requires
            self.wf(),
        ensures
            st.wf(),
            st.seed == self.seed,
            st.written@ == self.written@ + bytes@,
    {
        let len = bytes.len();
        let ghost w0 = self.written@;
        let ghost w = w0 + bytes@;
        let ghost base = w0.len() as int;
        let mut st = self;
        assert(st.absorbed(w, base)) by {
            reveal(State64::absorbed);
            lemma_lanes64_prefix(w0, w, st.seed, w0.len() / 32);
        }
        let mut pos = st.fill(bytes, 0, Ghost(w), Ghost(base));
        if st.buffered == 32 {
            st.flush(Ghost(w), Ghost(base + pos));
            pos = st.fold(bytes, pos, Ghost(w), Ghost(base));
            pos = st.fill(bytes, pos, Ghost(w), Ghost(base));
        }
        assert(pos == len);
        assert(st.buffered < 32);
        let total = st.total_len.wrapping_add(len as u64);
        proof {
            lemma_wrapping_length(w0.len(), st.total_len, len);
        }
        let ghost fed = st;
        st.large = st.large || len >= 32 || total >= 32;
        st.total_len = total;
        st.written = Ghost(w);
        assert(st.absorbed(w, w.len() as int)) by {
            reveal(State64::absorbed);
            assert(fed.absorbed(w, w.len() as int));
        }
        st
    }
}

/// Streaming state of the 64-bit hash.
///
/// It stands for a seed and the bytes written since it was made or last
/// reset; `finish` gives the hash of exactly those bytes.
pub struct XXH64 {
    state: State64,
}

impl XXH64 {
    #[verifier::type_invariant]
    spec fn inv(self) -> bool {
        self.state.wf()
    }

    /// The seed that the state was made or last reset with.
    pub closed spec fn seed(&self) -> u64 {
        self.state.seed
    }

    /// All bytes written since the state was made or last reset.
    pub closed spec fn written(&self) -> Seq<u8> {
        self.state.written@
    }

    /// The digest that the state stands for: the one-shot hash, under its
    /// seed, of what was written.
    pub open spec fn digest(&self) -> u64 {
        xxh64_spec(self.written(), self.seed())
    }

    /// Creates a state with nothing written.
    pub fn new(seed: u64) -> (hasher: Self)
        ensures
            hasher.seed() == seed,
            hasher.written() == Seq::<u8>::empty(),
    {
        XXH64 { state: State64::new(seed) }
    }

    /// Forgets everything written and takes a new seed.
    pub fn reset(&mut self, seed: u64)
        ensures
            final(self).seed() == seed,
            final(self).written() == Seq::<u8>::empty(),
    {
        self.state = State64::new(seed);
    }

    /// Appends `bytes` to what was written.
    pub fn write(&mut self, bytes: &[u8])
        ensures
            final(self).seed() == old(self).seed(),
            final(self).written() == old(self).written() + bytes@,
    {
        proof {
            use_type_invariant(&*self);
        }
        self.state = self.state.absorb(bytes);
    }

    /// How many bytes were written, modulo 2^64.
    pub fn total_len(&self) -> (len: u64)
        ensures
            len == self.written().len() % 0x1_0000_0000_0000_0000,
    {
        proof {
            use_type_invariant(self);
        }
        self.state.total_len
    }

    /// The hash of everything written so far; the state is left as it is.
    pub fn finish(&self) -> (hash: u64)
        ensures
            hash == self.digest(),
    {
        proof {
            use_type_invariant(self);
        }
        self.state.digest()
    }
}

impl Default for XXH64 {
    fn default() -> (hasher: Self)
        ensures
            hasher.seed() == 0,
            hasher.written() == Seq::<u8>::empty(),
    {
        XXH64::new(0)
    }
}

impl core::hash::Hasher for XXH64 {
    fn finish(&self) -> (hash: u64)
        ensures
            hash == self.digest(),
    {
        XXH64::finish(self)
    }

    fn write(&mut self, bytes: &[u8])
        ensures
            final(self).seed() == old(self).seed(),
            final(self).written() == old(self).written() + bytes@,
    {
        XXH64::write(self, bytes)
    }
}

} // verus!
