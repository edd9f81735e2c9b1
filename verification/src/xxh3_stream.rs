//! The streaming form of the 64-bit XXH3 hash.

use crate::bits::lemma_wrapping_length;
use crate::policy::{ConfigError, ResetPolicy, Xxh3Reset};
use crate::secret::{Keying, DEFAULT_SECRET, SECRET_SIZE_MIN};
use crate::xxh3::derive_secret;
use crate::xxh3_long::{
    accumulate_stripe, consume_stripe, initial_acc, lemma_accumulate_same_bytes, merge,
};
use crate::xxh3_short::{short, SHORT_SECRET_LEN};
use crate::xxh3_spec::{
    acc_after, hash_long, hash_short, len64, stripes_per_block, xxh3_64_spec,
};
use crate::xxh64::PRIME64_1;
use vstd::prelude::*;
use vstd::slice::slice_subrange;

verus! {

/// The accumulators after `n` stripes depend on the first `64 * n` bytes
/// only.
pub proof fn lemma_acc_prefix(a: Seq<u8>, b: Seq<u8>, secret: Seq<u8>, n: nat)
    requires
        64 * n <= a.len(),
        64 * n <= b.len(),
        forall|i: int| 0 <= i < 64 * n ==> #[trigger] a[i] == b[i],
    ensures
        acc_after(a, secret, n) == acc_after(b, secret, n),
    decreases n,
{
    if n > 0 {
        let j = (n - 1) as nat;
        lemma_acc_prefix(a, b, secret, j);
        let sat = 8 * (j as int % stripes_per_block(secret));
        lemma_accumulate_same_bytes(
            acc_after(a, secret, j),
            a,
            64 * (j as int),
            b,
            64 * (j as int),
            secret,
            sat,
            secret,
            sat,
        );
    }
}

/// What a streaming state holds besides its secret: the accumulators, up to
/// 256 bytes that are not folded yet, and the length so far.
#[derive(Clone, Copy)]
struct State3 {
    acc: [u64; 8],
    buffer: [u8; 256],
    buffered: usize,
    so_far: usize,
    total_len: u64,
    folded: bool,
    written: Ghost<Seq<u8>>,
}

impl State3 {
    /// Number of stripes folded once the first `m` bytes are taken in.
    spec fn stripes(&self, m: int) -> int {
        (m - self.buffered) / 64
    }

    /// The first `m` bytes of `w` are taken in: all but the last `buffered`
    /// are folded into the accumulators, and those stand in the buffer.
    #[verifier::opaque]
    spec fn taken(&self, w: Seq<u8>, m: int, secret: Seq<u8>) -> bool {
        &&& self.buffered <= 256
        &&& self.buffered <= m <= w.len()
        &&& (m - self.buffered) % 64 == 0
        &&& self.acc@ == acc_after(w, secret, self.stripes(m) as nat)
        &&& self.so_far == self.stripes(m) % stripes_per_block(secret)
        &&& self.folded == (self.stripes(m) > 0)
        &&& forall|i: int|
            0 <= i < self.buffered ==> #[trigger] self.buffer[i] == w[m - self.buffered + i]
    }

    /// While fewer than 64 bytes are buffered after a fold, the end of the
    /// buffer still holds the bytes that came just before them.
    #[verifier::opaque]
    spec fn window(&self, w: Seq<u8>, m: int) -> bool {
        self.folded && self.buffered < 64 ==> forall|j: int|
            192 + self.buffered <= j < 256 ==> #[trigger] self.buffer[j] == w[m - self.buffered
                - 256 + j]
    }

    spec fn wf(&self, secret: Seq<u8>) -> bool {
        &&& secret.len() >= SHORT_SECRET_LEN
        &&& self.taken(self.written@, self.written@.len() as int, secret)
        &&& self.window(self.written@, self.written@.len() as int)
        &&& self.folded ==> self.buffered >= 1 && self.written@.len() > 256
        &&& self.total_len == len64(self.written@)
    }

    fn new() -> (st: Self)
        ensures
            st.written@ == Seq::<u8>::empty(),
            forall|secret: Seq<u8>| secret.len() >= SHORT_SECRET_LEN ==> #[trigger] st.wf(secret),
    {
        reveal(State3::taken);
        reveal(State3::window);
        State3 {
            acc: initial_acc(),
            buffer: [0u8; 256],
            buffered: 0,
            so_far: 0,
            total_len: 0,
            folded: false,
            written: Ghost(Seq::empty()),
        }
    }

    /// Moves `bytes[pos..end]` into the buffer.
    fn append(
        &mut self,
        bytes: &[u8],
        pos: usize,
        end: usize,
        Ghost(w): Ghost<Seq<u8>>,
        Ghost(base): Ghost<int>,
        Ghost(secret): Ghost<Seq<u8>>,
    )
        requires
            pos <= end <= bytes.len(),
            old(self).buffered + (end - pos) <= 256,
            old(self).taken(w, base + pos, secret),
            old(self).window(w, base + pos),
            base >= 0,
            w.len() == base + bytes.len(),
            forall|i: int| 0 <= i < bytes.len() ==> #[trigger] bytes@[i] == w[base + i],
        ensures
            final(self).taken(w, base + end, secret),
            final(self).window(w, base + end),
            final(self).buffered == old(self).buffered + (end - pos),
            final(self).folded == old(self).folded,
            final(self).total_len == old(self).total_len,
            final(self).written == old(self).written,
    {
        reveal(State3::taken);
        reveal(State3::window);
        let mut at = pos;
        while at < end
            invariant
                pos <= at <= end <= bytes.len(),
                old(self).buffered + (end - pos) <= 256,
                base >= 0,
                w.len() == base + bytes.len(),
                forall|i: int| 0 <= i < bytes.len() ==> #[trigger] bytes@[i] == w[base + i],
                self.taken(w, base + at, secret),
                self.window(w, base + at),
                self.buffered == old(self).buffered + (at - pos),
                self.total_len == old(self).total_len,
                self.written == old(self).written,
            decreases end - at,
        {
            proof {
                reveal(State3::taken);
                reveal(State3::window);
            }
            self.buffer[self.buffered] = bytes[at];
            self.buffered = self.buffered + 1;
            at = at + 1;
        }
    }

    /// Folds the full buffer, four stripes, into the accumulators and empties
    /// it.
    fn flush(&mut self, secret: &[u8], Ghost(w): Ghost<Seq<u8>>, Ghost(m): Ghost<int>)
        requires
            secret.len() >= SHORT_SECRET_LEN,
            old(self).buffered == 256,
            old(self).taken(w, m, secret@),
        ensures
            m >= 256,
            final(self).taken(w, m, secret@),
            final(self).window(w, m),
            final(self).buffered == 0,
            final(self).folded,
            final(self).total_len == old(self).total_len,
            final(self).written == old(self).written,
    {
        reveal(State3::taken);
        reveal(State3::window);
        let ghost first = old(self).stripes(m);
        let mut i: usize = 0;
        while i < 4
            invariant
                i <= 4,
                secret.len() >= SHORT_SECRET_LEN,
                first == (m - 256) / 64,
                (m - 256) % 64 == 0,
                256 <= m <= w.len(),
                self.acc@ == acc_after(w, secret@, (first + i) as nat),
                self.so_far == (first + i) % stripes_per_block(secret@),
                self.buffer == old(self).buffer,
                forall|j: int| 0 <= j < 256 ==> #[trigger] self.buffer[j] == w[m - 256 + j],
                self.buffered == 256,
                self.total_len == old(self).total_len,
                self.written == old(self).written,
            decreases 4 - i,
        {
            consume_stripe(
                &mut self.acc,
                &mut self.so_far,
                self.buffer.as_slice(),
                64 * i,
                secret,
                Ghost(w),
                Ghost((first + i) as nat),
            );
            i = i + 1;
        }
        self.buffered = 0;
        self.folded = true;
    }

    /// Folds the `n` stripes of `bytes` that start at `pos` into the
    /// accumulators, and keeps a copy of the last of them at the end of the
    /// buffer.
    fn fold_direct(
        &mut self,
        bytes: &[u8],
        pos: usize,
        n: usize,
        secret: &[u8],
        Ghost(w): Ghost<Seq<u8>>,
        Ghost(base): Ghost<int>,
    )
        requires
            secret.len() >= SHORT_SECRET_LEN,
            n >= 1,
            pos + 64 * n <= bytes.len(),
            old(self).buffered == 0,
            old(self).taken(w, base + pos, secret@),
            base >= 0,
            w.len() == base + bytes.len(),
            forall|i: int| 0 <= i < bytes.len() ==> #[trigger] bytes@[i] == w[base + i],
        ensures
            final(self).taken(w, base + pos + 64 * n, secret@),
            final(self).window(w, base + pos + 64 * n),
            final(self).buffered == 0,
            final(self).folded,
            final(self).total_len == old(self).total_len,
            final(self).written == old(self).written,
    {
        reveal(State3::taken);
        reveal(State3::window);
        let ghost first = old(self).stripes(base + pos);
        let mut i: usize = 0;
        while i < n
            invariant
                i <= n,
                secret.len() >= SHORT_SECRET_LEN,
                pos + 64 * n <= bytes.len(),
                base >= 0,
                first == (base + pos) / 64,
                (base + pos) % 64 == 0,
                w.len() == base + bytes.len(),
                forall|i: int| 0 <= i < bytes.len() ==> #[trigger] bytes@[i] == w[base + i],
                self.acc@ == acc_after(w, secret@, (first + i) as nat),
                self.so_far == (first + i) % stripes_per_block(secret@),
                self.buffered == 0,
                self.total_len == old(self).total_len,
                self.written == old(self).written,
            decreases n - i,
        {
            consume_stripe(
                &mut self.acc,
                &mut self.so_far,
                bytes,
                pos + 64 * i,
                secret,
                Ghost(w),
                Ghost((first + i) as nat),
            );
            i = i + 1;
        }
        self.folded = true;
        let from = pos + 64 * n - 64;
        let mut j: usize = 0;
        while j < 64
            invariant
                j <= 64,
                from + 64 <= bytes.len(),
                forall|i: int| 0 <= i < j ==> #[trigger] self.buffer[192 + i] == bytes@[from + i],
                self.acc@ == acc_after(w, secret@, (first + n) as nat),
                self.so_far == (first + n) % stripes_per_block(secret@),
                self.buffered == 0,
                self.folded,
                self.total_len == old(self).total_len,
                self.written == old(self).written,
            decreases 64 - j,
        {
            self.buffer[192 + j] = bytes[from + j];
            j = j + 1;
        }
        proof {
            let m = base + pos + 64 * n;
            assert forall|q: int| 192 <= q < 256 implies #[trigger] self.buffer[q] == w[m - 256
                + q] by {
                assert(self.buffer[192 + (q - 192)] == bytes@[from + (q - 192)]);
            }
        }
    }

    /// The state after `bytes` have been written too. `secret` is the secret
    /// for long inputs.
    fn absorb(self, bytes: &[u8], secret: &[u8]) -> (st: Self)
        requires
            self.wf(secret@),
        ensures
            st.wf(secret@),
            st.written@ == self.written@ + bytes@,
    {
        let len = bytes.len();
        let ghost w0 = self.written@;
        let ghost w = w0 + bytes@;
        let ghost base = w0.len() as int;
        let mut st = self;
        assert(st.taken(w, base, secret@) && st.window(w, base)) by {
            reveal(State3::taken);
            reveal(State3::window);
            lemma_acc_prefix(w0, w, secret@, st.stripes(base) as nat);
        }
        assert(st.buffered <= 256) by {
            reveal(State3::taken);
        }
        if len <= 256 - st.buffered {
            st.append(bytes, 0, len, Ghost(w), Ghost(base), Ghost(secret@));
        } else {
            let mut pos: usize = 0;
            if st.buffered > 0 {
                pos = 256 - st.buffered;
                st.append(bytes, 0, pos, Ghost(w), Ghost(base), Ghost(secret@));
                st.flush(secret, Ghost(w), Ghost(base + pos));
            }
            if len - pos > 256 {
                let n = (len - pos - 1) / 64;
                st.fold_direct(bytes, pos, n, secret, Ghost(w), Ghost(base));
                pos = pos + 64 * n;
            }
            st.append(bytes, pos, len, Ghost(w), Ghost(base), Ghost(secret@));
        }
        let total = st.total_len.wrapping_add(len as u64);
        proof {
            lemma_wrapping_length(w0.len(), st.total_len, len);
        }
        let ghost fed = st;
        st.total_len = total;
        st.written = Ghost(w);
        assert(st.wf(secret@)) by {
            reveal(State3::taken);
            reveal(State3::window);
            assert(fed.taken(w, w.len() as int, secret@));
            assert(fed.window(w, w.len() as int));
        }
        st
    }

    /// The digest of what was written, when that is more than 240 bytes.
    fn digest_long(&self, secret: &[u8]) -> (hash: u64)
        requires
            self.wf(secret@),
            self.written@.len() > 240,
        ensures
            hash == hash_long(self.written@, secret@),
    {
        reveal(State3::taken);
        reveal(State3::window);
        let ghost w = self.written@;
        let ghost first = self.stripes(w.len() as int);
        let mut acc = self.acc;
        let mut so_far = self.so_far;
        let extra = (self.buffered - 1) / 64;
        let mut i: usize = 0;
        while i < extra
            invariant
                i <= extra,
                extra == (self.buffered - 1) / 64,
                1 <= self.buffered <= 256,
                secret.len() >= SHORT_SECRET_LEN,
                first == (w.len() - self.buffered) / 64,
                (w.len() - self.buffered) % 64 == 0,
                self.buffered <= w.len(),
                forall|j: int|
                    0 <= j < self.buffered ==> #[trigger] self.buffer[j] == w[w.len()
                        - self.buffered + j],
                acc@ == acc_after(w, secret@, (first + i) as nat),
                so_far == (first + i) % stripes_per_block(secret@),
            decreases extra - i,
        {
            consume_stripe(
                &mut acc,
                &mut so_far,
                self.buffer.as_slice(),
                64 * i,
                secret,
                Ghost(w),
                Ghost((first + i) as nat),
            );
            i = i + 1;
        }
        assert(first + extra == (w.len() - 1) / 64);
        let ghost folded = acc@;
        let sat = secret.len() - 71;
        if self.buffered >= 64 {
            let at = self.buffered - 64;
            proof {
                lemma_accumulate_same_bytes(
                    folded,
                    self.buffer@,
                    at as int,
                    w,
                    w.len() - 64,
                    secret@,
                    sat as int,
                    secret@,
                    sat as int,
                );
            }
            accumulate_stripe(&mut acc, self.buffer.as_slice(), at, secret, sat);
        } else {
            let last = self.last_stripe();
            proof {
                lemma_accumulate_same_bytes(
                    folded,
                    last@,
                    0,
                    w,
                    w.len() - 64,
                    secret@,
                    sat as int,
                    secret@,
                    sat as int,
                );
            }
            accumulate_stripe(&mut acc, last.as_slice(), 0, secret, sat);
        }
        merge(&acc, secret, 11, self.total_len.wrapping_mul(PRIME64_1))
    }

    /// The last 64 bytes written, while fewer than 64 of them are buffered:
    /// the end of the buffer, then its beginning.
    fn last_stripe(&self) -> (last: [u8; 64])
        requires
            self.buffered < 64,
            self.folded,
            64 <= self.written@.len(),
            forall|j: int|
                0 <= j < self.buffered ==> #[trigger] self.buffer[j]
                    == self.written@[self.written@.len() - self.buffered + j],
            self.window(self.written@, self.written@.len() as int),
        ensures
            forall|j: int|
                0 <= j < 64 ==> #[trigger] last@[j] == self.written@[self.written@.len() - 64
                    + j],
    {
        reveal(State3::window);
        let ghost w = self.written@;
        let gap = 64 - self.buffered;
        let mut last = [0u8; 64];
        let mut i: usize = 0;
        while i < gap
            invariant
                i <= gap,
                gap == 64 - self.buffered,
                self.buffered < 64,
                forall|j: int| 0 <= j < i ==> #[trigger] last@[j] == self.buffer[256 - gap + j],
            decreases gap - i,
        {
            last[i] = self.buffer[256 - gap + i];
            i = i + 1;
        }
        let mut i: usize = 0;
        while i < self.buffered
            invariant
                i <= self.buffered,
                gap == 64 - self.buffered,
                self.buffered < 64,
                forall|j: int| 0 <= j < gap ==> #[trigger] last@[j] == self.buffer[256 - gap + j],
                forall|j: int| 0 <= j < i ==> #[trigger] last@[gap + j] == self.buffer[j],
            decreases self.buffered - i,
        {
            last[gap + i] = self.buffer[i];
            i = i + 1;
        }
        proof {
            assert forall|j: int| 0 <= j < 64 implies #[trigger] last@[j] == w[w.len() - 64
                + j] by {
                if j < gap {
                    assert(last@[j] == self.buffer[256 - gap + j]);
                } else {
                    assert(last@[gap + (j - gap)] == self.buffer[j - gap]);
                }
            }
        }
        last
    }

    /// The digest of what was written: `short_secret` and `seed` count for
    /// up to 240 bytes, `long_secret` for more.
    fn digest(&self, short_secret: &[u8], long_secret: &[u8], seed: u64) -> (hash: u64)
        requires
            self.wf(long_secret@),
            short_secret.len() >= SHORT_SECRET_LEN,
        ensures
            hash == if self.written@.len() <= 240 {
                hash_short(self.written@, short_secret@, seed)
            } else {
                hash_long(self.written@, long_secret@)
            },
    {
        assert(self.buffered <= 256 && (!self.folded ==> self.buffered == self.written@.len()))
            by {
            reveal(State3::taken);
        }
        if self.folded || self.buffered > 240 {
            self.digest_long(long_secret)
        } else {
            let data = slice_subrange(self.buffer.as_slice(), 0, self.buffered);
            assert(data@ =~= self.written@) by {
                reveal(State3::taken);
            }
            short(data, short_secret, seed)
        }
    }
}

/// Streaming state of the 64-bit XXH3 hash.
///
/// It stands for a customisation, chosen when it is made or reset, and the
/// bytes written since; `finish` gives the hash of exactly those bytes.
///
/// The state is several hundred bytes large: `new_boxed` puts it on the heap.
#[allow(non_camel_case_types)]
pub struct XXH3_64 {
    state: State3,
    custom_secret: [u8; 192],
    ext_secret: Option<Vec<u8>>,
    seed: u64,
    keying: Ghost<Keying>,
}

impl XXH3_64 {
    #[verifier::type_invariant]
    spec fn inv(self) -> bool {
        &&& self.keying@.valid()
        &&& self.seed == self.keying@.seed()
        &&& match self.ext_secret {
            Some(bytes) => self.keying@ == Keying::SecretBytes(bytes@),
            None => !(self.keying@ is SecretBytes) && self.custom_secret@
                == self.keying@.long_secret(),
        }
        &&& self.state.wf(self.keying@.long_secret())
    }

    /// The customisation that the state was made or last reset with.
    pub closed spec fn keying(&self) -> Keying {
        self.keying@
    }

    /// All bytes written since the state was made or last reset.
    pub closed spec fn written(&self) -> Seq<u8> {
        self.state.written@
    }

    /// The digest that the state stands for: the one-shot hash, under its
    /// customisation, of what was written.
    pub open spec fn digest(&self) -> u64 {
        xxh3_64_spec(self.written(), self.keying())
    }

    /// Creates a state with the built-in secret and nothing written.
    pub fn new() -> (hasher: Self)
        ensures
            hasher.keying() == Keying::Default,
            hasher.written() == Seq::<u8>::empty(),
    {
        XXH3_64 {
            state: State3::new(),
            custom_secret: DEFAULT_SECRET,
            ext_secret: None,
            seed: 0,
            keying: Ghost(Keying::Default),
        }
    }

    /// Like `new`, with the state on the heap.
    pub fn new_boxed() -> (hasher: Box<Self>)
        ensures
            hasher.keying() == Keying::Default,
            hasher.written() == Seq::<u8>::empty(),
    {
        Box::new(XXH3_64::new())
    }

    /// Creates a state for the given policy, with nothing written. A secret
    /// of fewer than `SECRET_SIZE_MIN` bytes is refused.
    pub fn with_policy<R: Xxh3Reset>(policy: R) -> (r: Result<Self, ConfigError>)
        ensures
            r is Ok <==> policy.keying().valid(),
            r matches Ok(hasher) ==> hasher.keying() == policy.keying() && hasher.written()
                == Seq::<u8>::empty(),
            r matches Err(e) ==> (policy.keying() matches Keying::SecretBytes(bytes) && e
                == (ConfigError::SecretTooShort { len: bytes.len() as usize })),
    {
        match policy.policy() {
            ResetPolicy::Default => Ok(XXH3_64::new()),
            ResetPolicy::Seeded(seed) => Ok(
                XXH3_64 {
                    state: State3::new(),
                    custom_secret: derive_secret(seed),
                    ext_secret: None,
                    seed,
                    keying: Ghost(Keying::Seeded(seed)),
                },
            ),
            ResetPolicy::SecretBytes(bytes) => {
                if bytes.len() < SECRET_SIZE_MIN {
                    Err(ConfigError::SecretTooShort { len: bytes.len() })
                } else {
                    let ghost keying = Keying::SecretBytes(bytes@);
                    Ok(
                        XXH3_64 {
                            state: State3::new(),
                            custom_secret: DEFAULT_SECRET,
                            ext_secret: Some(bytes),
                            seed: 0,
                            keying: Ghost(keying),
                        },
                    )
                }
            },
        }
    }

    /// Resets the state according to the given policy: everything written is
    /// forgotten. A secret of fewer than `SECRET_SIZE_MIN` bytes is refused,
    /// and the state stays as it was.
    pub fn reset<R: Xxh3Reset>(&mut self, reset: R) -> (r: Result<(), ConfigError>)
        ensures
            r is Ok <==> reset.keying().valid(),
            r is Ok ==> final(self).keying() == reset.keying() && final(self).written()
                == Seq::<u8>::empty(),
            r matches Err(e) ==> (reset.keying() matches Keying::SecretBytes(bytes) && e
                == (ConfigError::SecretTooShort { len: bytes.len() as usize })) && *final(self)
                == *old(self),
    {
        match XXH3_64::with_policy(reset) {
            Ok(fresh) => {
                *self = fresh;
                Ok(())
            },
            Err(e) => Err(e),
        }
    }

    /// Appends `bytes` to what was written.
    pub fn write(&mut self, bytes: &[u8])
        ensures
            final(self).keying() == old(self).keying(),
            final(self).written() == old(self).written() + bytes@,
    {
        proof {
            use_type_invariant(&*self);
        }
        let state = match &self.ext_secret {
            Some(secret) => self.state.absorb(bytes, secret.as_slice()),
            None => self.state.absorb(bytes, self.custom_secret.as_slice()),
        };
        self.state = state;
    }

    /// How many bytes were written, modulo 2^64.
    pub fn total_len(&self) -> (len: u64)
        ensures
            len == self.written().len() % 0x1_0000_0000_0000_0000,
    {
        proof {
            use_type_invariant(self);
        }
        self.state.total_len
    }

    /// The hash of everything written so far; the state is left as it is.
    pub fn finish(&self) -> (hash: u64)
        ensures
            hash == self.digest(),
    {
        proof {
            use_type_invariant(self);
        }
        match &self.ext_secret {
            Some(secret) => self.state.digest(secret.as_slice(), secret.as_slice(), 0),
            None => self.state.digest(
                DEFAULT_SECRET.as_slice(),
                self.custom_secret.as_slice(),
                self.seed,
            ),
        }
    }
}

impl Default for XXH3_64 {
    fn default() -> (hasher: Self)
        ensures
            hasher.keying() == Keying::Default,
            hasher.written() == Seq::<u8>::empty(),
    {
        XXH3_64::new()
    }
}

impl core::hash::Hasher for XXH3_64 {
    fn finish(&self) -> (hash: u64)
        ensures
            hash == self.digest(),
    {
        XXH3_64::finish(self)
    }

    fn write(&mut self, bytes: &[u8])
        ensures
            final(self).keying() == old(self).keying(),
            final(self).written() == old(self).written() + bytes@,
    {
        XXH3_64::write(self, bytes)
    }
}

} // verus!
