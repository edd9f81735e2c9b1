//! The built-in secret and the secret derived from a seed.

use crate::bits::le64;
use vstd::prelude::*;

verus! {

/// Length of the built-in secret, and of every secret derived from a seed.
pub const SECRET_DEFAULT_SIZE: usize = 192;

/// The shortest secret that a caller may supply.
pub const SECRET_SIZE_MIN: usize = 192;

/// The built-in secret.
pub const DEFAULT_SECRET: [u8; 192] = [
    0xb8, 0xfe, 0x6c, 0x39, 0x23, 0xa4, 0x4b, 0xbe, 0x7c, 0x01, 0x81, 0x2c, 0xf7, 0x21, 0xad, 0x1c,
    0xde, 0xd4, 0x6d, 0xe9, 0x83, 0x90, 0x97, 0xdb, 0x72, 0x40, 0xa4, 0xa4, 0xb7, 0xb3, 0x67, 0x1f,
    0xcb, 0x79, 0xe6, 0x4e, 0xcc, 0xc0, 0xe5, 0x78, 0x82, 0x5a, 0xd0, 0x7d, 0xcc, 0xff, 0x72, 0x21,
    0xb8, 0x08, 0x46, 0x74, 0xf7, 0x43, 0x24, 0x8e, 0xe0, 0x35, 0x90, 0xe6, 0x81, 0x3a, 0x26, 0x4c,
    0x3c, 0x28, 0x52, 0xbb, 0x91, 0xc3, 0x00, 0xcb, 0x88, 0xd0, 0x65, 0x8b, 0x1b, 0x53, 0x2e, 0xa3,
    0x71, 0x64, 0x48, 0x97, 0xa2, 0x0d, 0xf9, 0x4e, 0x38, 0x19, 0xef, 0x46, 0xa9, 0xde, 0xac, 0xd8,
    0xa8, 0xfa, 0x76, 0x3f, 0xe3, 0x9c, 0x34, 0x3f, 0xf9, 0xdc, 0xbb, 0xc7, 0xc7, 0x0b, 0x4f, 0x1d,
    0x8a, 0x51, 0xe0, 0x4b, 0xcd, 0xb4, 0x59, 0x31, 0xc8, 0x9f, 0x7e, 0xc9, 0xd9, 0x78, 0x73, 0x64,
    0xea, 0xc5, 0xac, 0x83, 0x34, 0xd3, 0xeb, 0xc3, 0xc5, 0x81, 0xa0, 0xff, 0xfa, 0x13, 0x63, 0xeb,
    0x17, 0x0d, 0xdd, 0x51, 0xb7, 0xf0, 0xda, 0x49, 0xd3, 0x16, 0x55, 0x26, 0x29, 0xd4, 0x68, 0x9e,
    0x2b, 0x16, 0xbe, 0x58, 0x7d, 0x47, 0xa1, 0xfc, 0x8f, 0xf8, 0xb8, 0xd1, 0x7a, 0xd0, 0x31, 0xce,
    0x45, 0xcb, 0x3a, 0x8f, 0x95, 0x16, 0x04, 0x28, 0xaf, 0xd7, 0xfb, 0xca, 0xbb, 0x4b, 0x40, 0x7e,
];

/// The built-in secret as a sequence of bytes.
pub open spec fn default_secret() -> Seq<u8> {
    DEFAULT_SECRET@
}

/// The secret derived from `seed`: the built-in secret with `seed` added to
/// its even 64-bit words and subtracted from its odd ones, modulo 2^64.
pub open spec fn derived_secret(seed: u64) -> Seq<u8> {
    Seq::new(
        192,
        |j: int|
            {
                let word = le64(default_secret(), 8 * (j / 8));
                let keyed = if (j / 8) % 2 == 0 {
                    word.wrapping_add(seed)
                } else {
                    word.wrapping_sub(seed)
                };
                (keyed >> ((8 * (j % 8)) as u64)) as u8
            },
    )
}

/// Byte `k` of a word is the byte that was stored at place `k`.
proof fn lemma_byte_of_word(
    b0: u8,
    b1: u8,
    b2: u8,
    b3: u8,
    b4: u8,
    b5: u8,
    b6: u8,
    b7: u8,
    k: u64,
)
    by (bit_vector)
    requires
        k < 8,
    ensures
        ((((b0 as u64) | ((b1 as u64) << 8) | ((b2 as u64) << 16) | ((b3 as u64) << 24) | ((
        b4 as u64) << 32) | ((b5 as u64) << 40) | ((b6 as u64) << 48) | ((b7 as u64) << 56)) >> (
        8 * k) as u64) as u8) == (if k == 0 {
            b0
        } else if k == 1 {
            b1
        } else if k == 2 {
            b2
        } else if k == 3 {
            b3
        } else if k == 4 {
            b4
        } else if k == 5 {
            b5
        } else if k == 6 {
            b6
        } else {
            b7
        }),
{
}

/// The secret derived from the seed 0 is the built-in secret.
pub proof fn lemma_derived_secret_of_zero()
    ensures
        derived_secret(0) == default_secret(),
{
    let s = default_secret();
    assert(s.len() == 192);
    assert forall|j: int| 0 <= j < 192 implies derived_secret(0)[j] == s[j] by {
        let at = 8 * (j / 8);
        let k = (j % 8) as u64;
        lemma_byte_of_word(
            s[at],
            s[at + 1],
            s[at + 2],
            s[at + 3],
            s[at + 4],
            s[at + 5],
            s[at + 6],
            s[at + 7],
            k,
        );
        assert(le64(s, at).wrapping_add(0) == le64(s, at));
        assert(le64(s, at).wrapping_sub(0) == le64(s, at));
    }
    assert(derived_secret(0) =~= s);
}

/// How a digest of the XXH3 family is customised.
pub enum Keying {
    /// The built-in secret, no seed.
    Default,
    /// A seed: it enters the digest of a short input directly, and that of a
    /// long input through the secret derived from it.
    Seeded(u64),
    /// A secret supplied by the caller, used as it is.
    SecretBytes(Seq<u8>),
}

impl Keying {
    /// The seed that enters the digest of an input of up to 240 bytes.
    pub open spec fn seed(self) -> u64 {
        match self {
            Keying::Seeded(seed) => seed,
            _ => 0,
        }
    }

    /// The secret used for an input of up to 240 bytes.
    pub open spec fn short_secret(self) -> Seq<u8> {
        match self {
            Keying::SecretBytes(bytes) => bytes,
            _ => default_secret(),
        }
    }

    /// The secret used for an input of more than 240 bytes.
    pub open spec fn long_secret(self) -> Seq<u8> {
        match self {
            Keying::Default => default_secret(),
            Keying::Seeded(seed) => derived_secret(seed),
            Keying::SecretBytes(bytes) => bytes,
        }
    }

    /// A supplied secret is long enough; the other two are always valid.
    pub open spec fn valid(self) -> bool {
        match self {
            Keying::SecretBytes(bytes) => bytes.len() >= SECRET_SIZE_MIN,
            _ => true,
        }
    }
}

} // verus!
