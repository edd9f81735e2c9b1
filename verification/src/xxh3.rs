//! One-shot functions of the XXH3 family with 64 bits of output.

use crate::bits::{le64, read_le64};
use crate::policy::ConfigError;
use crate::secret::{default_secret, derived_secret, Keying, DEFAULT_SECRET, SECRET_SIZE_MIN};
use crate::xxh3_long::long;
use crate::xxh3_short::short;
use crate::xxh3_spec::xxh3_64_spec;
use vstd::prelude::*;

verus! {

/// The secret derived from `seed`.
pub(crate) fn derive_secret(seed: u64) -> (secret: [u8; 192])
    ensures
        secret@ == derived_secret(seed),
{
    let mut secret = [0u8; 192];
    let mut word: usize = 0;
    while word < 24
        invariant
            word <= 24,
            forall|j: int| 0 <= j < 8 * word ==> #[trigger] secret@[j] == derived_secret(seed)[j],
        decreases 24 - word,
    {
        let plain = read_le64(DEFAULT_SECRET.as_slice(), 8 * word);
        let keyed = if word % 2 == 0 {
            plain.wrapping_add(seed)
        } else {
            plain.wrapping_sub(seed)
        };
        let mut byte: usize = 0;
        while byte < 8
            invariant
                word < 24,
                byte <= 8,
                plain == le64(default_secret(), 8 * word),
                keyed == if word % 2 == 0 {
                    plain.wrapping_add(seed)
                } else {
                    plain.wrapping_sub(seed)
                },
                forall|j: int|
                    0 <= j < 8 * word + byte ==> #[trigger] secret@[j] == derived_secret(seed)[j],
            decreases 8 - byte,
        {
            secret[8 * word + byte] = #[verifier::truncate]
            ((keyed >> (8 * byte) as u64) as u8);
            byte = byte + 1;
        }
        word = word + 1;
    }
    assert(secret@ =~= derived_secret(seed));
    secret
}

/// Calculates the 64-bit XXH3 hash of `input` with the built-in secret.
pub fn xxh3_64(input: &[u8]) -> (hash: u64)
    ensures
        hash == xxh3_64_spec(input@, Keying::Default),
{
    if input.len() <= 240 {
        short(input, DEFAULT_SECRET.as_slice(), 0)
    } else {
        long(input, DEFAULT_SECRET.as_slice())
    }
}

/// Calculates the 64-bit XXH3 hash of `input` under `seed`.
pub fn xxh3_64_with_seed(input: &[u8], seed: u64) -> (hash: u64)
    ensures
        hash == xxh3_64_spec(input@, Keying::Seeded(seed)),
{
    if input.len() <= 240 {
        short(input, DEFAULT_SECRET.as_slice(), seed)
    } else {
        let secret = derive_secret(seed);
        long(input, secret.as_slice())
    }
}

/// Calculates the 64-bit XXH3 hash of `input` under a secret of the caller's,
/// which must have at least `SECRET_SIZE_MIN` bytes.
pub fn xxh3_64_with_secret(input: &[u8], secret: &[u8]) -> (r: Result<u64, ConfigError>)
    ensures
        secret.len() >= SECRET_SIZE_MIN ==> r == Ok::<u64, ConfigError>(
            xxh3_64_spec(input@, Keying::SecretBytes(secret@)),
        ),
        secret.len() < SECRET_SIZE_MIN ==> r == Err::<u64, ConfigError>(
            ConfigError::SecretTooShort { len: secret.len() },
        ),
{
    if secret.len() < SECRET_SIZE_MIN {
        Err(ConfigError::SecretTooShort { len: secret.len() })
    } else if input.len() <= 240 {
        Ok(short(input, secret, 0))
    } else {
        Ok(long(input, secret))
    }
}

} // verus!
