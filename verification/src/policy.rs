//! Reset policies: how a streaming state of the XXH3 family gets its secret.

use crate::secret::{Keying, SECRET_SIZE_MIN};
use vstd::prelude::*;
use vstd::slice::slice_to_vec;

verus! {

/// A configuration that the library refuses.
#[derive(Debug, Clone, Copy, PartialEq, Eq)]
pub enum ConfigError {
    /// The supplied secret has `len` bytes, fewer than `SECRET_SIZE_MIN`.
    SecretTooShort { len: usize },
}

impl ConfigError {
    /// The length of the secret that was refused.
    pub fn secret_len(&self) -> (len: usize)
        ensures
            *self == (ConfigError::SecretTooShort { len }),
    {
        match self {
            ConfigError::SecretTooShort { len } => *len,
        }
    }

    /// What went wrong, in words.
    pub fn message(&self) -> (text: &'static str)
        ensures
            text@ == "the secret is shorter than the minimum length"@,
    {
        "the secret is shorter than the minimum length"
    }
}

/// The three ways to reset a streaming state.
#[derive(Debug)]
pub enum ResetPolicy {
    /// Use the built-in secret.
    Default,
    /// Derive the secret from a seed.
    Seeded(u64),
    /// Use the given bytes as the secret, as they are.
    SecretBytes(Vec<u8>),
}

impl View for ResetPolicy {
    type V = Keying;

    open spec fn view(&self) -> Keying {
        match self {
            ResetPolicy::Default => Keying::Default,
            ResetPolicy::Seeded(seed) => Keying::Seeded(*seed),
            ResetPolicy::SecretBytes(bytes) => Keying::SecretBytes(bytes@),
        }
    }
}

impl Clone for ResetPolicy {
    fn clone(&self) -> (copy: Self)
        ensures
            copy@ == self@,
    {
        match self {
            ResetPolicy::Default => ResetPolicy::Default,
            ResetPolicy::Seeded(seed) => ResetPolicy::Seeded(*seed),
            ResetPolicy::SecretBytes(bytes) => ResetPolicy::SecretBytes(bytes.clone()),
        }
    }
}

impl ResetPolicy {
    /// Checks the policy: a supplied secret must have at least
    /// `SECRET_SIZE_MIN` bytes.
    pub fn validate(&self) -> (r: Result<(), ConfigError>)
        ensures
            r is Ok <==> self@.valid(),
            r matches Err(e) ==> (self@ matches Keying::SecretBytes(bytes) && e
                == (ConfigError::SecretTooShort { len: bytes.len() as usize })),
    {
        match self {
            ResetPolicy::SecretBytes(bytes) => {
                if bytes.len() < SECRET_SIZE_MIN {
                    Err(ConfigError::SecretTooShort { len: bytes.len() })
                } else {
                    Ok(())
                }
            },
            _ => Ok(()),
        }
    }
}

/// Describes how to reset the state of the XXH3 hash.
///
/// Implemented by `Xxh3DefaultReset` (the built-in secret), by `u64` (a
/// seed), by `&[u8]` (a secret of the caller's) and by `ResetPolicy` itself.
pub trait Xxh3Reset: Sized {
    /// The customisation that this value asks for.
    spec fn keying(&self) -> Keying;

    /// The policy that this value stands for.
    fn policy(self) -> (p: ResetPolicy)
        ensures
            p@ == self.keying(),
    ;
}

/// Default reset policy.
#[derive(Debug, Clone, Copy, Default)]
pub struct Xxh3DefaultReset;

impl Xxh3Reset for Xxh3DefaultReset {
    open spec fn keying(&self) -> Keying {
        Keying::Default
    }

    fn policy(self) -> (p: ResetPolicy) {
        ResetPolicy::Default
    }
}

impl Xxh3Reset for u64 {
    open spec fn keying(&self) -> Keying {
        Keying::Seeded(*self)
    }

    fn policy(self) -> (p: ResetPolicy) {
        ResetPolicy::Seeded(self)
    }
}

impl<'a> Xxh3Reset for &'a [u8] {
    open spec fn keying(&self) -> Keying {
        Keying::SecretBytes(self@)
    }

    fn policy(self) -> (p: ResetPolicy) {
        ResetPolicy::SecretBytes(slice_to_vec(self))
    }
}

impl Xxh3Reset for ResetPolicy {
    open spec fn keying(&self) -> Keying {
        self@
    }

    fn policy(self) -> (p: ResetPolicy) {
        self
    }
}

} // verus!
