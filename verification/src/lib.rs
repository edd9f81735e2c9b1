//! Fast non-cryptographic hashing: the 32-bit and 64-bit xxHash functions and
//! the XXH3 family, one-shot and streaming.
//!
//! Every digest is specified by a function over `Seq<u8>`; the executable
//! code is proved to compute exactly that function, and the streaming states
//! are proved to give the digest of everything written so far, however the
//! input was cut into chunks.
//!
//! - `xxh32`, `xxh64`, `xxh3_64` and `xxh3_128` hash a whole buffer.
//! - `XXH64` and `XXH3_64` take their input piece by piece; `finish` may be
//!   called at any point and any number of times.
//! - A state of the XXH3 hash is customised by a `ResetPolicy`: the built-in
//!   secret, a seed, or a secret of at least `SECRET_SIZE_MIN` bytes.
//! - The module `laws` states what holds across calls.
//!
//! No public function of this library panics, and no executable one needs a
//! precondition.

pub mod bits;
pub mod laws;
pub mod policy;
pub mod secret;
pub mod xxh3;
pub mod xxh32;
pub mod xxh3_128;
pub mod xxh3_long;
pub mod xxh3_short;
pub mod xxh3_spec;
pub mod xxh3_stream;
pub mod xxh64;
pub mod xxh64_stream;

pub use crate::policy::{ConfigError, ResetPolicy, Xxh3DefaultReset, Xxh3Reset};
pub use crate::secret::{Keying, SECRET_DEFAULT_SIZE, SECRET_SIZE_MIN};
pub use crate::xxh3::{xxh3_64, xxh3_64_with_secret, xxh3_64_with_seed};
pub use crate::xxh32::xxh32;
pub use crate::xxh3_128::{xxh3_128, xxh3_128_with_secret, xxh3_128_with_seed, Hash128};
pub use crate::xxh3_stream::XXH3_64;
pub use crate::xxh64::xxh64;
pub use crate::xxh64_stream::XXH64;
