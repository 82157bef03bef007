//! The settings of a policy that follows no standard.

use crate::pass::{Algorithm, LengthCalculationMethod, Normalization};
use vstd::prelude::*;

verus! {

/// The normalization of passwords.
pub const DEFAULT_NORMALIZATION: Normalization = Normalization::Nfkc;

/// The least length of a password.
pub const DEFAULT_PASSWORD_MIN_LEN: usize = 8;

/// The greatest length of a password.
pub const DEFAULT_PASSWORD_MAX_LEN: usize = 128;

/// The hashing algorithm.
pub const DEFAULT_ALGORITHM: Algorithm = Algorithm::Argon2;

/// How the length of a password is counted.
pub const DEFAULT_LENGTH_CALCULATION: LengthCalculationMethod =
    LengthCalculationMethod::Characters;

/// The length of a fresh salt, in bytes.
pub const DEFAULT_SALT_LEN: usize = 16;

} // verus!
