//! The settings that follow the NIST Special Publication 800-63B, and the
//! check that a configuration complies with it.

use crate::pass::decimal::{decimal_value, parse_usize};
use crate::pass::params::lookup;
use crate::pass::policy::{PolicyModel};
use crate::pass::{Algorithm, HashBuilder, LengthCalculationMethod, Normalization};
use vstd::prelude::*;

verus! {

/// The least length of a salt, in bytes.
pub const SALT_MIN_LEN: usize = 4;

/// The least value of the least length of a password.
pub const PASS_MIN_MIN_LEN: usize = 8;

/// The least value of the greatest length of a password.
pub const PASS_MIN_MAX_LEN: usize = 64;

/// The least number of iterations of PBKDF2.
pub const PBKDF2_MIN_ITER: usize = 10000;

/// The normalization of passwords.
pub const DEFAULT_NORMALIZATION: Normalization = Normalization::Nfkc;

/// The least length of a password.
pub const DEFAULT_PASSWORD_MIN_LEN: usize = 8;

/// The greatest length of a password.
pub const DEFAULT_PASSWORD_MAX_LEN: usize = 128;

/// The hashing algorithm.
pub const DEFAULT_ALGORITHM: Algorithm = Algorithm::Pbkdf2;

/// How the length of a password is counted.
pub const DEFAULT_LENGTH_CALCULATION: LengthCalculationMethod =
    LengthCalculationMethod::Characters;

/// The length of a fresh salt, in bytes.
pub const DEFAULT_SALT_LEN: usize = 16;

/// Whether the number of iterations that the parameters give, if they give
/// one, is a number and large enough.
pub open spec fn iterations_comply(h: PolicyModel) -> bool {
    match lookup(h.parameters, "iter"@) {
        Some(text) => match decimal_value(text) {
            Some(n) => PBKDF2_MIN_ITER <= n <= usize::MAX,
            None => false,
        },
        None => true,
    }
}

/// Whether a configuration complies with the standard: lengths are counted
/// in characters; passwords are not normalized or are brought into a
/// compatibility form; the algorithm is PBKDF2, with at least 10000
/// iterations; a salt has at least 4 bytes; passwords of 8 characters are
/// the shortest that may be accepted, and passwords of 64 characters must
/// be.
pub open spec fn complies(h: PolicyModel) -> bool {
    &&& h.length_calculation == LengthCalculationMethod::Characters
    &&& (h.normalization == Normalization::Nfkd || h.normalization == Normalization::Nfkc
        || h.normalization == Normalization::NoNormalization)
    &&& h.algorithm == Algorithm::Pbkdf2
    &&& iterations_comply(h)
    &&& h.salt_len >= SALT_MIN_LEN
    &&& h.min_len >= PASS_MIN_MIN_LEN
    &&& h.max_len >= PASS_MIN_MAX_LEN
}

/// Whether the configuration of the builder complies with the standard.
pub fn is_valid(h: &HashBuilder) -> (r: bool)
    ensures
        r == complies(h.policy()),
{
    match h.length_calculation {
        LengthCalculationMethod::Characters => {},
        LengthCalculationMethod::Bytes => {
            return false;
        },
    }
    match h.normalization {
        Normalization::Nfd => {
            return false;
        },
        Normalization::Nfkd => {},
        Normalization::Nfc => {
            return false;
        },
        Normalization::Nfkc => {},
        Normalization::NoNormalization => {},
    }
    match h.algorithm {
        Algorithm::Argon2 => {
            return false;
        },
        Algorithm::Pbkdf2 => {
            match h.parameters.get("iter") {
                Some(si) => match parse_usize(si.as_str()) {
                    Some(i) => {
                        if i < PBKDF2_MIN_ITER {
                            return false;
                        }
                    },
                    None => {
                        return false;
                    },
                },
                None => {},
            }
        },
    }
    if h.salt_len < SALT_MIN_LEN {
        return false;
    }
    if h.min_len < PASS_MIN_MIN_LEN {
        return false;
    }
    if h.max_len < PASS_MIN_MAX_LEN {
        return false;
    }
    true
}

} // verus!
