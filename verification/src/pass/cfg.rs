//! A policy as a plain record of numbers and choices, for callers that
//! cannot hold a builder, such as bindings to other languages.

use crate::otp::write_code;
use crate::pass::policy::{
    counted_len, default_policy, hashed_text, policy_from_text, ready, valid_with, PolicyModel,
};
use crate::pass::{
    std_default, std_nist, Algorithm, ErrorCode, HashBuilder, LengthCalculationMethod,
    Normalization, PasswordStorageStandard, DEFAULT_USER_VERSION, INTERNAL_VERSION,
};
use vstd::prelude::*;
use vstd::string::*;
use vstd::utf8::*;

verus! {

/// Password hasher configuration storage.
#[derive(Clone, Copy, Debug, PartialEq, Eq)]
pub struct PassCfg {
    pub min_len: usize,
    pub max_len: usize,
    pub salt_len: usize,
    pub algorithm: Algorithm,
    pub length_calculation: LengthCalculationMethod,
    pub normalization: Normalization,
    pub standard: PasswordStorageStandard,
    pub version: usize,
}

/// The configuration that stands for a policy: its numbers and choices,
/// no standard, and the user's part of its version.
pub open spec fn cfg_of_policy(h: PolicyModel) -> PassCfg {
    PassCfg {
        min_len: h.min_len,
        max_len: h.max_len,
        salt_len: h.salt_len,
        algorithm: h.algorithm,
        length_calculation: h.length_calculation,
        normalization: h.normalization,
        standard: PasswordStorageStandard::NoStandard,
        version: if h.version >= INTERNAL_VERSION {
            (h.version - INTERNAL_VERSION) as usize
        } else {
            h.version
        },
    }
}

/// The policy that a configuration hashes under: its numbers and choices,
/// no parameters, no references, and its version plus the library's own.
pub open spec fn policy_of_cfg(c: PassCfg) -> PolicyModel {
    PolicyModel {
        normalization: c.normalization,
        min_len: c.min_len,
        max_len: c.max_len,
        algorithm: c.algorithm,
        parameters: Seq::empty(),
        ref_salt: None,
        ref_hash: None,
        salt_len: c.salt_len,
        length_calculation: c.length_calculation,
        version: (c.version + INTERNAL_VERSION) as usize,
    }
}

/// What storing the outcome of hashing in a buffer gives: the error of
/// hashing, or the error that there is not enough space, with the buffer
/// as it was; or success, with the bytes of the text at the front of the
/// buffer, a zero byte behind them, and the rest of the buffer as it was.
pub open spec fn stored(
    outcome: Result<Seq<char>, ErrorCode>,
    before: Seq<u8>,
    after: Seq<u8>,
    r: ErrorCode,
) -> bool {
    match outcome {
        Err(e) => r == e && after == before,
        Ok(text) => {
            let bytes = encode_utf8(text);
            if bytes.len() >= before.len() {
                r == ErrorCode::NotEnoughSpace && after == before
            } else {
                &&& r == ErrorCode::Success
                &&& after.len() == before.len()
                &&& after.subrange(0, bytes.len() as int) == bytes
                &&& after[bytes.len() as int] == 0u8
                &&& forall|j: int| bytes.len() < j < before.len() ==> after[j] == before[j]
            }
        },
    }
}

impl PassCfg {
    /// The default configuration.
    pub fn init() -> (c: PassCfg)
        ensures
            c == (PassCfg {
                version: DEFAULT_USER_VERSION,
                ..cfg_of_policy(default_policy(PasswordStorageStandard::NoStandard))
            }),
    {
        PassCfg::init_std(PasswordStorageStandard::NoStandard)
    }

    /// The default configuration for a given standard.
    pub fn init_std(std: PasswordStorageStandard) -> (c: PassCfg)
        ensures
            c == (PassCfg {
                standard: std,
                version: DEFAULT_USER_VERSION,
                ..cfg_of_policy(default_policy(std))
            }),
    {
        match std {
            PasswordStorageStandard::NoStandard => PassCfg {
                min_len: std_default::DEFAULT_PASSWORD_MIN_LEN,
                max_len: std_default::DEFAULT_PASSWORD_MAX_LEN,
                salt_len: std_default::DEFAULT_SALT_LEN,
                algorithm: std_default::DEFAULT_ALGORITHM,
                length_calculation: std_default::DEFAULT_LENGTH_CALCULATION,
                normalization: std_default::DEFAULT_NORMALIZATION,
                standard: std,
                version: DEFAULT_USER_VERSION,
            },
            PasswordStorageStandard::Nist80063b => PassCfg {
                min_len: std_nist::DEFAULT_PASSWORD_MIN_LEN,
                max_len: std_nist::DEFAULT_PASSWORD_MAX_LEN,
                salt_len: std_nist::DEFAULT_SALT_LEN,
                algorithm: std_nist::DEFAULT_ALGORITHM,
                length_calculation: std_nist::DEFAULT_LENGTH_CALCULATION,
                normalization: std_nist::DEFAULT_NORMALIZATION,
                standard: std,
                version: DEFAULT_USER_VERSION,
            },
        }
    }

    /// The configuration of the policy that a record describes.
    pub fn from_phc(phc: &str) -> (r: Result<PassCfg, ErrorCode>)
        requires
            encode_utf8(phc@).len() * 4 <= usize::MAX,
        ensures
            r is Ok <==> policy_from_text(phc@) is Some,
            r is Ok ==> r->Ok_0 == cfg_of_policy(policy_from_text(phc@)->0),
            r is Err ==> r->Err_0 == ErrorCode::InvalidPasswordFormat,
    {
        let checker = match HashBuilder::from_phc(phc) {
            Ok(ch) => ch,
            Err(e) => {
                return Err(e);
            },
        };
        Ok(
            PassCfg {
                min_len: checker.min_len(),
                max_len: checker.max_len(),
                salt_len: checker.salt_len(),
                algorithm: checker.algorithm(),
                length_calculation: checker.length_calculation(),
                normalization: checker.normalization(),
                standard: PasswordStorageStandard::NoStandard,
                version: if checker.version() >= INTERNAL_VERSION {
                    checker.version() - INTERNAL_VERSION
                } else {
                    checker.version()
                },
            },
        )
    }

    /// Hashes a password under the configuration and stores the text of
    /// the record in `dest`, followed by a zero byte.
    ///
    /// Where hashing fails, its error is returned. Where the text and the
    /// zero byte do not fit, there is not enough space. In both cases
    /// `dest` keeps its bytes.
    pub fn hash(&self, pass: &str, dest: &mut [u8]) -> (r: ErrorCode)
        requires
            self.version + INTERNAL_VERSION <= usize::MAX,
        ensures
            final(dest)@.len() == old(dest)@.len(),
            exists|fresh: Seq<u8>|
                fresh.len() == self.salt_len && stored(
                    #[trigger] hashed_text(policy_of_cfg(*self), pass@, fresh),
                    old(dest)@,
                    final(dest)@,
                    r,
                ),
            r == ErrorCode::PasswordTooShort <==> counted_len(policy_of_cfg(*self), pass@)
                < self.min_len,
            r == ErrorCode::PasswordTooLong <==> self.min_len <= counted_len(
                policy_of_cfg(*self),
                pass@,
            ) && counted_len(policy_of_cfg(*self), pass@) > self.max_len,
            r == ErrorCode::Success || r == ErrorCode::NotEnoughSpace <== self.min_len
                <= counted_len(policy_of_cfg(*self), pass@) <= self.max_len && ready(
                policy_of_cfg(*self),
                pass@,
            ),
    {
        let mut builder = HashBuilder::new();
        let hasher = match builder.min_len(self.min_len).max_len(self.max_len).salt_len(
            self.salt_len,
        ).algorithm(self.algorithm).length_calculation(self.length_calculation).normalization(
            self.normalization,
        ).version(self.version).finalize() {
            Ok(ch) => ch,
            Err(e) => {
                return e;
            },
        };
        assert(hasher@ == policy_of_cfg(*self));
        match hasher.hash(pass) {
            Ok(h) => {
                let b = h.as_str().as_bytes_vec();
                let len = b.len();
                if len >= dest.len() {
                    return ErrorCode::NotEnoughSpace;
                }
                write_code(&b, dest);
                ErrorCode::Success
            },
            Err(e) => e,
        }
    }
}

/// Checks a password against the record of a stored hash: 1 where the
/// password is valid, 0 where it is not or the record cannot be read.
pub fn is_valid(pass: &str, reference: &str) -> (r: i32)
    requires
        encode_utf8(reference@).len() * 4 <= usize::MAX,
    ensures
        r == 0 || r == 1,
        policy_from_text(reference@) is None ==> r == 0,
        policy_from_text(reference@) is Some ==> exists|fresh: Seq<u8>, key: Seq<u8>|
            fresh.len() == policy_from_text(reference@)->0.salt_len && key.len()
                == std_default::DEFAULT_SALT_LEN && (r == 1) == #[trigger] valid_with(
                policy_from_text(reference@)->0,
                pass@,
                fresh,
                key,
            ),
{
    let checker = match HashBuilder::from_phc(reference) {
        Ok(ch) => ch,
        Err(_) => {
            return 0;
        },
    };
    match checker.is_valid(pass) {
        true => 1,
        false => 0,
    }
}

} // verus!
