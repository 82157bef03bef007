//! Password hashing: policies, the storage format and verification.
//!
//! A [`HashBuilder`] collects the settings of a policy and makes a
//! [`Hasher`], which hashes passwords and writes each hash as a record of
//! the storage format. A `Hasher` that is made from such a record checks
//! passwords against the hash that the record holds.
//!
//! A record tells the policy in these parameters:
//!
//! | name | value | default |
//! | --- | --- | --- |
//! | `norm` | `nfd`, `nfkd`, `nfc`, `nfkc` or `none` | `nfkc` |
//! | `len-calc` | `bytes` or `chars` | `chars` |
//! | `pmin` | the least length of a password | 8 |
//! | `pmax` | the greatest length of a password | 128 |
//! | `ver` | the version of the hashing scheme | 1 |
//!
//! The other parameters are for the algorithm. Argon2 takes `passes`
//! (3), `mem` (12, for 2^12 KiB), `lanes` (4) and `len` (128 bytes);
//! PBKDF2 takes `iter` (45000) and `hash` (`sha512`).

pub mod argon2;
pub mod b64;
pub mod cfg;
pub mod decimal;
pub mod engine;
pub mod mac;
pub mod normalize;
pub mod params;
pub mod pbkdf2;
pub mod phc;
pub mod policy;
pub mod recheck;
pub mod round_trip;
pub mod std_default;
pub mod std_nist;

use crate::key::random_bytes;
use crate::pass::decimal::{decimal_string, parse_usize};
use crate::pass::engine::{
    engine_default, engine_set_all, engine_with_norm, lemma_configured, lemma_set_all_fails,
    lemma_set_all_keeps, HashFunc,
};
use crate::pass::mac::codes_match;
use crate::pass::normalize::{normalize, normalized};
use crate::pass::params::{lemma_without, put, without, Pairs, ParamMap, Text};
use crate::pass::phc::{all_in_class, opt_bytes, CharClass, PHCData};
use crate::pass::policy::{
    configured, counted_len, default_policy, effective_salt, hash_record, hashed, hashed_text,
    lemma_policy_names, length_error, policy_from_text, ready, settings, usize_param, valid_with,
    PolicyModel,
};
use crate::text::{lemma_ascii_chars_encode, str_eq};
use vstd::prelude::*;
use vstd::string::*;
use vstd::utf8::*;

verus! {

/// The recommended length to reserve for the storage of a password hash.
///
/// It is deliberately larger than what the current algorithms need.
pub const PASSWORD_STORAGE_LEN: usize = 512;

/// The version that this library adds to the user's scheme version.
pub const INTERNAL_VERSION: usize = 1;

/// The scheme version of a user who sets none.
pub const DEFAULT_USER_VERSION: usize = 0;

/// Algorithms available to hash the password.
#[derive(Clone, Copy, Debug, PartialEq, Eq)]
pub enum Algorithm {
    Argon2,
    Pbkdf2,
}

/// Why an operation on passwords failed.
#[derive(Clone, Copy, Debug, PartialEq, Eq)]
pub enum ErrorCode {
    /// No error; used by bindings to other languages.
    Success,
    /// The password is shorter than the minimal length.
    PasswordTooShort,
    /// The password is longer than the maximal length.
    PasswordTooLong,
    /// The input does not respect the storage format.
    InvalidPasswordFormat,
    /// Some of the options are incompatible.
    IncompatibleOption,
    /// The destination is too small for the data; used by bindings.
    NotEnoughSpace,
    /// A null pointer was given; used by bindings.
    NullPtr,
}

/// Available methods to calculate the length of a UTF-8 string.
#[derive(Clone, Copy, Debug, PartialEq, Eq)]
pub enum LengthCalculationMethod {
    /// The number of bytes of the UTF-8 encoding.
    Bytes,
    /// The number of Unicode scalar values.
    Characters,
}

/// Available string normalization methods.
#[derive(Clone, Copy, Debug, PartialEq, Eq)]
pub enum Normalization {
    Nfd,
    Nfkd,
    Nfc,
    Nfkc,
    /// The text is taken as it is.
    NoNormalization,
}

/// The name of a normalization in a record.
pub open spec fn norm_text(norm: Normalization) -> Text {
    match norm {
        Normalization::Nfd => "nfd"@,
        Normalization::Nfkd => "nfkd"@,
        Normalization::Nfc => "nfc"@,
        Normalization::Nfkc => "nfkc"@,
        Normalization::NoNormalization => "none"@,
    }
}

/// The normalization that a record names, if the name is known.
pub open spec fn norm_from_text(name: Text) -> Option<Normalization> {
    if name == "nfd"@ {
        Some(Normalization::Nfd)
    } else if name == "nfkd"@ {
        Some(Normalization::Nfkd)
    } else if name == "nfc"@ {
        Some(Normalization::Nfc)
    } else if name == "nfkc"@ {
        Some(Normalization::Nfkc)
    } else if name == "none"@ {
        Some(Normalization::NoNormalization)
    } else {
        None
    }
}

/// The name of a normalization is a parameter value, and names the
/// normalization.
pub proof fn lemma_norm_text(norm: Normalization)
    ensures
        norm_from_text(norm_text(norm)) == Some(norm),
        norm_text(norm).len() > 0,
        all_in_class(CharClass::ParamValue, norm_text(norm)),
{
    reveal_strlit("nfd");
    reveal_strlit("nfkd");
    reveal_strlit("nfc");
    reveal_strlit("nfkc");
    reveal_strlit("none");
    assert("nfd"@.len() == 3 && "nfkd"@.len() == 4 && "nfc"@.len() == 3 && "nfkc"@.len() == 4
        && "none"@.len() == 4);
    assert("nfd"@[2] == 'd' && "nfc"@[2] == 'c' && "nfkd"@[3] == 'd' && "nfkc"@[3] == 'c'
        && "none"@[3] == 'e');
    assert(all_in_class(CharClass::ParamValue, "nfd"@));
    assert(all_in_class(CharClass::ParamValue, "nfkd"@));
    assert(all_in_class(CharClass::ParamValue, "nfc"@));
    assert(all_in_class(CharClass::ParamValue, "nfkc"@));
    assert(all_in_class(CharClass::ParamValue, "none"@));
}

/// The name of a normalization in a record.
pub fn norm_string(norm: Normalization) -> (r: String)
    ensures
        r@ == norm_text(norm),
{
    match norm {
        Normalization::Nfd => String::from_str("nfd"),
        Normalization::Nfkd => String::from_str("nfkd"),
        Normalization::Nfc => String::from_str("nfc"),
        Normalization::Nfkc => String::from_str("nfkc"),
        Normalization::NoNormalization => String::from_str("none"),
    }
}

/// Whether the policy should comply with the recommendations of a standard.
#[derive(Clone, Copy, Debug, PartialEq, Eq)]
pub enum PasswordStorageStandard {
    /// Default mode of operation, safe.
    NoStandard,
    /// Comply with the NIST Special Publication 800-63B.
    Nist80063b,
}

/// A hash together with the text of its record.
pub struct HashedDuo {
    pub raw: Vec<u8>,
    pub formated: String,
}

/// What a result of hashing holds: the hash and the text, or the error.
pub open spec fn duo_result(r: Result<HashedDuo, ErrorCode>) -> Result<(Seq<u8>, Text), ErrorCode> {
    match r {
        Ok(duo) => Ok((duo.raw@, duo.formated@)),
        Err(e) => Err(e),
    }
}

/// What a result of hashing holds: the text of the record, or the error.
pub open spec fn text_result(r: Result<String, ErrorCode>) -> Result<Text, ErrorCode> {
    match r {
        Ok(text) => Ok(text@),
        Err(e) => Err(e),
    }
}

/// A copy of an optional byte string.
fn clone_bytes(v: &Option<Vec<u8>>) -> (r: Option<Vec<u8>>)
    ensures
        opt_bytes(r) == opt_bytes(*v),
{
    match v {
        Some(b) => Some(b.clone()),
        None => None,
    }
}

/// Hash a password and check a password against a previously hashed one.
pub struct Hasher {
    normalization: Normalization,
    min_len: usize,
    max_len: usize,
    algorithm: Algorithm,
    parameters: ParamMap,
    ref_salt: Option<Vec<u8>>,
    ref_hash: Option<Vec<u8>>,
    salt_len: usize,
    length_calculation: LengthCalculationMethod,
    version: usize,
}

impl View for Hasher {
    type V = PolicyModel;

    closed spec fn view(&self) -> PolicyModel {
        PolicyModel {
            normalization: self.normalization,
            min_len: self.min_len,
            max_len: self.max_len,
            algorithm: self.algorithm,
            parameters: self.parameters@,
            ref_salt: opt_bytes(self.ref_salt),
            ref_hash: opt_bytes(self.ref_hash),
            salt_len: self.salt_len,
            length_calculation: self.length_calculation,
            version: self.version,
        }
    }
}

impl Hasher {
    /// How passwords are normalized before they are hashed.
    pub fn normalization(&self) -> (r: Normalization)
        ensures
            r == self@.normalization,
    {
        self.normalization
    }

    /// The least length of a password.
    pub fn min_len(&self) -> (r: usize)
        ensures
            r == self@.min_len,
    {
        self.min_len
    }

    /// The greatest length of a password.
    pub fn max_len(&self) -> (r: usize)
        ensures
            r == self@.max_len,
    {
        self.max_len
    }

    /// The hashing algorithm.
    pub fn algorithm(&self) -> (r: Algorithm)
        ensures
            r == self@.algorithm,
    {
        self.algorithm
    }

    /// The parameters of the algorithm.
    pub fn parameters(&self) -> (r: &ParamMap)
        ensures
            r@ == self@.parameters,
    {
        &self.parameters
    }

    /// The length of a fresh salt; for a policy read from a record, the
    /// length of the record's salt.
    pub fn salt_len(&self) -> (r: usize)
        ensures
            r == self@.salt_len,
    {
        self.salt_len
    }

    /// How the length of a password is counted.
    pub fn length_calculation(&self) -> (r: LengthCalculationMethod)
        ensures
            r == self@.length_calculation,
    {
        self.length_calculation
    }

    /// The version of the hashing scheme.
    pub fn version(&self) -> (r: usize)
        ensures
            r == self@.version,
    {
        self.version
    }

    /// Holds the length of a normalized password against the bounds.
    pub fn check_password(&self, password: &str) -> (r: Result<(), ErrorCode>)
        ensures
            r is Ok <==> length_error(self@, password@) is None,
            r is Err ==> length_error(self@, password@) == Some(r->Err_0),
    {
        let pass_len = match self.length_calculation {
            LengthCalculationMethod::Bytes => password.as_bytes().len(),
            LengthCalculationMethod::Characters => password.unicode_len(),
        };
        if pass_len < self.min_len {
            return Err(ErrorCode::PasswordTooShort);
        }
        if pass_len > self.max_len {
            return Err(ErrorCode::PasswordTooLong);
        }
        Ok(())
    }

    /// Brings a password into the form that the policy asks for.
    pub fn normalize_password(&self, password: &str) -> (r: String)
        ensures
            r@ == normalized(self@.normalization, password@),
    {
        normalize(self.normalization, password)
    }

    /// Makes the hashing function of the policy, with the salt `salt`.
    pub fn get_hash_func(&self, salt: Vec<u8>) -> (r: Result<HashFunc, ErrorCode>)
        ensures
            r is Ok <==> configured(self@, salt@) is Some,
            r is Ok ==> r->Ok_0@ == configured(self@, salt@)->0,
            r is Err ==> r->Err_0 == ErrorCode::InvalidPasswordFormat,
    {
        let mut hash_func = HashFunc::new(self.algorithm);
        let _ = hash_func.set_normalization(self.normalization);
        let ghost start = hash_func@;
        let ghost params = self.parameters@;
        let n = self.parameters.len();
        let mut i: usize = 0;
        assert(params.take(0) =~= Pairs::empty());
        while i < n
            invariant
                i <= n,
                n == params.len(),
                params == self.parameters@,
                start == engine_with_norm(engine_default(self@.algorithm), self@.normalization),
                engine_set_all(start, params.take(i as int)) == Some(hash_func@),
            decreases n - i,
        {
            let ghost next = params.take(i + 1);
            assert(next.drop_last() =~= params.take(i as int));
            assert(next.last() == params[i as int]);
            match hash_func.set_parameter(
                self.parameters.key_at(i).as_str(),
                self.parameters.value_at(i).as_str(),
            ) {
                Ok(_) => {},
                Err(e) => {
                    proof {
                        assert(engine_set_all(start, next) is None);
                        lemma_set_all_fails(start, params, i + 1);
                    }
                    return Err(e);
                },
            }
            i += 1;
        }
        assert(params.take(n as int) =~= params);
        match hash_func.set_salt(salt) {
            Ok(_) => Ok(hash_func),
            Err(e) => Err(e),
        }
    }

    /// Hashes `password` with the salt of the policy's record or, where it
    /// has none, with `fresh_salt`.
    pub fn do_hash(&self, password: &str, fresh_salt: Vec<u8>) -> (r: Result<HashedDuo, ErrorCode>)
        ensures
            duo_result(r) == hashed(self@, password@, effective_salt(self@, fresh_salt@)),
            self@.min_len <= counted_len(self@, password@) <= self@.max_len && ready(
                self@,
                password@,
            ) && (self@.ref_salt is None ==> fresh_salt@.len() == self@.salt_len) ==> r is Ok,
    {
        let norm_pass = self.normalize_password(password);
        match self.check_password(norm_pass.as_str()) {
            Ok(_) => {},
            Err(e) => {
                return Err(e);
            },
        }
        let salt = match &self.ref_salt {
            Some(s) => s.clone(),
            None => fresh_salt,
        };
        let ghost salt_used = salt@;
        assert(salt_used == effective_salt(self@, fresh_salt@));
        proof {
            lemma_configured(
                self@.algorithm,
                self@.normalization,
                self@.parameters,
                salt_used,
            );
            if settings(self@) is Some {
                lemma_set_all_keeps(
                    engine_with_norm(engine_default(self@.algorithm), self@.normalization),
                    self@.parameters,
                );
            }
        }
        let hash_func = match self.get_hash_func(salt) {
            Ok(f) => f,
            Err(e) => {
                return Err(e);
            },
        };
        let hash = match hash_func.hash(norm_pass.as_str().as_bytes()) {
            Some(h) => h,
            None => {
                return Err(ErrorCode::InvalidPasswordFormat);
            },
        };
        let lc = match self.length_calculation {
            LengthCalculationMethod::Bytes => "bytes",
            LengthCalculationMethod::Characters => "chars",
        };
        let mut params = hash_func.get_parameters();
        params.insert(String::from_str("len-calc"), String::from_str(lc));
        params.insert(String::from_str("pmin"), decimal_string(self.min_len as u64));
        params.insert(String::from_str("pmax"), decimal_string(self.max_len as u64));
        params.insert(String::from_str("ver"), decimal_string(self.version as u64));
        let phc = PHCData {
            id: hash_func.get_id(),
            parameters: params,
            salt: hash_func.get_salt(),
            hash: Some(hash.clone()),
        };
        proof {
            reveal_strlit("argon2");
            reveal_strlit("pbkdf2");
            assert("argon2"@.len() == 6 && "pbkdf2"@.len() == 6);
            assert(phc@ == hash_record(hash_func@, self@, hash@));
        }
        match phc.to_string() {
            Ok(fmtd) => Ok(HashedDuo { raw: hash, formated: fmtd }),
            Err(_) => Err(ErrorCode::InvalidPasswordFormat),
        }
    }

    /// Hashes `password` as [`Hasher::hash`] does, with `fresh_salt` in the
    /// place of the salt that `hash` draws. A policy that was read from a
    /// record hashes with the record's salt instead.
    pub fn hash_with_salt(&self, password: &str, fresh_salt: Vec<u8>) -> (r: Result<
        String,
        ErrorCode,
    >)
        ensures
            text_result(r) == hashed_text(self@, password@, effective_salt(self@, fresh_salt@)),
            self@.min_len <= counted_len(self@, password@) <= self@.max_len && ready(
                self@,
                password@,
            ) && (self@.ref_salt is None ==> fresh_salt@.len() == self@.salt_len) ==> r is Ok,
    {
        match self.do_hash(password, fresh_salt) {
            Ok(hash_duo) => Ok(hash_duo.formated),
            Err(e) => Err(e),
        }
    }

    /// Hashes a password and returns the text of the record to store.
    ///
    /// The password is normalized, and refused where its length is out of
    /// the policy's bounds. It is then hashed with a fresh salt of the
    /// policy's salt length, or with the salt of the record that the policy
    /// was read from.
    pub fn hash(&self, password: &str) -> (r: Result<String, ErrorCode>)
        ensures
            exists|fresh: Seq<u8>|
                fresh.len() == self@.salt_len && text_result(r) == #[trigger] hashed_text(
                    self@,
                    password@,
                    effective_salt(self@, fresh),
                ),
            r == Err::<String, ErrorCode>(ErrorCode::PasswordTooShort) <==> counted_len(
                self@,
                password@,
            ) < self@.min_len,
            r == Err::<String, ErrorCode>(ErrorCode::PasswordTooLong) <==> self@.min_len
                <= counted_len(self@, password@) && counted_len(self@, password@) > self@.max_len,
            r is Err ==> r->Err_0 == ErrorCode::PasswordTooShort || r->Err_0
                == ErrorCode::PasswordTooLong || r->Err_0 == ErrorCode::InvalidPasswordFormat,
            self@.min_len <= counted_len(self@, password@) <= self@.max_len && ready(
                self@,
                password@,
            ) ==> r is Ok,
    {
        let fresh = match &self.ref_salt {
            Some(_) => Vec::new(),
            None => random_bytes(self.salt_len),
        };
        let ghost used = if self.ref_salt is Some {
            Seq::new(self.salt_len as nat, |i: int| 0u8)
        } else {
            fresh@
        };
        assert(effective_salt(self@, used) == effective_salt(self@, fresh@));
        let r = self.hash_with_salt(password, fresh);
        assert(text_result(r) == hashed_text(self@, password@, effective_salt(self@, used)));
        r
    }

    /// Checks `password` against the stored hash as [`Hasher::is_valid`]
    /// does, with `fresh_salt` and `key` in the place of the random bytes
    /// that `is_valid` draws.
    pub fn is_valid_with(&self, password: &str, fresh_salt: Vec<u8>, key: &[u8]) -> (r: bool)
        ensures
            r == valid_with(self@, password@, fresh_salt@, key@),
    {
        match &self.ref_hash {
            Some(rh) => match self.do_hash(password, fresh_salt) {
                Ok(hash_duo) => codes_match(key, rh.as_slice(), hash_duo.raw.as_slice()),
                Err(_) => false,
            },
            None => false,
        }
    }

    /// Checks a password against the stored hash.
    ///
    /// A policy without a stored hash finds no password valid, and neither
    /// does one under which the password cannot be hashed. Otherwise the
    /// password is hashed with the stored salt, and the new hash and the
    /// stored one are compared through their HMAC codes under a key of 16
    /// fresh random bytes.
    pub fn is_valid(&self, password: &str) -> (r: bool)
        ensures
            exists|fresh: Seq<u8>, key: Seq<u8>|
                fresh.len() == self@.salt_len && key.len() == std_default::DEFAULT_SALT_LEN && r
                    == #[trigger] valid_with(self@, password@, fresh, key),
            self@.ref_hash is None ==> !r,
            self@.ref_salt is Some && hashed(self@, password@, self@.ref_salt->0) is Err ==> !r,
            self@.ref_hash is Some && self@.ref_salt is Some && hashed(
                self@,
                password@,
                self@.ref_salt->0,
            ) is Ok && hashed(self@, password@, self@.ref_salt->0)->Ok_0.0 == self@.ref_hash->0
                ==> r,
    {
        let fresh = match &self.ref_salt {
            Some(_) => Vec::new(),
            None => random_bytes(self.salt_len),
        };
        let ghost used = if self.ref_salt is Some {
            Seq::new(self.salt_len as nat, |i: int| 0u8)
        } else {
            fresh@
        };
        let key = random_bytes(std_default::DEFAULT_SALT_LEN);
        assert(effective_salt(self@, used) == effective_salt(self@, fresh@));
        let r = self.is_valid_with(password, fresh, key.as_slice());
        assert(r == valid_with(self@, password@, used, key@));
        r
    }

    /// Whether the stored hash was made under an older scheme than the
    /// current one: the policy's version is less than `current_version`
    /// plus the library's own version, or, where no version is given, less
    /// than the version of a user who sets none.
    pub fn needs_update(&self, current_version: Option<usize>) -> (r: bool)
        ensures
            r == match current_version {
                Some(nb) => self@.version < nb + INTERNAL_VERSION,
                None => self@.version < DEFAULT_USER_VERSION + INTERNAL_VERSION,
            },
    {
        match current_version {
            Some(nb) => if nb > usize::MAX - INTERNAL_VERSION {
                true
            } else {
                self.version < nb + INTERNAL_VERSION
            },
            None => self.version < DEFAULT_USER_VERSION + INTERNAL_VERSION,
        }
    }
}

/// Reads the normalization that a record names.
fn norm_from_str(name: &str) -> (r: Option<Normalization>)
    ensures
        r == norm_from_text(name@),
{
    if str_eq(name, "nfd") {
        Some(Normalization::Nfd)
    } else if str_eq(name, "nfkd") {
        Some(Normalization::Nfkd)
    } else if str_eq(name, "nfc") {
        Some(Normalization::Nfc)
    } else if str_eq(name, "nfkc") {
        Some(Normalization::Nfkc)
    } else if str_eq(name, "none") {
        Some(Normalization::NoNormalization)
    } else {
        None
    }
}

/// Takes the number that the parameter `key` gives out of the parameters.
fn take_usize(params: &mut ParamMap, key: &str, default: usize) -> (r: Option<usize>)
    ensures
        r == usize_param(old(params)@, key@, default),
        final(params)@ == without(old(params)@, key@),
{
    match params.remove(key) {
        Some(v) => parse_usize(v.as_str()),
        None => Some(default),
    }
}

/// Builds a Hasher object.
pub struct HashBuilder {
    /// The standard that the policy must comply with.
    pub standard: PasswordStorageStandard,
    /// How passwords are normalized before they are hashed.
    pub normalization: Normalization,
    /// The least length of a password.
    pub min_len: usize,
    /// The greatest length of a password.
    pub max_len: usize,
    /// The hashing algorithm.
    pub algorithm: Algorithm,
    /// The parameters of the algorithm.
    pub parameters: ParamMap,
    /// The salt of the stored hash.
    pub ref_salt: Option<Vec<u8>>,
    /// The stored hash.
    pub ref_hash: Option<Vec<u8>>,
    /// The length of a fresh salt.
    pub salt_len: usize,
    /// How the length of a password is counted.
    pub length_calculation: LengthCalculationMethod,
    /// The version of the hashing scheme.
    pub version: usize,
}

impl Default for HashBuilder {
    fn default() -> (r: Self)
        ensures
            r.standard == PasswordStorageStandard::NoStandard,
            r.policy() == default_policy(PasswordStorageStandard::NoStandard),
    {
        Self::new()
    }
}

impl HashBuilder {
    /// The policy that the builder describes.
    pub open spec fn policy(&self) -> PolicyModel {
        PolicyModel {
            normalization: self.normalization,
            min_len: self.min_len,
            max_len: self.max_len,
            algorithm: self.algorithm,
            parameters: self.parameters@,
            ref_salt: opt_bytes(self.ref_salt),
            ref_hash: opt_bytes(self.ref_hash),
            salt_len: self.salt_len,
            length_calculation: self.length_calculation,
            version: self.version,
        }
    }

    /// Create a new HashBuilder object with default parameters.
    pub fn new() -> (r: HashBuilder)
        ensures
            r.standard == PasswordStorageStandard::NoStandard,
            r.policy() == default_policy(PasswordStorageStandard::NoStandard),
    {
        HashBuilder::new_std(PasswordStorageStandard::NoStandard)
    }

    /// Create a new HashBuilder object with default parameters for a specific standard.
    pub fn new_std(std: PasswordStorageStandard) -> (r: HashBuilder)
        ensures
            r.standard == std,
            r.policy() == default_policy(std),
    {
        match std {
            PasswordStorageStandard::NoStandard => HashBuilder {
                standard: PasswordStorageStandard::NoStandard,
                normalization: std_default::DEFAULT_NORMALIZATION,
                min_len: std_default::DEFAULT_PASSWORD_MIN_LEN,
                max_len: std_default::DEFAULT_PASSWORD_MAX_LEN,
                algorithm: std_default::DEFAULT_ALGORITHM,
                parameters: ParamMap::new(),
                ref_salt: None,
                ref_hash: None,
                salt_len: std_default::DEFAULT_SALT_LEN,
                length_calculation: std_default::DEFAULT_LENGTH_CALCULATION,
                version: DEFAULT_USER_VERSION + INTERNAL_VERSION,
            },
            PasswordStorageStandard::Nist80063b => HashBuilder {
                standard: PasswordStorageStandard::Nist80063b,
                normalization: std_nist::DEFAULT_NORMALIZATION,
                min_len: std_nist::DEFAULT_PASSWORD_MIN_LEN,
                max_len: std_nist::DEFAULT_PASSWORD_MAX_LEN,
                algorithm: std_nist::DEFAULT_ALGORITHM,
                parameters: ParamMap::new(),
                ref_salt: None,
                ref_hash: None,
                salt_len: std_nist::DEFAULT_SALT_LEN,
                length_calculation: std_nist::DEFAULT_LENGTH_CALCULATION,
                version: DEFAULT_USER_VERSION + INTERNAL_VERSION,
            },
        }
    }

    /// Create a new Hasher object from a PHC formatted string.
    ///
    /// The result is the policy that [`policy_from_text`] reads in the text;
    /// a text in which it reads none is refused as badly formatted. Four
    /// times the number of bytes of the text must fit in `usize`.
    pub fn from_phc(data: &str) -> (r: Result<Hasher, ErrorCode>)
        requires
            encode_utf8(data@).len() * 4 <= usize::MAX,
        ensures
            r is Ok <==> policy_from_text(data@) is Some,
            r is Ok ==> r->Ok_0@ == policy_from_text(data@)->0,
            r is Err ==> r->Err_0 == ErrorCode::InvalidPasswordFormat,
    {
        if !data.is_ascii() {
            proof {
                crate::pass::phc::lemma_parse_ascii(data@);
            }
            return Err(ErrorCode::InvalidPasswordFormat);
        }
        proof {
            lemma_ascii_chars_encode(data@);
            is_ascii_chars_encode_utf8(data@);
        }
        let mut phc = match PHCData::from_bytes(data.as_bytes()) {
            Ok(v) => v,
            Err(_) => {
                return Err(ErrorCode::InvalidPasswordFormat);
            },
        };
        let ghost d = phc@;
        proof {
            use_type_invariant(&phc.parameters);
            lemma_policy_names();
            let all = d.parameters;
            lemma_without(all, "norm"@);
            let no_norm = without(all, "norm"@);
            lemma_without(no_norm, "ver"@);
            let no_ver = without(no_norm, "ver"@);
            lemma_without(no_ver, "pmin"@);
            let no_pmin = without(no_ver, "pmin"@);
            lemma_without(no_pmin, "pmax"@);
        }
        let norm = match phc.parameters.remove("norm") {
            Some(v) => match norm_from_str(v.as_str()) {
                Some(n) => n,
                None => {
                    return Err(ErrorCode::InvalidPasswordFormat);
                },
            },
            None => Normalization::Nfkc,
        };
        let version = match take_usize(
            &mut phc.parameters,
            "ver",
            DEFAULT_USER_VERSION + INTERNAL_VERSION,
        ) {
            Some(l) => l,
            None => {
                return Err(ErrorCode::InvalidPasswordFormat);
            },
        };
        let min_l = match take_usize(
            &mut phc.parameters,
            "pmin",
            std_default::DEFAULT_PASSWORD_MIN_LEN,
        ) {
            Some(l) => l,
            None => {
                return Err(ErrorCode::InvalidPasswordFormat);
            },
        };
        let max_l = match take_usize(
            &mut phc.parameters,
            "pmax",
            std_default::DEFAULT_PASSWORD_MAX_LEN,
        ) {
            Some(l) => l,
            None => {
                return Err(ErrorCode::InvalidPasswordFormat);
            },
        };
        let lc = match phc.parameters.remove("len-calc") {
            Some(v) => {
                if str_eq(v.as_str(), "bytes") {
                    LengthCalculationMethod::Bytes
                } else if str_eq(v.as_str(), "chars") {
                    LengthCalculationMethod::Characters
                } else {
                    return Err(ErrorCode::InvalidPasswordFormat);
                }
            },
            None => LengthCalculationMethod::Characters,
        };
        let algorithm = if str_eq(phc.id.as_str(), "argon2") {
            Algorithm::Argon2
        } else if str_eq(phc.id.as_str(), "pbkdf2") {
            Algorithm::Pbkdf2
        } else {
            return Err(ErrorCode::InvalidPasswordFormat);
        };
        let salt_len = match &phc.salt {
            Some(s) => s.len(),
            None => std_default::DEFAULT_SALT_LEN,
        };
        let hash_builder = HashBuilder {
            standard: PasswordStorageStandard::NoStandard,
            normalization: norm,
            min_len: min_l,
            max_len: max_l,
            algorithm,
            parameters: phc.parameters,
            ref_hash: phc.hash,
            salt_len,
            ref_salt: phc.salt,
            length_calculation: lc,
            version,
        };
        hash_builder.finalize()
    }

    /// Check the compatibility between options and create a Hasher object.
    ///
    /// Under the NIST standard a configuration that does not comply is
    /// refused as an incompatible option. Every other configuration gives
    /// the policy that it describes.
    pub fn finalize(&self) -> (r: Result<Hasher, ErrorCode>)
        ensures
            r is Err <==> self.standard == PasswordStorageStandard::Nist80063b
                && !std_nist::complies(self.policy()),
            r is Err ==> r->Err_0 == ErrorCode::IncompatibleOption,
            r is Ok ==> r->Ok_0@ == self.policy(),
    {
        match self.standard {
            PasswordStorageStandard::Nist80063b => {
                if !std_nist::is_valid(self) {
                    return Err(ErrorCode::IncompatibleOption);
                }
            },
            PasswordStorageStandard::NoStandard => {},
        }
        Ok(
            Hasher {
                normalization: self.normalization,
                min_len: self.min_len,
                max_len: self.max_len,
                algorithm: self.algorithm,
                parameters: self.parameters.clone(),
                ref_salt: clone_bytes(&self.ref_salt),
                ref_hash: clone_bytes(&self.ref_hash),
                salt_len: self.salt_len,
                length_calculation: self.length_calculation,
                version: self.version,
            },
        )
    }

    /// Set the way the password will be normalized.
    pub fn normalization(&mut self, normalization: Normalization) -> (ret: &mut HashBuilder)
        ensures
            *ret == (HashBuilder { normalization, ..*old(self) }),
            *final(self) == *final(ret),
    {
        self.normalization = normalization;
        self
    }

    /// Set the password hashing algorithm. The parameters are forgotten.
    pub fn algorithm(&mut self, algorithm: Algorithm) -> (ret: &mut HashBuilder)
        ensures
            ret.standard == old(self).standard,
            ret.policy() == (PolicyModel {
                algorithm,
                parameters: Seq::empty(),
                ..old(self).policy()
            }),
            *final(self) == *final(ret),
    {
        self.algorithm = algorithm;
        self.parameters = ParamMap::new();
        self
    }

    /// Set the way the password length will be calculated.
    pub fn length_calculation(&mut self, method: LengthCalculationMethod) -> (ret: &mut HashBuilder)
        ensures
            *ret == (HashBuilder { length_calculation: method, ..*old(self) }),
            *final(self) == *final(ret),
    {
        self.length_calculation = method;
        self
    }

    /// Set the salt length.
    ///
    /// Unused if a salt is given.
    pub fn salt_len(&mut self, len: usize) -> (ret: &mut HashBuilder)
        ensures
            *ret == (HashBuilder { salt_len: len, ..*old(self) }),
            *final(self) == *final(ret),
    {
        self.salt_len = len;
        self
    }

    /// Set the password minimal length.
    pub fn min_len(&mut self, len: usize) -> (ret: &mut HashBuilder)
        ensures
            *ret == (HashBuilder { min_len: len, ..*old(self) }),
            *final(self) == *final(ret),
    {
        self.min_len = len;
        self
    }

    /// Set the password maximal length.
    pub fn max_len(&mut self, len: usize) -> (ret: &mut HashBuilder)
        ensures
            *ret == (HashBuilder { max_len: len, ..*old(self) }),
            *final(self) == *final(ret),
    {
        self.max_len = len;
        self
    }

    /// Add a parameter that will be used by the password hashing algorithm.
    pub fn add_param(&mut self, key: &str, value: &str) -> (ret: &mut HashBuilder)
        ensures
            ret.standard == old(self).standard,
            ret.policy() == (PolicyModel {
                parameters: put(old(self).parameters@, key@, value@),
                ..old(self).policy()
            }),
            *final(self) == *final(ret),
    {
        self.parameters.insert(String::from_str(key), String::from_str(value));
        self
    }

    /// Set the hashing scheme version number.
    ///
    /// The policy's version is the given one plus the library's own. The
    /// sum must fit in `usize`.
    pub fn version(&mut self, version: usize) -> (ret: &mut HashBuilder)
        requires
            version + INTERNAL_VERSION <= usize::MAX,
        ensures
            *ret == (HashBuilder { version: (version + INTERNAL_VERSION) as usize, ..*old(self) }),
            *final(self) == *final(ret),
    {
        self.version = version + INTERNAL_VERSION;
        self
    }
}

} // verus!
