//! What a policy is and what hashing under it gives.
//!
//! The functions here say, over plain values, what [`crate::pass::Hasher`]
//! computes: how a password is counted, which hashing function a policy
//! makes, what the record of a hash holds, and which policy a record
//! describes.

use crate::pass::argon2::lemma_argon2_default_roomy;
use crate::pass::decimal::{decimal_text, decimal_value};
use crate::pass::engine::{
    algorithm_id, engine_default, engine_hash, engine_params, engine_roomy, engine_salt,
    engine_set_all, engine_with_norm, engine_with_salt, salt_len_fits, EngineConfig,
};
use crate::pass::mac::same_code;
use crate::pass::normalize::normalized;
use crate::pass::params::{lookup, put, without, Pairs, Text};
use crate::pass::phc::{parse, serialize, PhcModel};
use crate::pass::{
    norm_from_text, std_default, std_nist, Algorithm, ErrorCode, LengthCalculationMethod,
    Normalization, PasswordStorageStandard, DEFAULT_USER_VERSION, INTERNAL_VERSION,
};
use vstd::prelude::*;
use vstd::string::*;
use vstd::utf8::*;

verus! {

/// The name of a way to count length in a record.
pub open spec fn len_calc_text(method: LengthCalculationMethod) -> Text {
    match method {
        LengthCalculationMethod::Bytes => "bytes"@,
        LengthCalculationMethod::Characters => "chars"@,
    }
}

/// The way to count length that a record names, if the name is known.
pub open spec fn len_calc_from_text(name: Text) -> Option<LengthCalculationMethod> {
    if name == "bytes"@ {
        Some(LengthCalculationMethod::Bytes)
    } else if name == "chars"@ {
        Some(LengthCalculationMethod::Characters)
    } else {
        None
    }
}

/// What a policy holds.
pub struct PolicyModel {
    /// How passwords are normalized before they are hashed.
    pub normalization: Normalization,
    /// The least length of a password.
    pub min_len: usize,
    /// The greatest length of a password.
    pub max_len: usize,
    /// The hashing algorithm.
    pub algorithm: Algorithm,
    /// The parameters of the algorithm.
    pub parameters: Pairs,
    /// The salt of the stored hash, where the policy was read from a record.
    pub ref_salt: Option<Seq<u8>>,
    /// The stored hash, where the policy was read from a record.
    pub ref_hash: Option<Seq<u8>>,
    /// The length of a fresh salt.
    pub salt_len: usize,
    /// How the length of a password is counted.
    pub length_calculation: LengthCalculationMethod,
    /// The version of the hashing scheme.
    pub version: usize,
}

/// The length of a password as `method` counts it: the bytes of its UTF-8
/// encoding, or its Unicode scalar values.
pub open spec fn pass_len(method: LengthCalculationMethod, password: Text) -> nat {
    match method {
        LengthCalculationMethod::Bytes => encode_utf8(password).len(),
        LengthCalculationMethod::Characters => password.len(),
    }
}

/// What the length policy objects to in a normalized password, if anything.
pub open spec fn length_error(h: PolicyModel, normal: Text) -> Option<ErrorCode> {
    if pass_len(h.length_calculation, normal) < h.min_len {
        Some(ErrorCode::PasswordTooShort)
    } else if pass_len(h.length_calculation, normal) > h.max_len {
        Some(ErrorCode::PasswordTooLong)
    } else {
        None
    }
}

/// The salt that a policy hashes with: the salt of its record, or else the
/// fresh one.
pub open spec fn effective_salt(h: PolicyModel, fresh: Seq<u8>) -> Seq<u8> {
    match h.ref_salt {
        Some(salt) => salt,
        None => fresh,
    }
}

/// The settings of the hashing function of a policy, before it is given a
/// salt: those of a new function of the algorithm that was given the
/// normalization and then the parameters, in their order. Nothing where
/// the algorithm refuses a parameter.
pub open spec fn settings(h: PolicyModel) -> Option<EngineConfig> {
    engine_set_all(engine_with_norm(engine_default(h.algorithm), h.normalization), h.parameters)
}

/// The hashing function of a policy that hashes with `salt`. Nothing where
/// the algorithm refuses a parameter or does not take a salt of that
/// length.
pub open spec fn configured(h: PolicyModel, salt: Seq<u8>) -> Option<EngineConfig> {
    match settings(h) {
        Some(c) => engine_with_salt(c, salt),
        None => None,
    }
}

/// The length of a password as the policy counts it: that of its normal
/// form.
pub open spec fn counted_len(h: PolicyModel, password: Text) -> nat {
    pass_len(h.length_calculation, normalized(h.normalization, password))
}

/// The length of the salt that a policy hashes with.
pub open spec fn used_salt_len(h: PolicyModel) -> nat {
    match h.ref_salt {
        Some(salt) => salt.len(),
        None => h.salt_len as nat,
    }
}

/// Whether the algorithm is certain to hash `password` under the policy:
/// it takes the parameters and a salt of the policy's length, and its
/// settings are roomy enough for the password.
pub open spec fn ready(h: PolicyModel, password: Text) -> bool {
    match settings(h) {
        Some(c) => salt_len_fits(h.algorithm, used_salt_len(h)) && engine_roomy(
            c,
            encode_utf8(normalized(h.normalization, password)).len(),
        ),
        None => false,
    }
}

/// The parameters of the record of a hash: those of the hashing function,
/// and the policy's way to count length, its bounds and its version.
pub open spec fn record_params(c: EngineConfig, h: PolicyModel) -> Pairs {
    put(
        put(
            put(
                put(engine_params(c), "len-calc"@, len_calc_text(h.length_calculation)),
                "pmin"@,
                decimal_text(h.min_len as nat),
            ),
            "pmax"@,
            decimal_text(h.max_len as nat),
        ),
        "ver"@,
        decimal_text(h.version as nat),
    )
}

/// The record of a hash `raw` made by the function `c` under the policy `h`.
pub open spec fn hash_record(c: EngineConfig, h: PolicyModel, raw: Seq<u8>) -> PhcModel {
    PhcModel {
        id: algorithm_id(h.algorithm),
        parameters: record_params(c, h),
        salt: Some(engine_salt(c)),
        hash: Some(raw),
    }
}

/// What hashing `password` under the policy `h` with the salt `salt` gives:
/// the hash and the text of its record, or the error.
///
/// The password is normalized; its length is held against the bounds; the
/// hashing function is made and hashes the UTF-8 bytes of the normalized
/// password; the record is written. A function that cannot be made, or
/// that gives no hash or an empty one, is an error of format.
pub open spec fn hashed(h: PolicyModel, password: Text, salt: Seq<u8>) -> Result<
    (Seq<u8>, Text),
    ErrorCode,
> {
    let normal = normalized(h.normalization, password);
    match length_error(h, normal) {
        Some(e) => Err(e),
        None => match configured(h, salt) {
            None => Err(ErrorCode::InvalidPasswordFormat),
            Some(c) => match engine_hash(c, encode_utf8(normal)) {
                None => Err(ErrorCode::InvalidPasswordFormat),
                Some(raw) => if raw.len() == 0 {
                    Err(ErrorCode::InvalidPasswordFormat)
                } else {
                    Ok((raw, serialize(hash_record(c, h, raw))))
                },
            },
        },
    }
}

/// The text of the record that hashing gives, or the error.
pub open spec fn hashed_text(h: PolicyModel, password: Text, salt: Seq<u8>) -> Result<
    Text,
    ErrorCode,
> {
    match hashed(h, password, salt) {
        Ok(duo) => Ok(duo.1),
        Err(e) => Err(e),
    }
}

/// Whether `password` is valid under the policy `h`, when a fresh salt and
/// the key of the comparison are given: the policy has a stored hash, the
/// password can be hashed, and the two hashes get the same code under the
/// key.
pub open spec fn valid_with(h: PolicyModel, password: Text, fresh: Seq<u8>, key: Seq<u8>) -> bool {
    match h.ref_hash {
        None => false,
        Some(reference) => match hashed(h, password, effective_salt(h, fresh)) {
            Err(_) => false,
            Ok(duo) => same_code(key, reference, duo.0),
        },
    }
}

/// A policy with the settings that a builder starts from, whatever its
/// bounds on the length, is ready for every password whose normal form has
/// no more bytes than 32 bits can count.
pub proof fn lemma_default_ready(
    standard: PasswordStorageStandard,
    min_len: usize,
    max_len: usize,
    password: Text,
)
    requires
        encode_utf8(normalized(default_policy(standard).normalization, password)).len()
            <= 0xFFFF_FFFF,
    ensures
        ready(PolicyModel { min_len, max_len, ..default_policy(standard) }, password),
{
    let h = PolicyModel { min_len, max_len, ..default_policy(standard) };
    let n = encode_utf8(normalized(h.normalization, password)).len();
    lemma_argon2_default_roomy(n);
    assert(h.parameters =~= Pairs::empty());
}

/// The algorithm that an identifier names, if it is known.
pub open spec fn algorithm_from_id(id: Text) -> Option<Algorithm> {
    if id == "argon2"@ {
        Some(Algorithm::Argon2)
    } else if id == "pbkdf2"@ {
        Some(Algorithm::Pbkdf2)
    } else {
        None
    }
}

/// The number that the parameter `key` gives: `default` where there is no
/// such parameter, nothing where its value is no number that fits.
pub open spec fn usize_param(p: Pairs, key: Text, default: usize) -> Option<usize> {
    match lookup(p, key) {
        None => Some(default),
        Some(text) => match decimal_value(text) {
            Some(n) => if n <= usize::MAX {
                Some(n as usize)
            } else {
                None
            },
            None => None,
        },
    }
}

/// The parameters of a record without those that describe the policy
/// itself: what is left is for the algorithm.
pub open spec fn algorithm_params(p: Pairs) -> Pairs {
    without(without(without(without(without(p, "norm"@), "ver"@), "pmin"@), "pmax"@), "len-calc"@)
}

/// The normalization that the parameters name: form KC where they name
/// none, nothing where the name is unknown.
pub open spec fn norm_param(p: Pairs) -> Option<Normalization> {
    match lookup(p, "norm"@) {
        Some(name) => norm_from_text(name),
        None => Some(Normalization::Nfkc),
    }
}

/// The way to count length that the parameters name: in characters where
/// they name none, nothing where the name is unknown.
pub open spec fn len_calc_param(p: Pairs) -> Option<LengthCalculationMethod> {
    match lookup(p, "len-calc"@) {
        Some(name) => len_calc_from_text(name),
        None => Some(LengthCalculationMethod::Characters),
    }
}

/// The policy that a record describes, if it describes one.
///
/// The parameters `norm`, `ver`, `pmin`, `pmax` and `len-calc` describe the
/// policy and have defaults; the others are for the algorithm, which the
/// identifier names. The salt and the hash of the record are the policy's
/// references, and the length of its salt is the policy's salt length. A
/// record with an unknown identifier, or with a value that cannot be read
/// in one of the five, describes no policy.
pub open spec fn policy_of_record(d: PhcModel) -> Option<PolicyModel> {
    let p = d.parameters;
    let norm = norm_param(p);
    let version = usize_param(p, "ver"@, (DEFAULT_USER_VERSION + INTERNAL_VERSION) as usize);
    let min_len = usize_param(p, "pmin"@, std_default::DEFAULT_PASSWORD_MIN_LEN);
    let max_len = usize_param(p, "pmax"@, std_default::DEFAULT_PASSWORD_MAX_LEN);
    let len_calc = len_calc_param(p);
    let algorithm = algorithm_from_id(d.id);
    if norm is Some && version is Some && min_len is Some && max_len is Some && len_calc is Some
        && algorithm is Some {
        Some(
            PolicyModel {
                normalization: norm->0,
                min_len: min_len->0,
                max_len: max_len->0,
                algorithm: algorithm->0,
                parameters: algorithm_params(p),
                ref_salt: d.salt,
                ref_hash: d.hash,
                salt_len: match d.salt {
                    Some(salt) => salt.len() as usize,
                    None => std_default::DEFAULT_SALT_LEN,
                },
                length_calculation: len_calc->0,
                version: version->0,
            },
        )
    } else {
        None
    }
}

/// The policy that the text of a record describes, if it is a record and
/// describes one.
pub open spec fn policy_from_text(text: Text) -> Option<PolicyModel> {
    match parse(text) {
        Some(d) => policy_of_record(d),
        None => None,
    }
}

/// The settings that a builder starts from.
pub open spec fn default_policy(standard: PasswordStorageStandard) -> PolicyModel {
    match standard {
        PasswordStorageStandard::NoStandard => PolicyModel {
            normalization: std_default::DEFAULT_NORMALIZATION,
            min_len: std_default::DEFAULT_PASSWORD_MIN_LEN,
            max_len: std_default::DEFAULT_PASSWORD_MAX_LEN,
            algorithm: std_default::DEFAULT_ALGORITHM,
            parameters: Seq::empty(),
            ref_salt: None,
            ref_hash: None,
            salt_len: std_default::DEFAULT_SALT_LEN,
            length_calculation: std_default::DEFAULT_LENGTH_CALCULATION,
            version: (DEFAULT_USER_VERSION + INTERNAL_VERSION) as usize,
        },
        PasswordStorageStandard::Nist80063b => PolicyModel {
            normalization: std_nist::DEFAULT_NORMALIZATION,
            min_len: std_nist::DEFAULT_PASSWORD_MIN_LEN,
            max_len: std_nist::DEFAULT_PASSWORD_MAX_LEN,
            algorithm: std_nist::DEFAULT_ALGORITHM,
            parameters: Seq::empty(),
            ref_salt: None,
            ref_hash: None,
            salt_len: std_nist::DEFAULT_SALT_LEN,
            length_calculation: std_nist::DEFAULT_LENGTH_CALCULATION,
            version: (DEFAULT_USER_VERSION + INTERNAL_VERSION) as usize,
        },
    }
}

/// The five names that describe the policy in a record differ from each
/// other.
pub proof fn lemma_policy_names()
    ensures
        "norm"@ != "ver"@ && "norm"@ != "pmin"@ && "norm"@ != "pmax"@ && "norm"@ != "len-calc"@,
        "ver"@ != "pmin"@ && "ver"@ != "pmax"@ && "ver"@ != "len-calc"@,
        "pmin"@ != "pmax"@ && "pmin"@ != "len-calc"@ && "pmax"@ != "len-calc"@,
{
    reveal_strlit("norm");
    reveal_strlit("ver");
    reveal_strlit("pmin");
    reveal_strlit("pmax");
    reveal_strlit("len-calc");
    assert("norm"@.len() == 4 && "ver"@.len() == 3 && "pmin"@.len() == 4 && "pmax"@.len() == 4
        && "len-calc"@.len() == 8);
    assert("norm"@[0] == 'n' && "pmin"@[0] == 'p' && "pmax"@[0] == 'p');
    assert("pmin"@[2] == 'i' && "pmax"@[2] == 'a');
}

} // verus!
