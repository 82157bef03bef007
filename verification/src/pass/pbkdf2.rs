//! The PBKDF2 hashing function and its parameters.
//!
//! The parameters are `iter`, the number of iterations, and `hash`, the hash
//! function that HMAC runs on. The derivation itself is done by the `pbkdf2`
//! crate, and the hash is as long as the output of the hash function.

use crate::pass::argon2::{lemma_decimal_is_value, lemma_ranged_text, parse_ranged, ranged};
use crate::pass::phc::{all_in_class, CharClass};
use crate::pass::round_trip::{valid_pair, valid_pairs};
use crate::pass::decimal::{decimal_string, decimal_text};
use crate::pass::params::{distinct_keys, lemma_put_fresh, Pairs, ParamMap, Text};
use crate::pass::{lemma_norm_text, norm_string, norm_text, ErrorCode, Normalization};
use crate::text::str_eq;
use vstd::prelude::*;
use vstd::string::*;

verus! {

/// The least length of a salt, in bytes.
pub const MIN_SALT_LENGTH: usize = 4;

/// The greatest length of a salt, in bytes.
pub const MAX_SALT_LENGTH: usize = 256;

/// The number of iterations.
pub const DEFAULT_ITER: u32 = 45000;

/// The least number of iterations.
pub const MIN_ITER: u32 = 10000;

/// The greatest number of iterations.
pub const MAX_ITER: u32 = 200000;

/// The hash functions that PBKDF2 can run HMAC on.
#[derive(Clone, Copy, Debug, PartialEq, Eq)]
pub enum PrfHash {
    Sha1,
    Sha224,
    Sha256,
    Sha384,
    Sha512,
    Sha512Trunc224,
    Sha512Trunc256,
    Keccak224,
    Keccak256,
    Keccak384,
    Keccak512,
    Sha3_224,
    Sha3_256,
    Sha3_384,
    Sha3_512,
}

/// The name of a hash function in a record.
pub open spec fn prf_text(hash: PrfHash) -> Text {
    match hash {
        PrfHash::Sha1 => "sha1"@,
        PrfHash::Sha224 => "sha224"@,
        PrfHash::Sha256 => "sha256"@,
        PrfHash::Sha384 => "sha384"@,
        PrfHash::Sha512 => "sha512"@,
        PrfHash::Sha512Trunc224 => "sha512t224"@,
        PrfHash::Sha512Trunc256 => "sha512t256"@,
        PrfHash::Keccak224 => "keccak224"@,
        PrfHash::Keccak256 => "keccak256"@,
        PrfHash::Keccak384 => "keccak384"@,
        PrfHash::Keccak512 => "keccak512"@,
        PrfHash::Sha3_224 => "sha3-224"@,
        PrfHash::Sha3_256 => "sha3-256"@,
        PrfHash::Sha3_384 => "sha3-384"@,
        PrfHash::Sha3_512 => "sha3-512"@,
    }
}

/// The hash function that a record names, if the name is known.
pub open spec fn prf_from_text(name: Text) -> Option<PrfHash> {
    if name == "sha1"@ {
        Some(PrfHash::Sha1)
    }     else if name == "sha224"@ {
        Some(PrfHash::Sha224)
    }     else if name == "sha256"@ {
        Some(PrfHash::Sha256)
    }     else if name == "sha384"@ {
        Some(PrfHash::Sha384)
    }     else if name == "sha512"@ {
        Some(PrfHash::Sha512)
    }     else if name == "sha512t224"@ {
        Some(PrfHash::Sha512Trunc224)
    }     else if name == "sha512t256"@ {
        Some(PrfHash::Sha512Trunc256)
    }     else if name == "keccak224"@ {
        Some(PrfHash::Keccak224)
    }     else if name == "keccak256"@ {
        Some(PrfHash::Keccak256)
    }     else if name == "keccak384"@ {
        Some(PrfHash::Keccak384)
    }     else if name == "keccak512"@ {
        Some(PrfHash::Keccak512)
    }     else if name == "sha3-224"@ {
        Some(PrfHash::Sha3_224)
    }     else if name == "sha3-256"@ {
        Some(PrfHash::Sha3_256)
    }     else if name == "sha3-384"@ {
        Some(PrfHash::Sha3_384)
    }     else if name == "sha3-512"@ {
        Some(PrfHash::Sha3_512)
    } else {
        None
    }
}

/// The length in bytes of the output of a hash function, which is the
/// length of the hash that PBKDF2 is asked for.
pub open spec fn digest_len(hash: PrfHash) -> usize {
    match hash {
        PrfHash::Sha1 => 20,
        PrfHash::Sha224 => 28,
        PrfHash::Sha256 => 32,
        PrfHash::Sha384 => 48,
        PrfHash::Sha512 => 64,
        PrfHash::Sha512Trunc224 => 28,
        PrfHash::Sha512Trunc256 => 32,
        PrfHash::Keccak224 => 28,
        PrfHash::Keccak256 => 32,
        PrfHash::Keccak384 => 48,
        PrfHash::Keccak512 => 64,
        PrfHash::Sha3_224 => 28,
        PrfHash::Sha3_256 => 32,
        PrfHash::Sha3_384 => 48,
        PrfHash::Sha3_512 => 64,
    }
}

/// PBKDF2 with HMAC-SHA-1: the key of `len` bytes that is derived from
/// `password` and `salt` in `iter` iterations.
pub uninterp spec fn pbkdf2_sha1_output(
    password: Seq<u8>,
    salt: Seq<u8>,
    iter: usize,
    len: usize,
) -> Seq<u8>;

/// PBKDF2 with HMAC-SHA-224: the key of `len` bytes that is derived from
/// `password` and `salt` in `iter` iterations.
pub uninterp spec fn pbkdf2_sha224_output(
    password: Seq<u8>,
    salt: Seq<u8>,
    iter: usize,
    len: usize,
) -> Seq<u8>;

/// PBKDF2 with HMAC-SHA-256: the key of `len` bytes that is derived from
/// `password` and `salt` in `iter` iterations.
pub uninterp spec fn pbkdf2_sha256_output(
    password: Seq<u8>,
    salt: Seq<u8>,
    iter: usize,
    len: usize,
) -> Seq<u8>;

/// PBKDF2 with HMAC-SHA-384: the key of `len` bytes that is derived from
/// `password` and `salt` in `iter` iterations.
pub uninterp spec fn pbkdf2_sha384_output(
    password: Seq<u8>,
    salt: Seq<u8>,
    iter: usize,
    len: usize,
) -> Seq<u8>;

/// PBKDF2 with HMAC-SHA-512: the key of `len` bytes that is derived from
/// `password` and `salt` in `iter` iterations.
pub uninterp spec fn pbkdf2_sha512_output(
    password: Seq<u8>,
    salt: Seq<u8>,
    iter: usize,
    len: usize,
) -> Seq<u8>;

/// PBKDF2 with HMAC-SHA-512/224: the key of `len` bytes that is derived from
/// `password` and `salt` in `iter` iterations.
pub uninterp spec fn pbkdf2_sha512t224_output(
    password: Seq<u8>,
    salt: Seq<u8>,
    iter: usize,
    len: usize,
) -> Seq<u8>;

/// PBKDF2 with HMAC-SHA-512/256: the key of `len` bytes that is derived from
/// `password` and `salt` in `iter` iterations.
pub uninterp spec fn pbkdf2_sha512t256_output(
    password: Seq<u8>,
    salt: Seq<u8>,
    iter: usize,
    len: usize,
) -> Seq<u8>;

/// PBKDF2 with HMAC-Keccak-224: the key of `len` bytes that is derived from
/// `password` and `salt` in `iter` iterations.
pub uninterp spec fn pbkdf2_keccak224_output(
    password: Seq<u8>,
    salt: Seq<u8>,
    iter: usize,
    len: usize,
) -> Seq<u8>;

/// PBKDF2 with HMAC-Keccak-256: the key of `len` bytes that is derived from
/// `password` and `salt` in `iter` iterations.
pub uninterp spec fn pbkdf2_keccak256_output(
    password: Seq<u8>,
    salt: Seq<u8>,
    iter: usize,
    len: usize,
) -> Seq<u8>;

/// PBKDF2 with HMAC-Keccak-384: the key of `len` bytes that is derived from
/// `password` and `salt` in `iter` iterations.
pub uninterp spec fn pbkdf2_keccak384_output(
    password: Seq<u8>,
    salt: Seq<u8>,
    iter: usize,
    len: usize,
) -> Seq<u8>;

/// PBKDF2 with HMAC-Keccak-512: the key of `len` bytes that is derived from
/// `password` and `salt` in `iter` iterations.
pub uninterp spec fn pbkdf2_keccak512_output(
    password: Seq<u8>,
    salt: Seq<u8>,
    iter: usize,
    len: usize,
) -> Seq<u8>;

/// PBKDF2 with HMAC-SHA3-224: the key of `len` bytes that is derived from
/// `password` and `salt` in `iter` iterations.
pub uninterp spec fn pbkdf2_sha3_224_output(
    password: Seq<u8>,
    salt: Seq<u8>,
    iter: usize,
    len: usize,
) -> Seq<u8>;

/// PBKDF2 with HMAC-SHA3-256: the key of `len` bytes that is derived from
/// `password` and `salt` in `iter` iterations.
pub uninterp spec fn pbkdf2_sha3_256_output(
    password: Seq<u8>,
    salt: Seq<u8>,
    iter: usize,
    len: usize,
) -> Seq<u8>;

/// PBKDF2 with HMAC-SHA3-384: the key of `len` bytes that is derived from
/// `password` and `salt` in `iter` iterations.
pub uninterp spec fn pbkdf2_sha3_384_output(
    password: Seq<u8>,
    salt: Seq<u8>,
    iter: usize,
    len: usize,
) -> Seq<u8>;

/// PBKDF2 with HMAC-SHA3-512: the key of `len` bytes that is derived from
/// `password` and `salt` in `iter` iterations.
pub uninterp spec fn pbkdf2_sha3_512_output(
    password: Seq<u8>,
    salt: Seq<u8>,
    iter: usize,
    len: usize,
) -> Seq<u8>;

/// `pbkdf2::pbkdf2` with `Hmac<Sha1>` on a buffer of `len` bytes: the
/// derived key, which fills the buffer.
#[verifier::external_body]
fn pbkdf2_sha1(password: &[u8], salt: &[u8], iter: usize, len: usize) -> (r: Vec<u8>)
    ensures
        r@ == pbkdf2_sha1_output(password@, salt@, iter, len),
        r@.len() == len,
{
    let mut out = vec![0u8; len];
    pbkdf2::pbkdf2::<hmac::Hmac<sha1::Sha1>>(password, salt, iter, &mut out);
    out
}

/// `pbkdf2::pbkdf2` with `Hmac<Sha224>` on a buffer of `len` bytes: the
/// derived key, which fills the buffer.
#[verifier::external_body]
fn pbkdf2_sha224(password: &[u8], salt: &[u8], iter: usize, len: usize) -> (r: Vec<u8>)
    ensures
        r@ == pbkdf2_sha224_output(password@, salt@, iter, len),
        r@.len() == len,
{
    let mut out = vec![0u8; len];
    pbkdf2::pbkdf2::<hmac::Hmac<sha2::Sha224>>(password, salt, iter, &mut out);
    out
}

/// `pbkdf2::pbkdf2` with `Hmac<Sha256>` on a buffer of `len` bytes: the
/// derived key, which fills the buffer.
#[verifier::external_body]
fn pbkdf2_sha256(password: &[u8], salt: &[u8], iter: usize, len: usize) -> (r: Vec<u8>)
    ensures
        r@ == pbkdf2_sha256_output(password@, salt@, iter, len),
        r@.len() == len,
{
    let mut out = vec![0u8; len];
    pbkdf2::pbkdf2::<hmac::Hmac<sha2::Sha256>>(password, salt, iter, &mut out);
    out
}

/// `pbkdf2::pbkdf2` with `Hmac<Sha384>` on a buffer of `len` bytes: the
/// derived key, which fills the buffer.
#[verifier::external_body]
fn pbkdf2_sha384(password: &[u8], salt: &[u8], iter: usize, len: usize) -> (r: Vec<u8>)
    ensures
        r@ == pbkdf2_sha384_output(password@, salt@, iter, len),
        r@.len() == len,
{
    let mut out = vec![0u8; len];
    pbkdf2::pbkdf2::<hmac::Hmac<sha2::Sha384>>(password, salt, iter, &mut out);
    out
}

/// `pbkdf2::pbkdf2` with `Hmac<Sha512>` on a buffer of `len` bytes: the
/// derived key, which fills the buffer.
#[verifier::external_body]
fn pbkdf2_sha512(password: &[u8], salt: &[u8], iter: usize, len: usize) -> (r: Vec<u8>)
    ensures
        r@ == pbkdf2_sha512_output(password@, salt@, iter, len),
        r@.len() == len,
{
    let mut out = vec![0u8; len];
    pbkdf2::pbkdf2::<hmac::Hmac<sha2::Sha512>>(password, salt, iter, &mut out);
    out
}

/// `pbkdf2::pbkdf2` with `Hmac<Sha512Trunc224>` on a buffer of `len` bytes: the
/// derived key, which fills the buffer.
#[verifier::external_body]
fn pbkdf2_sha512t224(password: &[u8], salt: &[u8], iter: usize, len: usize) -> (r: Vec<u8>)
    ensures
        r@ == pbkdf2_sha512t224_output(password@, salt@, iter, len),
        r@.len() == len,
{
    let mut out = vec![0u8; len];
    pbkdf2::pbkdf2::<hmac::Hmac<sha2::Sha512Trunc224>>(password, salt, iter, &mut out);
    out
}

/// `pbkdf2::pbkdf2` with `Hmac<Sha512Trunc256>` on a buffer of `len` bytes: the
/// derived key, which fills the buffer.
#[verifier::external_body]
fn pbkdf2_sha512t256(password: &[u8], salt: &[u8], iter: usize, len: usize) -> (r: Vec<u8>)
    ensures
        r@ == pbkdf2_sha512t256_output(password@, salt@, iter, len),
        r@.len() == len,
{
    let mut out = vec![0u8; len];
    pbkdf2::pbkdf2::<hmac::Hmac<sha2::Sha512Trunc256>>(password, salt, iter, &mut out);
    out
}

/// `pbkdf2::pbkdf2` with `Hmac<Keccak224>` on a buffer of `len` bytes: the
/// derived key, which fills the buffer.
#[verifier::external_body]
fn pbkdf2_keccak224(password: &[u8], salt: &[u8], iter: usize, len: usize) -> (r: Vec<u8>)
    ensures
        r@ == pbkdf2_keccak224_output(password@, salt@, iter, len),
        r@.len() == len,
{
    let mut out = vec![0u8; len];
    pbkdf2::pbkdf2::<hmac::Hmac<sha3::Keccak224>>(password, salt, iter, &mut out);
    out
}

/// `pbkdf2::pbkdf2` with `Hmac<Keccak256>` on a buffer of `len` bytes: the
/// derived key, which fills the buffer.
#[verifier::external_body]
fn pbkdf2_keccak256(password: &[u8], salt: &[u8], iter: usize, len: usize) -> (r: Vec<u8>)
    ensures
        r@ == pbkdf2_keccak256_output(password@, salt@, iter, len),
        r@.len() == len,
{
    let mut out = vec![0u8; len];
    pbkdf2::pbkdf2::<hmac::Hmac<sha3::Keccak256>>(password, salt, iter, &mut out);
    out
}

/// `pbkdf2::pbkdf2` with `Hmac<Keccak384>` on a buffer of `len` bytes: the
/// derived key, which fills the buffer.
#[verifier::external_body]
fn pbkdf2_keccak384(password: &[u8], salt: &[u8], iter: usize, len: usize) -> (r: Vec<u8>)
    ensures
        r@ == pbkdf2_keccak384_output(password@, salt@, iter, len),
        r@.len() == len,
{
    let mut out = vec![0u8; len];
    pbkdf2::pbkdf2::<hmac::Hmac<sha3::Keccak384>>(password, salt, iter, &mut out);
    out
}

/// `pbkdf2::pbkdf2` with `Hmac<Keccak512>` on a buffer of `len` bytes: the
/// derived key, which fills the buffer.
#[verifier::external_body]
fn pbkdf2_keccak512(password: &[u8], salt: &[u8], iter: usize, len: usize) -> (r: Vec<u8>)
    ensures
        r@ == pbkdf2_keccak512_output(password@, salt@, iter, len),
        r@.len() == len,
{
    let mut out = vec![0u8; len];
    pbkdf2::pbkdf2::<hmac::Hmac<sha3::Keccak512>>(password, salt, iter, &mut out);
    out
}

/// `pbkdf2::pbkdf2` with `Hmac<Sha3_224>` on a buffer of `len` bytes: the
/// derived key, which fills the buffer.
#[verifier::external_body]
fn pbkdf2_sha3_224(password: &[u8], salt: &[u8], iter: usize, len: usize) -> (r: Vec<u8>)
    ensures
        r@ == pbkdf2_sha3_224_output(password@, salt@, iter, len),
        r@.len() == len,
{
    let mut out = vec![0u8; len];
    pbkdf2::pbkdf2::<hmac::Hmac<sha3::Sha3_224>>(password, salt, iter, &mut out);
    out
}

/// `pbkdf2::pbkdf2` with `Hmac<Sha3_256>` on a buffer of `len` bytes: the
/// derived key, which fills the buffer.
#[verifier::external_body]
fn pbkdf2_sha3_256(password: &[u8], salt: &[u8], iter: usize, len: usize) -> (r: Vec<u8>)
    ensures
        r@ == pbkdf2_sha3_256_output(password@, salt@, iter, len),
        r@.len() == len,
{
    let mut out = vec![0u8; len];
    pbkdf2::pbkdf2::<hmac::Hmac<sha3::Sha3_256>>(password, salt, iter, &mut out);
    out
}

/// `pbkdf2::pbkdf2` with `Hmac<Sha3_384>` on a buffer of `len` bytes: the
/// derived key, which fills the buffer.
#[verifier::external_body]
fn pbkdf2_sha3_384(password: &[u8], salt: &[u8], iter: usize, len: usize) -> (r: Vec<u8>)
    ensures
        r@ == pbkdf2_sha3_384_output(password@, salt@, iter, len),
        r@.len() == len,
{
    let mut out = vec![0u8; len];
    pbkdf2::pbkdf2::<hmac::Hmac<sha3::Sha3_384>>(password, salt, iter, &mut out);
    out
}

/// `pbkdf2::pbkdf2` with `Hmac<Sha3_512>` on a buffer of `len` bytes: the
/// derived key, which fills the buffer.
#[verifier::external_body]
fn pbkdf2_sha3_512(password: &[u8], salt: &[u8], iter: usize, len: usize) -> (r: Vec<u8>)
    ensures
        r@ == pbkdf2_sha3_512_output(password@, salt@, iter, len),
        r@.len() == len,
{
    let mut out = vec![0u8; len];
    pbkdf2::pbkdf2::<hmac::Hmac<sha3::Sha3_512>>(password, salt, iter, &mut out);
    out
}

/// The settings of a PBKDF2 hashing function.
pub struct Pbkdf2Config {
    pub hash_function: PrfHash,
    pub nb_iter: u32,
    pub salt: Seq<u8>,
    pub norm: Normalization,
}

/// A PBKDF2 hashing function.
pub struct Pbkdf2Hash {
    hash_function: PrfHash,
    nb_iter: u32,
    salt: Vec<u8>,
    norm: Normalization,
}

impl View for Pbkdf2Hash {
    type V = Pbkdf2Config;

    closed spec fn view(&self) -> Pbkdf2Config {
        Pbkdf2Config {
            hash_function: self.hash_function,
            nb_iter: self.nb_iter,
            salt: self.salt@,
            norm: self.norm,
        }
    }
}

/// Settings that the setters can reach: the number of iterations in its
/// range, and a salt of at most 256 bytes.
pub open spec fn pbkdf2_in_range(c: Pbkdf2Config) -> bool {
    &&& MIN_ITER <= c.nb_iter <= MAX_ITER
    &&& c.salt.len() <= MAX_SALT_LENGTH
}

/// The settings of a new function: the defaults, and no salt yet.
pub open spec fn pbkdf2_default() -> Pbkdf2Config {
    Pbkdf2Config {
        hash_function: PrfHash::Sha512,
        nb_iter: DEFAULT_ITER,
        salt: Seq::empty(),
        norm: Normalization::Nfkc,
    }
}

/// The settings after the parameter `name` is set to `value`, or nothing
/// where the name is unknown, the number of iterations is out of range or
/// the hash function is not known.
pub open spec fn pbkdf2_set(c: Pbkdf2Config, name: Text, value: Text) -> Option<Pbkdf2Config> {
    if name == "iter"@ {
        match ranged(value, MIN_ITER, MAX_ITER) {
            Some(v) => Some(Pbkdf2Config { nb_iter: v, ..c }),
            None => None,
        }
    } else if name == "hash"@ {
        match prf_from_text(value) {
            Some(h) => Some(Pbkdf2Config { hash_function: h, ..c }),
            None => None,
        }
    } else {
        None
    }
}

/// The parameters that describe the settings in a record.
pub open spec fn pbkdf2_params(c: Pbkdf2Config) -> Pairs {
    seq![
        ("norm"@, norm_text(c.norm)),
        ("iter"@, decimal_text(c.nb_iter as nat)),
        ("hash"@, prf_text(c.hash_function)),
    ]
}

/// The hash of `input` under the settings `c`.
pub open spec fn pbkdf2_hash(c: Pbkdf2Config, input: Seq<u8>) -> Seq<u8> {
    let n = c.nb_iter as usize;
    let len = digest_len(c.hash_function);
    match c.hash_function {
        PrfHash::Sha1 => pbkdf2_sha1_output(input, c.salt, n, len),
        PrfHash::Sha224 => pbkdf2_sha224_output(input, c.salt, n, len),
        PrfHash::Sha256 => pbkdf2_sha256_output(input, c.salt, n, len),
        PrfHash::Sha384 => pbkdf2_sha384_output(input, c.salt, n, len),
        PrfHash::Sha512 => pbkdf2_sha512_output(input, c.salt, n, len),
        PrfHash::Sha512Trunc224 => pbkdf2_sha512t224_output(input, c.salt, n, len),
        PrfHash::Sha512Trunc256 => pbkdf2_sha512t256_output(input, c.salt, n, len),
        PrfHash::Keccak224 => pbkdf2_keccak224_output(input, c.salt, n, len),
        PrfHash::Keccak256 => pbkdf2_keccak256_output(input, c.salt, n, len),
        PrfHash::Keccak384 => pbkdf2_keccak384_output(input, c.salt, n, len),
        PrfHash::Keccak512 => pbkdf2_keccak512_output(input, c.salt, n, len),
        PrfHash::Sha3_224 => pbkdf2_sha3_224_output(input, c.salt, n, len),
        PrfHash::Sha3_256 => pbkdf2_sha3_256_output(input, c.salt, n, len),
        PrfHash::Sha3_384 => pbkdf2_sha3_384_output(input, c.salt, n, len),
        PrfHash::Sha3_512 => pbkdf2_sha3_512_output(input, c.salt, n, len),
    }
}

/// The names of the parameters differ from each other.
pub proof fn lemma_pbkdf2_names()
    ensures
        "norm"@ != "iter"@ && "norm"@ != "hash"@ && "iter"@ != "hash"@,
{
    reveal_strlit("norm");
    reveal_strlit("iter");
    reveal_strlit("hash");
    assert("norm"@[0] == 'n' && "iter"@[0] == 'i' && "hash"@[0] == 'h');
}

/// The name of a hash function is a parameter value, and names the hash
/// function.
pub proof fn lemma_prf_text(hash: PrfHash)
    ensures
        prf_from_text(prf_text(hash)) == Some(hash),
        prf_text(hash).len() > 0,
        all_in_class(CharClass::ParamValue, prf_text(hash)),
{
    reveal_strlit("sha1");
    reveal_strlit("sha224");
    reveal_strlit("sha256");
    reveal_strlit("sha384");
    reveal_strlit("sha512");
    reveal_strlit("sha512t224");
    reveal_strlit("sha512t256");
    reveal_strlit("keccak224");
    reveal_strlit("keccak256");
    reveal_strlit("keccak384");
    reveal_strlit("keccak512");
    reveal_strlit("sha3-224");
    reveal_strlit("sha3-256");
    reveal_strlit("sha3-384");
    reveal_strlit("sha3-512");
    assert("sha1"@.len() == 4 && "sha1"@[0] == 's' && "sha1"@[1] == 'h' && "sha1"@[2] == 'a'
        && "sha1"@[3] == '1');
    assert("sha224"@.len() == 6 && "sha224"@[0] == 's' && "sha224"@[1] == 'h'
        && "sha224"@[2] == 'a' && "sha224"@[3] == '2' && "sha224"@[4] == '2'
        && "sha224"@[5] == '4');
    assert("sha256"@.len() == 6 && "sha256"@[0] == 's' && "sha256"@[1] == 'h'
        && "sha256"@[2] == 'a' && "sha256"@[3] == '2' && "sha256"@[4] == '5'
        && "sha256"@[5] == '6');
    assert("sha384"@.len() == 6 && "sha384"@[0] == 's' && "sha384"@[1] == 'h'
        && "sha384"@[2] == 'a' && "sha384"@[3] == '3' && "sha384"@[4] == '8'
        && "sha384"@[5] == '4');
    assert("sha512"@.len() == 6 && "sha512"@[0] == 's' && "sha512"@[1] == 'h'
        && "sha512"@[2] == 'a' && "sha512"@[3] == '5' && "sha512"@[4] == '1'
        && "sha512"@[5] == '2');
    assert("sha512t224"@.len() == 10 && "sha512t224"@[0] == 's' && "sha512t224"@[1] == 'h'
        && "sha512t224"@[2] == 'a' && "sha512t224"@[3] == '5' && "sha512t224"@[4] == '1'
        && "sha512t224"@[5] == '2' && "sha512t224"@[6] == 't' && "sha512t224"@[7] == '2'
        && "sha512t224"@[8] == '2' && "sha512t224"@[9] == '4');
    assert("sha512t256"@.len() == 10 && "sha512t256"@[0] == 's' && "sha512t256"@[1] == 'h'
        && "sha512t256"@[2] == 'a' && "sha512t256"@[3] == '5' && "sha512t256"@[4] == '1'
        && "sha512t256"@[5] == '2' && "sha512t256"@[6] == 't' && "sha512t256"@[7] == '2'
        && "sha512t256"@[8] == '5' && "sha512t256"@[9] == '6');
    assert("keccak224"@.len() == 9 && "keccak224"@[0] == 'k' && "keccak224"@[1] == 'e'
        && "keccak224"@[2] == 'c' && "keccak224"@[3] == 'c' && "keccak224"@[4] == 'a'
        && "keccak224"@[5] == 'k' && "keccak224"@[6] == '2' && "keccak224"@[7] == '2'
        && "keccak224"@[8] == '4');
    assert("keccak256"@.len() == 9 && "keccak256"@[0] == 'k' && "keccak256"@[1] == 'e'
        && "keccak256"@[2] == 'c' && "keccak256"@[3] == 'c' && "keccak256"@[4] == 'a'
        && "keccak256"@[5] == 'k' && "keccak256"@[6] == '2' && "keccak256"@[7] == '5'
        && "keccak256"@[8] == '6');
    assert("keccak384"@.len() == 9 && "keccak384"@[0] == 'k' && "keccak384"@[1] == 'e'
        && "keccak384"@[2] == 'c' && "keccak384"@[3] == 'c' && "keccak384"@[4] == 'a'
        && "keccak384"@[5] == 'k' && "keccak384"@[6] == '3' && "keccak384"@[7] == '8'
        && "keccak384"@[8] == '4');
    assert("keccak512"@.len() == 9 && "keccak512"@[0] == 'k' && "keccak512"@[1] == 'e'
        && "keccak512"@[2] == 'c' && "keccak512"@[3] == 'c' && "keccak512"@[4] == 'a'
        && "keccak512"@[5] == 'k' && "keccak512"@[6] == '5' && "keccak512"@[7] == '1'
        && "keccak512"@[8] == '2');
    assert("sha3-224"@.len() == 8 && "sha3-224"@[0] == 's' && "sha3-224"@[1] == 'h'
        && "sha3-224"@[2] == 'a' && "sha3-224"@[3] == '3' && "sha3-224"@[4] == '-'
        && "sha3-224"@[5] == '2' && "sha3-224"@[6] == '2' && "sha3-224"@[7] == '4');
    assert("sha3-256"@.len() == 8 && "sha3-256"@[0] == 's' && "sha3-256"@[1] == 'h'
        && "sha3-256"@[2] == 'a' && "sha3-256"@[3] == '3' && "sha3-256"@[4] == '-'
        && "sha3-256"@[5] == '2' && "sha3-256"@[6] == '5' && "sha3-256"@[7] == '6');
    assert("sha3-384"@.len() == 8 && "sha3-384"@[0] == 's' && "sha3-384"@[1] == 'h'
        && "sha3-384"@[2] == 'a' && "sha3-384"@[3] == '3' && "sha3-384"@[4] == '-'
        && "sha3-384"@[5] == '3' && "sha3-384"@[6] == '8' && "sha3-384"@[7] == '4');
    assert("sha3-512"@.len() == 8 && "sha3-512"@[0] == 's' && "sha3-512"@[1] == 'h'
        && "sha3-512"@[2] == 'a' && "sha3-512"@[3] == '3' && "sha3-512"@[4] == '-'
        && "sha3-512"@[5] == '5' && "sha3-512"@[6] == '1' && "sha3-512"@[7] == '2');
    assert(all_in_class(CharClass::ParamValue, "sha1"@));
    assert(all_in_class(CharClass::ParamValue, "sha224"@));
    assert(all_in_class(CharClass::ParamValue, "sha256"@));
    assert(all_in_class(CharClass::ParamValue, "sha384"@));
    assert(all_in_class(CharClass::ParamValue, "sha512"@));
    assert(all_in_class(CharClass::ParamValue, "sha512t224"@));
    assert(all_in_class(CharClass::ParamValue, "sha512t256"@));
    assert(all_in_class(CharClass::ParamValue, "keccak224"@));
    assert(all_in_class(CharClass::ParamValue, "keccak256"@));
    assert(all_in_class(CharClass::ParamValue, "keccak384"@));
    assert(all_in_class(CharClass::ParamValue, "keccak512"@));
    assert(all_in_class(CharClass::ParamValue, "sha3-224"@));
    assert(all_in_class(CharClass::ParamValue, "sha3-256"@));
    assert(all_in_class(CharClass::ParamValue, "sha3-384"@));
    assert(all_in_class(CharClass::ParamValue, "sha3-512"@));
}

/// The parameters that describe settings are valid parameters with
/// distinct names.
pub proof fn lemma_pbkdf2_params_valid(c: Pbkdf2Config)
    ensures
        valid_pairs(pbkdf2_params(c)),
        distinct_keys(pbkdf2_params(c)),
{
    let p = pbkdf2_params(c);
    lemma_pbkdf2_names();
    lemma_norm_text(c.norm);
    lemma_decimal_is_value(c.nb_iter as nat);
    lemma_prf_text(c.hash_function);
    assert(valid_pair(p[0]) && valid_pair(p[1]) && valid_pair(p[2])) by {
        reveal_strlit("norm");
        reveal_strlit("iter");
        reveal_strlit("hash");
        assert(all_in_class(CharClass::ParamName, "norm"@) && "norm"@.len() > 0);
        assert(all_in_class(CharClass::ParamName, "iter"@) && "iter"@.len() > 0);
        assert(all_in_class(CharClass::ParamName, "hash"@) && "hash"@.len() > 0);
    }
}

/// Settings in range stay in range when a parameter is set.
pub proof fn lemma_pbkdf2_set_in_range(c: Pbkdf2Config, name: Text, value: Text)
    requires
        pbkdf2_in_range(c),
        pbkdf2_set(c, name, value) is Some,
    ensures
        pbkdf2_in_range(pbkdf2_set(c, name, value)->0),
        pbkdf2_set(c, name, value)->0.salt == c.salt,
        pbkdf2_set(c, name, value)->0.norm == c.norm,
{
}

/// Each parameter that describes settings in range is taken when it is
/// set, and changes its own setting only.
pub proof fn lemma_pbkdf2_set_own(cur: Pbkdf2Config, c: Pbkdf2Config)
    requires
        pbkdf2_in_range(c),
    ensures
        pbkdf2_set(cur, "iter"@, decimal_text(c.nb_iter as nat)) == Some(
            Pbkdf2Config { nb_iter: c.nb_iter, ..cur },
        ),
        pbkdf2_set(cur, "hash"@, prf_text(c.hash_function)) == Some(
            Pbkdf2Config { hash_function: c.hash_function, ..cur },
        ),
{
    lemma_pbkdf2_names();
    lemma_ranged_text(c.nb_iter, MIN_ITER, MAX_ITER);
    lemma_prf_text(c.hash_function);
}

/// The length in bytes of the output of a hash function.
pub fn output_len(hash: PrfHash) -> (r: usize)
    ensures
        r == digest_len(hash),
        20 <= r <= 64,
{
    match hash {
        PrfHash::Sha1 => 20,
        PrfHash::Sha224 => 28,
        PrfHash::Sha256 => 32,
        PrfHash::Sha384 => 48,
        PrfHash::Sha512 => 64,
        PrfHash::Sha512Trunc224 => 28,
        PrfHash::Sha512Trunc256 => 32,
        PrfHash::Keccak224 => 28,
        PrfHash::Keccak256 => 32,
        PrfHash::Keccak384 => 48,
        PrfHash::Keccak512 => 64,
        PrfHash::Sha3_224 => 28,
        PrfHash::Sha3_256 => 32,
        PrfHash::Sha3_384 => 48,
        PrfHash::Sha3_512 => 64,
    }
}

/// The name of a hash function in a record.
pub fn prf_string(hash: PrfHash) -> (r: String)
    ensures
        r@ == prf_text(hash),
{
    match hash {
        PrfHash::Sha1 => String::from_str("sha1"),
        PrfHash::Sha224 => String::from_str("sha224"),
        PrfHash::Sha256 => String::from_str("sha256"),
        PrfHash::Sha384 => String::from_str("sha384"),
        PrfHash::Sha512 => String::from_str("sha512"),
        PrfHash::Sha512Trunc224 => String::from_str("sha512t224"),
        PrfHash::Sha512Trunc256 => String::from_str("sha512t256"),
        PrfHash::Keccak224 => String::from_str("keccak224"),
        PrfHash::Keccak256 => String::from_str("keccak256"),
        PrfHash::Keccak384 => String::from_str("keccak384"),
        PrfHash::Keccak512 => String::from_str("keccak512"),
        PrfHash::Sha3_224 => String::from_str("sha3-224"),
        PrfHash::Sha3_256 => String::from_str("sha3-256"),
        PrfHash::Sha3_384 => String::from_str("sha3-384"),
        PrfHash::Sha3_512 => String::from_str("sha3-512"),
    }
}

/// Reads the name of a hash function.
pub fn prf_from_str(name: &str) -> (r: Option<PrfHash>)
    ensures
        r == prf_from_text(name@),
{
    if str_eq(name, "sha1") {
        Some(PrfHash::Sha1)
    }     else if str_eq(name, "sha224") {
        Some(PrfHash::Sha224)
    }     else if str_eq(name, "sha256") {
        Some(PrfHash::Sha256)
    }     else if str_eq(name, "sha384") {
        Some(PrfHash::Sha384)
    }     else if str_eq(name, "sha512") {
        Some(PrfHash::Sha512)
    }     else if str_eq(name, "sha512t224") {
        Some(PrfHash::Sha512Trunc224)
    }     else if str_eq(name, "sha512t256") {
        Some(PrfHash::Sha512Trunc256)
    }     else if str_eq(name, "keccak224") {
        Some(PrfHash::Keccak224)
    }     else if str_eq(name, "keccak256") {
        Some(PrfHash::Keccak256)
    }     else if str_eq(name, "keccak384") {
        Some(PrfHash::Keccak384)
    }     else if str_eq(name, "keccak512") {
        Some(PrfHash::Keccak512)
    }     else if str_eq(name, "sha3-224") {
        Some(PrfHash::Sha3_224)
    }     else if str_eq(name, "sha3-256") {
        Some(PrfHash::Sha3_256)
    }     else if str_eq(name, "sha3-384") {
        Some(PrfHash::Sha3_384)
    }     else if str_eq(name, "sha3-512") {
        Some(PrfHash::Sha3_512)
    } else {
        None
    }
}

impl Pbkdf2Hash {
    /// The invariant of the type: the settings are in range.
    #[verifier::type_invariant]
    pub open spec fn in_range(&self) -> bool {
        pbkdf2_in_range(self@)
    }

    /// A function with the default settings and no salt.
    pub fn new() -> (r: Pbkdf2Hash)
        ensures
            r@ == pbkdf2_default(),
    {
        Pbkdf2Hash {
            hash_function: PrfHash::Sha512,
            nb_iter: DEFAULT_ITER,
            salt: Vec::new(),
            norm: Normalization::Nfkc,
        }
    }

    /// The identifier of the algorithm in a record.
    pub fn get_id(&self) -> (r: String)
        ensures
            r@ == "pbkdf2"@,
    {
        String::from_str("pbkdf2")
    }

    /// The parameters that describe the settings in a record.
    pub fn get_parameters(&self) -> (r: ParamMap)
        ensures
            r@ == pbkdf2_params(self@),
    {
        let mut params = ParamMap::new();
        let ghost want = pbkdf2_params(self@);
        params.insert(String::from_str("norm"), norm_string(self.norm));
        assert(params@ =~= want.take(1));
        proof {
            assert(params@[0] == want[0]);
            lemma_pbkdf2_names();
            lemma_put_fresh(params@, "iter"@, want[1].1);
        }
        params.insert(String::from_str("iter"), decimal_string(self.nb_iter as u64));
        assert(params@ =~= want.take(2));
        proof {
            assert(params@[0] == want[0]);
            assert(params@[1] == want[1]);
            lemma_pbkdf2_names();
            lemma_put_fresh(params@, "hash"@, want[2].1);
        }
        params.insert(String::from_str("hash"), prf_string(self.hash_function));
        assert(params@ =~= want);
        params
    }

    /// Sets the parameter `name` to `value`.
    ///
    /// Fails, and changes nothing, where the name is neither `iter` nor
    /// `hash`, the number of iterations is out of range or the hash function
    /// is not known.
    pub fn set_parameter(&mut self, name: &str, value: &str) -> (r: Result<(), ErrorCode>)
        ensures
            pbkdf2_set(old(self)@, name@, value@) is Some ==> r is Ok,
            r is Ok ==> pbkdf2_set(old(self)@, name@, value@) == Some(final(self)@),
            r is Err ==> r == Err::<(), ErrorCode>(ErrorCode::InvalidPasswordFormat),
            r is Err ==> final(self)@ == old(self)@,
    {
        proof {
            use_type_invariant(&*self);
        }
        if str_eq(name, "iter") {
            match parse_ranged(value, MIN_ITER, MAX_ITER) {
                Some(v) => {
                    self.nb_iter = v;
                    Ok(())
                },
                None => Err(ErrorCode::InvalidPasswordFormat),
            }
        } else if str_eq(name, "hash") {
            match prf_from_str(value) {
                Some(h) => {
                    self.hash_function = h;
                    Ok(())
                },
                None => Err(ErrorCode::InvalidPasswordFormat),
            }
        } else {
            Err(ErrorCode::InvalidPasswordFormat)
        }
    }

    /// The salt.
    pub fn get_salt(&self) -> (r: Option<Vec<u8>>)
        ensures
            r is Some,
            r->0@ == self@.salt,
    {
        Some(self.salt.clone())
    }

    /// Sets the salt, which must have 4 to 256 bytes.
    pub fn set_salt(&mut self, salt: Vec<u8>) -> (r: Result<(), ErrorCode>)
        ensures
            r is Ok <==> MIN_SALT_LENGTH <= salt@.len() <= MAX_SALT_LENGTH,
            r is Ok ==> final(self)@ == (Pbkdf2Config { salt: salt@, ..old(self)@ }),
            r is Err ==> r == Err::<(), ErrorCode>(ErrorCode::InvalidPasswordFormat),
            r is Err ==> final(self)@ == old(self)@,
    {
        proof {
            use_type_invariant(&*self);
        }
        if salt.len() >= MIN_SALT_LENGTH && salt.len() <= MAX_SALT_LENGTH {
            self.salt = salt;
            Ok(())
        } else {
            Err(ErrorCode::InvalidPasswordFormat)
        }
    }

    /// Sets the normalization that the record will name.
    pub fn set_normalization(&mut self, norm: Normalization) -> (r: Result<(), ErrorCode>)
        ensures
            r is Ok,
            final(self)@ == (Pbkdf2Config { norm, ..old(self)@ }),
    {
        proof {
            use_type_invariant(&*self);
        }
        self.norm = norm;
        Ok(())
    }

    /// Hashes `input`.
    pub fn hash(&self, input: &[u8]) -> (r: Vec<u8>)
        ensures
            r@ == pbkdf2_hash(self@, input@),
            r@.len() == digest_len(self@.hash_function),
    {
        let n = self.nb_iter as usize;
        let len = output_len(self.hash_function);
        let salt = self.salt.as_slice();
        match self.hash_function {
            PrfHash::Sha1 => pbkdf2_sha1(input, salt, n, len),
            PrfHash::Sha224 => pbkdf2_sha224(input, salt, n, len),
            PrfHash::Sha256 => pbkdf2_sha256(input, salt, n, len),
            PrfHash::Sha384 => pbkdf2_sha384(input, salt, n, len),
            PrfHash::Sha512 => pbkdf2_sha512(input, salt, n, len),
            PrfHash::Sha512Trunc224 => pbkdf2_sha512t224(input, salt, n, len),
            PrfHash::Sha512Trunc256 => pbkdf2_sha512t256(input, salt, n, len),
            PrfHash::Keccak224 => pbkdf2_keccak224(input, salt, n, len),
            PrfHash::Keccak256 => pbkdf2_keccak256(input, salt, n, len),
            PrfHash::Keccak384 => pbkdf2_keccak384(input, salt, n, len),
            PrfHash::Keccak512 => pbkdf2_keccak512(input, salt, n, len),
            PrfHash::Sha3_224 => pbkdf2_sha3_224(input, salt, n, len),
            PrfHash::Sha3_256 => pbkdf2_sha3_256(input, salt, n, len),
            PrfHash::Sha3_384 => pbkdf2_sha3_384(input, salt, n, len),
            PrfHash::Sha3_512 => pbkdf2_sha3_512(input, salt, n, len),
        }
    }
}

} // verus!
