//! Comparison of two hashes through a keyed MAC.
//!
//! Two hashes are never compared byte by byte. Each is authenticated with
//! HMAC-SHA-512 under one key that is drawn for the occasion, and the two
//! codes are compared.

use crate::text::bytes_eq;
use vstd::prelude::*;

verus! {

/// The HMAC-SHA-512 code of `data` under `key`.
pub uninterp spec fn hmac_sha512_code(key: Seq<u8>, data: Seq<u8>) -> Seq<u8>;

/// `Hmac::<Sha512>`: a MAC made with `new_varkey`, fed `data` with `input`,
/// its code taken with `result().code()`. HMAC takes a key of any length, so
/// there always is a code; it has 64 bytes.
#[verifier::external_body]
fn hmac_sha512(key: &[u8], data: &[u8]) -> (r: Option<Vec<u8>>)
    ensures
        r is Some,
        r->0@ == hmac_sha512_code(key@, data@),
        r->0@.len() == 64,
{
    match <hmac::Hmac<sha2::Sha512> as hmac::Mac>::new_varkey(key) {
        Ok(mut mac) => {
            hmac::Mac::input(&mut mac, data);
            Some(hmac::Mac::result(mac).code().to_vec())
        },
        Err(_) => None,
    }
}

/// Whether two hashes get the same code under `key`.
pub open spec fn same_code(key: Seq<u8>, reference: Seq<u8>, candidate: Seq<u8>) -> bool {
    hmac_sha512_code(key, reference) == hmac_sha512_code(key, candidate)
}

/// The HMAC-SHA-512 code of `data` under `key`, from a MAC of its own. It
/// has 64 bytes.
pub fn mac_code(key: &[u8], data: &[u8]) -> (r: Option<Vec<u8>>)
    ensures
        r is Some,
        r->0@ == hmac_sha512_code(key@, data@),
        r->0@.len() == 64,
{
    hmac_sha512(key, data)
}

/// Compares a reference hash with a candidate through their codes under
/// `key`. Two MACs are made, one for each hash; a MAC that cannot be made
/// lets the comparison fail.
pub fn codes_match(key: &[u8], reference: &[u8], candidate: &[u8]) -> (r: bool)
    ensures
        r == same_code(key@, reference@, candidate@),
        reference@ == candidate@ ==> r,
{
    let ref_code = match mac_code(key, reference) {
        Some(code) => code,
        None => {
            return false;
        },
    };
    let pass_code = match mac_code(key, candidate) {
        Some(code) => code,
        None => {
            return false;
        },
    };
    bytes_eq(ref_code.as_slice(), pass_code.as_slice())
}

} // verus!
