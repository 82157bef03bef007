//! Fresh random bytes, for salts and one-time keys.

use vstd::prelude::*;

verus! {

/// `rand::fill` on a buffer of `n` bytes: `n` bytes from the thread's
/// generator. Nothing is claimed of their values.
#[verifier::external_body]
pub(crate) fn random_bytes(n: usize) -> (r: Vec<u8>)
    ensures
        r@.len() == n,
{
    let mut buffer = vec![0u8; n];
    rand::fill(&mut buffer[..]);
    buffer
}

} // verus!
