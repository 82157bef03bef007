//! Pieces shared by the one-time-password generators.

use crate::text::string_from_utf8;
use vstd::prelude::*;
use vstd::slice::*;
use vstd::utf8::*;

verus! {

/// Hash function that a one-time-password generator runs its HMAC on.
#[derive(Clone, Copy, Debug, PartialEq, Eq)]
pub enum HashFunction {
    Sha1,
    Sha256,
    Sha512,
}

/// Copies `code` to the front of `dest` and ends it with a zero byte.
///
/// Bytes of `dest` after the terminator keep their value.
pub fn write_code(code: &Vec<u8>, dest: &mut [u8])
    requires
        code@.len() < old(dest)@.len(),
    ensures
        final(dest)@.len() == old(dest)@.len(),
        final(dest)@.subrange(0, code@.len() as int) == code@,
        final(dest)@[code@.len() as int] == 0u8,
        forall|j: int| code@.len() < j < old(dest)@.len() ==> final(dest)@[j] == old(dest)@[j],
{
    let len: usize = code.len();
    let mut i: usize = 0;
    while i < len
        invariant
            len == code@.len(),
            i <= len,
            len < dest@.len(),
            dest@.len() == old(dest)@.len(),
            forall|j: int| 0 <= j < i ==> dest@[j] == code@[j],
            forall|j: int| i <= j < dest@.len() ==> dest@[j] == old(dest)@[j],
        decreases len - i,
    {
        dest[i] = code[i];
        i += 1;
    }
    dest[len] = 0;
    assert(dest@.subrange(0, code@.len() as int) =~= code@);
}

/// The digits `0` to `9`: the symbols of a code whose caller names none.
pub open spec fn default_output_base() -> Seq<u8> {
    seq![0x30u8, 0x31u8, 0x32u8, 0x33u8, 0x34u8, 0x35u8, 0x36u8, 0x37u8, 0x38u8, 0x39u8]
}

/// The code that a caller hands over, as text.
///
/// Error 3 tells that there is no code, error 4 that its bytes are not
/// valid UTF-8.
pub fn get_code(code: Option<&[u8]>) -> (r: Result<String, i32>)
    ensures
        code is None ==> r == Err::<String, i32>(3),
        code is Some && !valid_utf8(code->0@) ==> r == Err::<String, i32>(4),
        code is Some && valid_utf8(code->0@) ==> r is Ok && r->Ok_0@ == decode_utf8(code->0@),
{
    match code {
        None => Err(3),
        Some(bytes) => match string_from_utf8(slice_to_vec(bytes)) {
            Some(text) => Ok(text),
            None => Err(4),
        },
    }
}

/// The symbols that a code is written in: those that the caller hands
/// over, which must not be empty (error 4), or the ten digits where the
/// caller hands over none.
pub fn get_output_base(output_base: Option<&[u8]>) -> (r: Result<Vec<u8>, i32>)
    ensures
        output_base is None ==> r is Ok && r->Ok_0@ == default_output_base(),
        output_base is Some && output_base->0@.len() == 0 ==> r == Err::<Vec<u8>, i32>(4),
        output_base is Some && output_base->0@.len() > 0 ==> r is Ok && r->Ok_0@
            == output_base->0@,
{
    match output_base {
        Some(base) => {
            if base.len() == 0 {
                Err(4)
            } else {
                Ok(slice_to_vec(base))
            }
        },
        None => {
            let digits: Vec<u8> = vec![
                0x30u8,
                0x31u8,
                0x32u8,
                0x33u8,
                0x34u8,
                0x35u8,
                0x36u8,
                0x37u8,
                0x38u8,
                0x39u8,
            ];
            assert(digits@ =~= default_output_base());
            Ok(digits)
        },
    }
}

/// The shared secret that a caller hands over: error 6 tells that there is
/// none, error 5 that it is empty.
pub fn get_key(key: Option<&[u8]>) -> (r: Result<Vec<u8>, i32>)
    ensures
        key is None ==> r == Err::<Vec<u8>, i32>(6),
        key is Some && key->0@.len() == 0 ==> r == Err::<Vec<u8>, i32>(5),
        key is Some && key->0@.len() > 0 ==> r is Ok && r->Ok_0@ == key->0@,
{
    match key {
        Some(bytes) => {
            if bytes.len() == 0 {
                Err(5)
            } else {
                Ok(slice_to_vec(bytes))
            }
        },
        None => Err(6),
    }
}

} // verus!
