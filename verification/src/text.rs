//! Strings and the bytes that spell them.
//!
//! The storage format is plain ASCII, so most of the library reads text one
//! byte at a time while its contracts speak of characters. The functions here
//! connect the two views.

use vstd::prelude::*;
use vstd::slice::*;
use vstd::string::*;
use vstd::utf8::*;

verus! {

/// The text that `bytes` spell when every byte stands for the character with
/// the same code.
pub open spec fn bytes_as_chars(bytes: Seq<u8>) -> Seq<char> {
    Seq::new(bytes.len(), |i: int| bytes[i] as char)
}

/// Every byte is below 128.
pub open spec fn is_ascii_bytes(bytes: Seq<u8>) -> bool {
    forall|i: int| 0 <= i < bytes.len() ==> #[trigger] bytes[i] < 128
}

/// ASCII bytes are valid UTF-8 and decode to one character per byte.
pub proof fn lemma_ascii_bytes_decode(bytes: Seq<u8>)
    requires
        is_ascii_bytes(bytes),
    ensures
        valid_utf8(bytes),
        decode_utf8(bytes) == bytes_as_chars(bytes),
        is_ascii_chars(bytes_as_chars(bytes)),
{
    let chars = bytes_as_chars(bytes);
    assert(is_ascii_chars(chars)) by {
        assert forall|i: int| 0 <= i < chars.len() implies '\0' <= #[trigger] chars[i]
            <= '\u{7f}' by {
            assert(bytes[i] < 128);
        }
    }
    is_ascii_chars_encode_utf8(chars);
    assert(encode_utf8(chars) =~= bytes) by {
        assert forall|i: int| 0 <= i < bytes.len() implies encode_utf8(chars)[i] == bytes[i] by {
            assert(bytes[i] < 128);
            assert(chars[i] as u8 == bytes[i]);
        }
    }
    encode_utf8_valid_utf8(chars);
    encode_utf8_decode_utf8(chars);
}

/// The bytes of an ASCII string are its characters, one for one.
pub proof fn lemma_ascii_chars_encode(chars: Seq<char>)
    requires
        is_ascii_chars(chars),
    ensures
        is_ascii_bytes(encode_utf8(chars)),
        bytes_as_chars(encode_utf8(chars)) == chars,
{
    is_ascii_chars_encode_utf8(chars);
    let bytes = encode_utf8(chars);
    assert forall|i: int| 0 <= i < bytes.len() implies #[trigger] bytes[i] < 128 by {
        assert(chars[i] as u8 == bytes[i]);
    }
    assert(bytes_as_chars(bytes) =~= chars) by {
        assert forall|i: int| 0 <= i < chars.len() implies bytes_as_chars(bytes)[i]
            == chars[i] by {
            assert(chars[i] as u8 == bytes[i]);
        }
    }
}

/// `String::from_utf8`: the string that the bytes encode, if they are valid
/// UTF-8, and nothing otherwise.
#[verifier::external_body]
pub(crate) fn string_from_utf8(bytes: Vec<u8>) -> (r: Option<String>)
    ensures
        valid_utf8(bytes@) ==> r is Some && r->0@ == decode_utf8(bytes@),
        !valid_utf8(bytes@) ==> r is None,
{
    String::from_utf8(bytes).ok()
}

/// The string spelled by the ASCII bytes `bytes[from..to]`.
pub fn ascii_string(bytes: &[u8], from: usize, to: usize) -> (r: String)
    requires
        from <= to <= bytes@.len(),
        is_ascii_bytes(bytes@.subrange(from as int, to as int)),
    ensures
        r@ == bytes_as_chars(bytes@.subrange(from as int, to as int)),
{
    let part = slice_to_vec(slice_subrange(bytes, from, to));
    proof {
        lemma_ascii_bytes_decode(part@);
    }
    match string_from_utf8(part) {
        Some(s) => s,
        None => String::new(),
    }
}

/// Whether two byte strings are the same.
pub fn bytes_eq(a: &[u8], b: &[u8]) -> (r: bool)
    ensures
        r == (a@ == b@),
{
    if a.len() != b.len() {
        return false;
    }
    let mut i: usize = 0;
    while i < a.len()
        invariant
            a@.len() == b@.len(),
            i <= a@.len(),
            forall|j: int| 0 <= j < i ==> a@[j] == b@[j],
        decreases a@.len() - i,
    {
        if a[i] != b[i] {
            return false;
        }
        i += 1;
    }
    assert(a@ =~= b@);
    true
}

/// Whether two strings are the same text.
pub fn str_eq(a: &str, b: &str) -> (r: bool)
    ensures
        r == (a@ == b@),
{
    let r = bytes_eq(a.as_bytes(), b.as_bytes());
    proof {
        encode_utf8_decode_utf8(a@);
        encode_utf8_decode_utf8(b@);
    }
    r
}

} // verus!
