//! Base64 with the standard alphabet and without padding, as the storage
//! format writes salts and hashes.
//!
//! The encoding itself is done by the `base64` crate. What it produces is
//! stated here as two short functions, [`encode`] and [`decode`], and the
//! facts that the storage format relies on are proved of them.

use crate::text::bytes_as_chars;
use vstd::prelude::*;

verus! {

/// A character of the standard alphabet: `A-Z`, `a-z`, `0-9`, `+`, `/`.
pub open spec fn is_b64_char(c: char) -> bool {
    ('A' <= c && c <= 'Z') || ('a' <= c && c <= 'z') || ('0' <= c && c <= '9') || c == '+' || c
        == '/'
}

/// The character that stands for the six-bit value `v`.
pub open spec fn digit_char(v: int) -> char {
    if v < 26 {
        (v + 65) as char
    } else if v < 52 {
        (v + 71) as char
    } else if v < 62 {
        (v - 4) as char
    } else if v == 62 {
        '+'
    } else {
        '/'
    }
}

/// The six-bit value that an alphabet character stands for.
pub open spec fn char_digit(c: char) -> int {
    if 'A' <= c && c <= 'Z' {
        c as int - 65
    } else if 'a' <= c && c <= 'z' {
        c as int - 71
    } else if '0' <= c && c <= '9' {
        c as int + 4
    } else if c == '+' {
        62
    } else {
        63
    }
}

/// The unpadded encoding of `data`: three bytes become four characters; a
/// last group of one byte becomes two characters, one of two bytes three.
pub open spec fn encode(data: Seq<u8>) -> Seq<char>
    decreases data.len(),
{
    if data.len() == 0 {
        Seq::empty()
    } else {
        let a = data[0] as int;
        if data.len() == 1 {
            seq![digit_char(a / 4), digit_char(a % 4 * 16)]
        } else {
            let b = data[1] as int;
            if data.len() == 2 {
                seq![digit_char(a / 4), digit_char(a % 4 * 16 + b / 16), digit_char(b % 16 * 4)]
            } else {
                let c = data[2] as int;
                seq![
                    digit_char(a / 4),
                    digit_char(a % 4 * 16 + b / 16),
                    digit_char(b % 16 * 4 + c / 64),
                    digit_char(c % 64),
                ] + encode(data.skip(3))
            }
        }
    }
}

/// The bytes that `text` encodes, if it is the unpadded encoding of any:
/// every character is of the alphabet, the length is not one more than a
/// multiple of four, and the bits of the last character that belong to no
/// byte are zero.
pub open spec fn decode(text: Seq<char>) -> Option<Seq<u8>>
    decreases text.len(),
{
    if text.len() == 0 {
        Some(Seq::empty())
    } else if text.len() == 1 || !is_b64_char(text[0]) || !is_b64_char(text[1]) {
        None
    } else {
        let p = char_digit(text[0]);
        let q = char_digit(text[1]);
        if text.len() == 2 {
            if q % 16 == 0 {
                Some(seq![(p * 4 + q / 16) as u8])
            } else {
                None
            }
        } else if !is_b64_char(text[2]) {
            None
        } else {
            let r = char_digit(text[2]);
            if text.len() == 3 {
                if r % 4 == 0 {
                    Some(seq![(p * 4 + q / 16) as u8, (q % 16 * 16 + r / 4) as u8])
                } else {
                    None
                }
            } else if !is_b64_char(text[3]) {
                None
            } else {
                let s = char_digit(text[3]);
                match decode(text.skip(4)) {
                    Some(rest) => Some(
                        seq![
                            (p * 4 + q / 16) as u8,
                            (q % 16 * 16 + r / 4) as u8,
                            (r % 4 * 64 + s) as u8,
                        ] + rest,
                    ),
                    None => None,
                }
            }
        }
    }
}

/// The length of the encoding of `n` bytes.
pub open spec fn encoded_len(n: nat) -> nat {
    if n % 3 == 0 {
        n / 3 * 4
    } else {
        n / 3 * 4 + n % 3 + 1
    }
}

/// Every character of `text` is of the alphabet.
pub open spec fn all_b64(text: Seq<char>) -> bool {
    forall|i: int| 0 <= i < text.len() ==> is_b64_char(#[trigger] text[i])
}

/// A six-bit value and its character determine each other.
pub proof fn lemma_digit_char(v: int)
    requires
        0 <= v < 64,
    ensures
        is_b64_char(digit_char(v)),
        char_digit(digit_char(v)) == v,
{
}

/// An alphabet character has a six-bit value, which gives the character back.
pub proof fn lemma_char_digit(c: char)
    requires
        is_b64_char(c),
    ensures
        0 <= char_digit(c) < 64,
        digit_char(char_digit(c)) == c,
{
}

/// An encoding holds alphabet characters only, and is empty only for no data.
pub proof fn lemma_encode_alphabet(data: Seq<u8>)
    ensures
        all_b64(encode(data)),
        encode(data).len() == encoded_len(data.len()),
    decreases data.len(),
{
    if data.len() > 0 {
        let a = data[0] as int;
        lemma_digit_char(a / 4);
        lemma_digit_char(a % 4 * 16);
        if data.len() > 1 {
            let b = data[1] as int;
            lemma_digit_char(a % 4 * 16 + b / 16);
            lemma_digit_char(b % 16 * 4);
            if data.len() > 2 {
                let c = data[2] as int;
                lemma_digit_char(b % 16 * 4 + c / 64);
                lemma_digit_char(c % 64);
                lemma_encode_alphabet(data.skip(3));
            }
        }
    }
}

/// Decoding an encoding gives the data back.
pub proof fn lemma_decode_encode(data: Seq<u8>)
    ensures
        decode(encode(data)) == Some(data),
    decreases data.len(),
{
    let text = encode(data);
    if data.len() == 0 {
        assert(data =~= Seq::empty());
    } else {
        let a = data[0] as int;
        lemma_digit_char(a / 4);
        lemma_digit_char(a % 4 * 16);
        if data.len() == 1 {
            assert(data =~= seq![data[0]]);
        } else {
            let b = data[1] as int;
            lemma_digit_char(a % 4 * 16 + b / 16);
            lemma_digit_char(b % 16 * 4);
            if data.len() == 2 {
                assert(data =~= seq![data[0], data[1]]);
            } else {
                let c = data[2] as int;
                lemma_digit_char(b % 16 * 4 + c / 64);
                lemma_digit_char(c % 64);
                lemma_decode_encode(data.skip(3));
                assert(text.skip(4) =~= encode(data.skip(3)));
                assert(data =~= seq![data[0], data[1], data[2]] + data.skip(3));
            }
        }
    }
}

/// Only an encoding decodes: what `text` decodes to encodes to `text` again.
pub proof fn lemma_encode_decode(text: Seq<char>)
    requires
        decode(text) is Some,
    ensures
        encode(decode(text)->0) == text,
    decreases text.len(),
{
    if text.len() == 0 {
        assert(text =~= Seq::empty());
    } else {
        lemma_char_digit(text[0]);
        lemma_char_digit(text[1]);
        if text.len() == 2 {
            assert(text =~= seq![text[0], text[1]]);
        } else {
            lemma_char_digit(text[2]);
            if text.len() == 3 {
                assert(text =~= seq![text[0], text[1], text[2]]);
            } else {
                lemma_char_digit(text[3]);
                lemma_encode_decode(text.skip(4));
                let data = decode(text)->0;
                assert(data.skip(3) =~= decode(text.skip(4))->0);
                assert(text =~= seq![text[0], text[1], text[2], text[3]] + text.skip(4));
            }
        }
    }
}

/// Whether the encoding of `n` bytes has a length that fits in `usize`.
pub open spec fn encodable_len(n: nat) -> bool {
    n / 3 * 4 + 3 <= usize::MAX
}

/// `base64::encode_config` with `STANDARD_NO_PAD`: the unpadded encoding of
/// `data` in the standard alphabet. The crate panics when the length of the
/// encoding overflows, which the precondition excludes.
#[verifier::external_body]
pub(crate) fn to_b64(data: &[u8]) -> (r: String)
    requires
        encodable_len(data@.len()),
    ensures
        r@ == encode(data@),
{
    base64::encode_config(data, base64::STANDARD_NO_PAD)
}

/// `base64::decode_config` with `STANDARD_NO_PAD`, on text of the alphabet:
/// the bytes of which `text` is the unpadded encoding, or nothing where the
/// crate reports an invalid length or an invalid last symbol. The crate
/// panics when four times the length overflows, which the precondition
/// excludes.
#[verifier::external_body]
fn decode_no_pad(text: &[u8]) -> (r: Option<Vec<u8>>)
    requires
        text@.len() * 4 <= usize::MAX,
        all_b64(bytes_as_chars(text@)),
    ensures
        r is Some <==> decode(bytes_as_chars(text@)) is Some,
        r is Some ==> r->0@ == decode(bytes_as_chars(text@))->0,
{
    base64::decode_config(text, base64::STANDARD_NO_PAD).ok()
}

/// What a segment of the storage format holds: nothing when it is empty or
/// is no encoding, else the bytes that it encodes.
pub open spec fn segment_data(text: Seq<char>) -> Option<Seq<u8>> {
    if text.len() == 0 {
        None
    } else {
        decode(text)
    }
}

/// Reads one segment of alphabet characters.
pub fn from_b64(text: &[u8]) -> (r: Option<Vec<u8>>)
    requires
        text@.len() * 4 <= usize::MAX,
        all_b64(bytes_as_chars(text@)),
    ensures
        r is Some <==> segment_data(bytes_as_chars(text@)) is Some,
        r is Some ==> r->0@ == segment_data(bytes_as_chars(text@))->0,
{
    if text.len() == 0 {
        None
    } else {
        decode_no_pad(text)
    }
}

} // verus!
