//! Unsigned numbers in decimal, as parameter values hold them.

use crate::pass::params::Text;
use crate::text::{ascii_string, bytes_as_chars, is_ascii_bytes};
use vstd::prelude::*;
use vstd::string::*;
use vstd::utf8::*;

verus! {

/// One of `0` to `9`.
pub open spec fn is_digit(c: char) -> bool {
    '0' <= c && c <= '9'
}

/// Every character is a digit.
pub open spec fn all_digits(t: Text) -> bool {
    forall|i: int| 0 <= i < t.len() ==> is_digit(#[trigger] t[i])
}

/// The digit for a number below ten.
pub open spec fn decimal_digit(d: nat) -> char {
    (d + 48) as char
}

/// The number that a string of digits spells.
pub open spec fn digits_value(t: Text) -> nat
    decreases t.len(),
{
    if t.len() == 0 {
        0
    } else {
        digits_value(t.drop_last()) * 10 + (t.last() as int - 48) as nat
    }
}

/// The digits of a number text: the text without its `+` sign, if it has
/// one.
pub open spec fn unsigned_part(t: Text) -> Text {
    if t.len() > 0 && t[0] == '+' {
        t.skip(1)
    } else {
        t
    }
}

/// The number that a text spells: an optional `+`, then one digit or more.
/// Zeros may lead.
pub open spec fn decimal_value(t: Text) -> Option<nat> {
    let digits = unsigned_part(t);
    if digits.len() > 0 && all_digits(digits) {
        Some(digits_value(digits))
    } else {
        None
    }
}

/// The shortest text that spells `n`.
pub open spec fn decimal_text(n: nat) -> Text
    decreases n,
{
    if n < 10 {
        seq![decimal_digit(n)]
    } else {
        decimal_text(n / 10) + seq![decimal_digit(n % 10)]
    }
}

/// The digits read so far never spell more than all of them.
pub proof fn lemma_digits_prefix(t: Text, i: int)
    requires
        0 <= i <= t.len(),
        all_digits(t),
    ensures
        digits_value(t.take(i)) <= digits_value(t),
    decreases t.len() - i,
{
    if i < t.len() {
        lemma_digits_prefix(t, i + 1);
        assert(t.take(i + 1).drop_last() =~= t.take(i));
        assert(is_digit(t[i]));
    } else {
        assert(t.take(i) =~= t);
    }
}

/// A number is read back from its text, and the text is made of digits.
pub proof fn lemma_decimal_round_trip(n: nat)
    ensures
        decimal_value(decimal_text(n)) == Some(n),
        all_digits(decimal_text(n)),
        decimal_text(n).len() > 0,
    decreases n,
{
    let t = decimal_text(n);
    if n >= 10 {
        let front = decimal_text(n / 10);
        lemma_decimal_round_trip(n / 10);
        assert(t.drop_last() =~= front);
        assert(t[0] == front[0]);
        assert(is_digit(front[0]));
        assert forall|i: int| 0 <= i < t.len() implies is_digit(#[trigger] t[i]) by {
            if i < front.len() {
                assert(t[i] == front[i]);
            }
        }
        assert(unsigned_part(front) == front);
    } else {
        assert(t.drop_last() =~= Text::empty());
        assert(digits_value(t.drop_last()) == 0);
    }
    assert(unsigned_part(t) == t);
}

/// Reads a number that is at most `max`.
pub fn parse_decimal(s: &str, max: u64) -> (r: Option<u64>)
    ensures
        r is Some <==> decimal_value(s@) is Some && decimal_value(s@)->0 <= max,
        r is Some ==> r->0 == decimal_value(s@)->0,
{
    if !s.is_ascii() {
        proof {
            let i = choose|i: int| 0 <= i < s@.len() && !('\0' <= #[trigger] s@[i] <= '\u{7f}');
            if i > 0 || s@[0] != '+' {
                let d = unsigned_part(s@);
                let j = if d.len() == s@.len() {
                    i
                } else {
                    i - 1
                };
                assert(!is_digit(d[j]));
            }
        }
        return None;
    }
    let bytes = s.as_bytes();
    proof {
        is_ascii_chars_encode_utf8(s@);
    }
    let len = bytes.len();
    let start: usize = if len > 0 && bytes[0] == 0x2b {
        1
    } else {
        0
    };
    let ghost digits = unsigned_part(s@);
    assert(digits =~= s@.skip(start as int));
    if start == len {
        return None;
    }
    let mut value: u64 = 0;
    let mut i: usize = start;
    while i < len
        invariant
            start <= i <= len,
            len == s@.len(),
            len == bytes@.len(),
            digits == s@.skip(start as int),
            digits == unsigned_part(s@),
            forall|j: int| 0 <= j < len ==> s@[j] as u8 == #[trigger] bytes@[j],
            is_ascii_chars(s@),
            all_digits(digits.take(i - start)),
            value == digits_value(digits.take(i - start)),
            value <= max,
        decreases len - i,
    {
        let b = bytes[i];
        let ghost c = s@[i as int];
        assert(c as u8 == b);
        assert('\0' <= c <= '\u{7f}');
        if b < 0x30 || b > 0x39 {
            assert(digits[i - start] == c);
            assert(!is_digit(c));
            return None;
        }
        let d: u64 = (b - 0x30) as u64;
        proof {
            let next = digits.take(i - start + 1);
            assert(next.drop_last() =~= digits.take(i - start));
            assert(next.last() == c);
            assert forall|j: int| 0 <= j < next.len() implies is_digit(#[trigger] next[j]) by {
                if j < i - start {
                    assert(next[j] == digits.take(i - start)[j]);
                }
            }
        }
        if d > max || value > (max - d) / 10 {
            proof {
                let next = digits.take(i - start + 1);
                assert(digits_value(next) > max);
                if all_digits(digits) {
                    lemma_digits_prefix(digits, i - start + 1);
                }
            }
            return None;
        }
        value = value * 10 + d;
        i += 1;
    }
    assert(digits.take(i - start) =~= digits);
    Some(value)
}

/// Reads a `usize`: what `str::parse::<usize>` accepts, with the same value.
pub fn parse_usize(s: &str) -> (r: Option<usize>)
    ensures
        r is Some <==> decimal_value(s@) is Some && decimal_value(s@)->0 <= usize::MAX,
        r is Some ==> r->0 == decimal_value(s@)->0,
{
    match parse_decimal(s, usize::MAX as u64) {
        Some(v) => Some(v as usize),
        None => None,
    }
}

/// Reads a `u32`: what `str::parse::<u32>` accepts, with the same value.
pub fn parse_u32(s: &str) -> (r: Option<u32>)
    ensures
        r is Some <==> decimal_value(s@) is Some && decimal_value(s@)->0 <= u32::MAX,
        r is Some ==> r->0 == decimal_value(s@)->0,
{
    match parse_decimal(s, u32::MAX as u64) {
        Some(v) => Some(v as u32),
        None => None,
    }
}

/// Writes a number in decimal.
pub fn decimal_string(n: u64) -> (r: String)
    ensures
        r@ == decimal_text(n as nat),
{
    let mut digits: Vec<u8> = Vec::new();
    let mut m: u64 = n;
    while m >= 10
        invariant
            decimal_text(n as nat) == decimal_text(m as nat) + bytes_as_chars(digits@),
            is_ascii_bytes(digits@),
        decreases m,
    {
        let ghost before = digits@;
        let d: u8 = (m % 10) as u8;
        digits.insert(0, 0x30 + d);
        proof {
            assert(bytes_as_chars(digits@) =~= seq![decimal_digit((m % 10) as nat)]
                + bytes_as_chars(before));
            assert(decimal_text(m as nat) == decimal_text((m / 10) as nat) + seq![
                decimal_digit((m % 10) as nat),
            ]);
            assert(decimal_text(n as nat) =~= decimal_text((m / 10) as nat) + bytes_as_chars(
                digits@,
            ));
            assert forall|j: int| 0 <= j < digits@.len() implies #[trigger] digits@[j] < 128 by {
                if j > 0 {
                    assert(digits@[j] == before[j - 1]);
                }
            }
        }
        m = m / 10;
    }
    let ghost before = digits@;
    digits.insert(0, 0x30 + (m as u8));
    proof {
        assert(bytes_as_chars(digits@) =~= seq![decimal_digit(m as nat)] + bytes_as_chars(before));
        assert forall|j: int| 0 <= j < digits@.len() implies #[trigger] digits@[j] < 128 by {
            if j > 0 {
                assert(digits@[j] == before[j - 1]);
            }
        }
        assert(digits@.subrange(0, digits@.len() as int) =~= digits@);
    }
    ascii_string(digits.as_slice(), 0, digits.len())
}

} // verus!
