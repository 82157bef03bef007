//! The storage format: `$id$name=value,...$salt$hash`.
//!
//! A record names the algorithm, lists its parameters, and carries the salt
//! and the hash in unpadded base64. [`parse`] says which texts are records and
//! what they hold, [`serialize`] gives the canonical text of a record, and
//! [`PHCData::from_bytes`] and [`PHCData::to_string`] compute them.

use crate::pass::b64::{encodable_len, encode, from_b64, is_b64_char, segment_data, to_b64};
use crate::pass::params::{put, Pairs, ParamMap, Text};
use crate::text::{ascii_string, bytes_as_chars, is_ascii_bytes};
use vstd::prelude::*;
use vstd::slice::*;
use vstd::string::*;

verus! {

/// The kinds of characters that the parts of a record are made of.
#[derive(Clone, Copy, Debug, PartialEq, Eq)]
pub enum CharClass {
    /// An algorithm identifier: `a-z`, `0-9`, `-`.
    Id,
    /// A parameter name: `a-z`, `0-9`, `-`.
    ParamName,
    /// A parameter value: `A-Z`, `a-z`, `0-9`, `+`, `-`, `.`, `/`.
    ParamValue,
    /// Base64 data: `A-Z`, `a-z`, `0-9`, `+`, `/`.
    B64,
}

/// A character of an identifier or of a parameter name.
pub open spec fn is_name_char(c: char) -> bool {
    ('a' <= c && c <= 'z') || ('0' <= c && c <= '9') || c == '-'
}

/// A character of a parameter value.
pub open spec fn is_value_char(c: char) -> bool {
    ('A' <= c && c <= 'Z') || ('a' <= c && c <= 'z') || ('0' <= c && c <= '9') || c == '+' || c
        == '-' || c == '.' || c == '/'
}

/// Whether `c` is a character of the class `k`.
pub open spec fn in_class(k: CharClass, c: char) -> bool {
    match k {
        CharClass::Id => is_name_char(c),
        CharClass::ParamName => is_name_char(c),
        CharClass::ParamValue => is_value_char(c),
        CharClass::B64 => is_b64_char(c),
    }
}

/// Whether `t` holds characters of the class `k` only.
pub open spec fn all_in_class(k: CharClass, t: Text) -> bool {
    forall|i: int| 0 <= i < t.len() ==> in_class(k, #[trigger] t[i])
}

/// Whether the byte is a base64 character.
pub fn is_b64(chr: u8) -> (r: bool)
    ensures
        r == is_b64_char(chr as char),
{
    (chr >= 0x41 && chr <= 0x5a) || (chr >= 0x61 && chr <= 0x7a) || (chr >= 0x30 && chr <= 0x39)
        || chr == 0x2b || chr == 0x2f
}

/// Whether the byte is a character of an identifier.
pub fn is_id_char(chr: u8) -> (r: bool)
    ensures
        r == is_name_char(chr as char),
{
    (chr >= 0x61 && chr <= 0x7a) || (chr >= 0x30 && chr <= 0x39) || chr == 0x2d
}

/// Whether the byte is a character of a parameter name.
pub fn is_param_name_char(chr: u8) -> (r: bool)
    ensures
        r == is_name_char(chr as char),
{
    (chr >= 0x61 && chr <= 0x7a) || (chr >= 0x30 && chr <= 0x39) || chr == 0x2d
}

/// Whether the byte is a character of a parameter value.
pub fn is_param_value_char(chr: u8) -> (r: bool)
    ensures
        r == is_value_char(chr as char),
{
    (chr >= 0x41 && chr <= 0x5a) || (chr >= 0x61 && chr <= 0x7a) || (chr >= 0x30 && chr <= 0x39)
        || chr == 0x2b || chr == 0x2d || chr == 0x2e || chr == 0x2f
}

/// Whether the byte is a character of the class `k`.
fn class_has(k: CharClass, chr: u8) -> (r: bool)
    ensures
        r == in_class(k, chr as char),
        r ==> chr < 128,
{
    match k {
        CharClass::Id => is_id_char(chr),
        CharClass::ParamName => is_param_name_char(chr),
        CharClass::ParamValue => is_param_value_char(chr),
        CharClass::B64 => is_b64(chr),
    }
}

/// Where the longest run of characters of the class `k` that starts at
/// `from` ends.
pub open spec fn span_end(s: Text, k: CharClass, from: int) -> int
    decreases s.len() - from,
{
    if 0 <= from < s.len() && in_class(k, s[from]) {
        span_end(s, k, from + 1)
    } else {
        from
    }
}

/// A run ends inside the text, holds characters of its class only, and
/// cannot be made longer.
pub proof fn lemma_span(s: Text, k: CharClass, from: int)
    requires
        0 <= from <= s.len(),
    ensures
        from <= span_end(s, k, from) <= s.len(),
        all_in_class(k, s.subrange(from, span_end(s, k, from))),
        span_end(s, k, from) < s.len() ==> !in_class(k, s[span_end(s, k, from)]),
    decreases s.len() - from,
{
    if from < s.len() && in_class(k, s[from]) {
        lemma_span(s, k, from + 1);
        let end = span_end(s, k, from);
        assert forall|i: int| 0 <= i < end - from implies in_class(
            k,
            #[trigger] s.subrange(from, end)[i],
        ) by {
            if i > 0 {
                assert(s.subrange(from, end)[i] == s.subrange(from + 1, end)[i - 1]);
            }
        }
    }
}

/// A stretch of characters of the class `k` that is followed by none of them
/// is the run that starts where it starts.
pub proof fn lemma_span_is(s: Text, k: CharClass, from: int, to: int)
    requires
        0 <= from <= to <= s.len(),
        all_in_class(k, s.subrange(from, to)),
        to < s.len() ==> !in_class(k, s[to]),
    ensures
        span_end(s, k, from) == to,
    decreases to - from,
{
    if from < to {
        assert(s[from] == s.subrange(from, to)[0]);
        assert forall|i: int| 0 <= i < to - (from + 1) implies in_class(
            k,
            #[trigger] s.subrange(from + 1, to)[i],
        ) by {
            assert(s.subrange(from + 1, to)[i] == s.subrange(from, to)[i + 1]);
        }
        lemma_span_is(s, k, from + 1, to);
    }
}

/// Finds the end of the run of the class `k` that starts at `from`.
fn scan(s: &[u8], k: CharClass, from: usize) -> (end: usize)
    requires
        from <= s@.len(),
    ensures
        end == span_end(bytes_as_chars(s@), k, from as int),
        from <= end <= s@.len(),
        is_ascii_bytes(s@.subrange(from as int, end as int)),
{
    let ghost text = bytes_as_chars(s@);
    let mut i: usize = from;
    while i < s.len() && class_has(k, s[i])
        invariant
            from <= i <= s@.len(),
            text == bytes_as_chars(s@),
            span_end(text, k, from as int) == span_end(text, k, i as int),
            forall|j: int| from <= j < i ==> #[trigger] s@[j] < 128,
        decreases s@.len() - i,
    {
        i += 1;
    }
    i
}

/// What a record holds.
pub struct PhcModel {
    /// The identifier of the algorithm.
    pub id: Text,
    /// The parameters, by name.
    pub parameters: Pairs,
    /// The salt, where the record has one.
    pub salt: Option<Seq<u8>>,
    /// The hash, where the record has one.
    pub hash: Option<Seq<u8>>,
}

/// The parameter that starts at `pos`: where its name and its value end.
pub open spec fn elem_at(s: Text, pos: int) -> Option<(int, int)> {
    let n = span_end(s, CharClass::ParamName, pos);
    let v = span_end(s, CharClass::ParamValue, n + 1);
    if 0 <= pos < n && n < s.len() && s[n] == '=' && n + 1 < v {
        Some((n, v))
    } else {
        None
    }
}

/// Where the next parameter may start after a value that ends at `v`: behind
/// a comma, where one follows.
pub open spec fn after_elem(s: Text, v: int) -> int {
    if 0 <= v < s.len() && s[v] == ',' {
        v + 1
    } else {
        v
    }
}

/// The parameters written from `pos` on, as written, and where they end.
pub open spec fn elems_from(s: Text, pos: int) -> (Pairs, int)
    decreases s.len() - pos,
    via elems_from_decreases
{
    match elem_at(s, pos) {
        None => (Seq::empty(), pos),
        Some((n, v)) => {
            let rest = elems_from(s, after_elem(s, v));
            (seq![(s.subrange(pos, n), s.subrange(n + 1, v))] + rest.0, rest.1)
        },
    }
}

#[via_fn]
proof fn elems_from_decreases(s: Text, pos: int) {
    if elem_at(s, pos) is Some {
        let n = span_end(s, CharClass::ParamName, pos);
        lemma_span(s, CharClass::ParamValue, n + 1);
    }
}

/// The parameters that a list as written stands for: a name that is written
/// again takes the later value.
pub open spec fn collect(raw: Pairs) -> Pairs
    decreases raw.len(),
{
    if raw.len() == 0 {
        Seq::empty()
    } else {
        put(collect(raw.drop_last()), raw.last().0, raw.last().1)
    }
}

/// What the text `s` holds, if it is a record.
///
/// A record is `$` and an identifier; then, optionally, `$` and parameters
/// (`name=value`, each optionally followed by a comma); then, optionally, `$`
/// and the salt; then, optionally, `$` and the hash. Nothing may follow.
pub open spec fn parse(s: Text) -> Option<PhcModel> {
    let id_end = span_end(s, CharClass::Id, 1);
    if s.len() == 0 || s[0] != '$' || id_end == 1 {
        None
    } else {
        let id = s.subrange(1, id_end);
        let elems = elems_from(s, id_end + 1);
        let parameters = collect(elems.0);
        let salt_end = span_end(s, CharClass::B64, elems.1 + 1);
        let salt = segment_data(s.subrange(elems.1 + 1, salt_end));
        let hash_end = span_end(s, CharClass::B64, salt_end + 1);
        let hash = segment_data(s.subrange(salt_end + 1, hash_end));
        if id_end == s.len() {
            Some(PhcModel { id, parameters: Seq::empty(), salt: None, hash: None })
        } else if s[id_end] != '$' {
            None
        } else if elems.1 == s.len() {
            Some(PhcModel { id, parameters, salt: None, hash: None })
        } else if s[elems.1] != '$' {
            None
        } else if salt_end == s.len() {
            Some(PhcModel { id, parameters, salt, hash: None })
        } else if s[salt_end] != '$' {
            None
        } else if hash_end == s.len() {
            Some(PhcModel { id, parameters, salt, hash })
        } else {
            None
        }
    }
}

/// One parameter as it is written: `name=value`.
pub open spec fn pair_text(p: (Text, Text)) -> Text {
    p.0 + seq!['='] + p.1
}

/// The parameters as they are written: one after the other, with commas
/// between them.
pub open spec fn params_text(p: Pairs) -> Text
    decreases p.len(),
{
    if p.len() == 0 {
        Seq::empty()
    } else if p.len() == 1 {
        pair_text(p[0])
    } else {
        params_text(p.drop_last()) + seq![','] + pair_text(p.last())
    }
}

/// The canonical text of a record.
///
/// A record without parameters and without salt is `$id`. Any other is
/// `$id$parameters`, followed by `$salt` where there is a salt, and then by
/// `$hash` where there is a hash too. A hash without a salt is not written.
pub open spec fn serialize(d: PhcModel) -> Text {
    let head = seq!['$'] + d.id;
    if d.parameters.len() == 0 && d.salt is None {
        head
    } else {
        let with_params = head + seq!['$'] + params_text(d.parameters);
        match d.salt {
            None => with_params,
            Some(salt) => {
                let with_salt = with_params + seq!['$'] + encode(salt);
                match d.hash {
                    None => with_salt,
                    Some(hash) => with_salt + seq!['$'] + encode(hash),
                }
            },
        }
    }
}

/// A record of the storage format.
pub struct PHCData {
    /// The identifier of the algorithm.
    pub id: String,
    /// The parameters, by name.
    pub parameters: ParamMap,
    /// The salt, where the record has one.
    pub salt: Option<Vec<u8>>,
    /// The hash, where the record has one.
    pub hash: Option<Vec<u8>>,
}

/// The bytes of an optional byte string.
pub open spec fn opt_bytes(v: Option<Vec<u8>>) -> Option<Seq<u8>> {
    match v {
        Some(b) => Some(b@),
        None => None,
    }
}

impl View for PHCData {
    type V = PhcModel;

    open spec fn view(&self) -> PhcModel {
        PhcModel {
            id: self.id@,
            parameters: self.parameters@,
            salt: opt_bytes(self.salt),
            hash: opt_bytes(self.hash),
        }
    }
}

/// Reads the parameters written from `start` on.
fn get_params(s: &[u8], start: usize) -> (r: (ParamMap, usize))
    requires
        start <= s@.len(),
    ensures
        r.0@ == collect(elems_from(bytes_as_chars(s@), start as int).0),
        r.1 == elems_from(bytes_as_chars(s@), start as int).1,
        start <= r.1 <= s@.len(),
{
    let ghost text = bytes_as_chars(s@);
    let ghost mut raw: Pairs = Seq::empty();
    let mut params = ParamMap::new();
    let mut pos: usize = start;
    loop
        invariant
            text == bytes_as_chars(s@),
            start <= pos <= s@.len(),
            params@ == collect(raw),
            elems_from(text, start as int).0 == raw + elems_from(text, pos as int).0,
            elems_from(text, start as int).1 == elems_from(text, pos as int).1,
        ensures
            elem_at(text, pos as int) is None,
        decreases s@.len() - pos,
    {
        let n = scan(s, CharClass::ParamName, pos);
        if n == pos || n >= s.len() || s[n] != 0x3d {
            break ;
        }
        let v = scan(s, CharClass::ParamValue, n + 1);
        if v == n + 1 {
            break ;
        }
        let name = ascii_string(s, pos, n);
        let value = ascii_string(s, n + 1, v);
        proof {
            assert(elem_at(text, pos as int) == Some((n as int, v as int)));
            assert(name@ =~= text.subrange(pos as int, n as int));
            assert(value@ =~= text.subrange(n + 1, v as int));
            let longer = raw.push((name@, value@));
            assert(longer.drop_last() =~= raw);
            assert(longer + elems_from(text, after_elem(text, v as int)).0 =~= raw + elems_from(
                text,
                pos as int,
            ).0);
            raw = longer;
        }
        params.insert(name, value);
        pos = if v < s.len() && s[v] == 0x2c {
            v + 1
        } else {
            v
        };
    }
    proof {
        assert(raw + Pairs::empty() =~= raw);
    }
    (params, pos)
}

impl PHCData {
    /// Reads a record.
    ///
    /// The bytes are read as ASCII text. The result is what [`parse`] says
    /// that the text holds; the read fails exactly where the text is no
    /// record.
    pub fn from_bytes(s: &[u8]) -> (r: Result<PHCData, ()>)
        requires
            s@.len() * 4 <= usize::MAX,
        ensures
            r is Ok <==> parse(bytes_as_chars(s@)) is Some,
            r is Ok ==> r->Ok_0@ == parse(bytes_as_chars(s@))->0,
    {
        let ghost text = bytes_as_chars(s@);
        let len = s.len();
        if len == 0 || s[0] != 0x24 {
            return Err(());
        }
        let id_end = scan(s, CharClass::Id, 1);
        if id_end == 1 {
            return Err(());
        }
        let id = ascii_string(s, 1, id_end);
        assert(id@ =~= text.subrange(1, id_end as int));
        if id_end == len {
            return Ok(PHCData { id, parameters: ParamMap::new(), salt: None, hash: None });
        }
        if s[id_end] != 0x24 {
            return Err(());
        }
        let (parameters, p_end) = get_params(s, id_end + 1);
        if p_end == len {
            return Ok(PHCData { id, parameters, salt: None, hash: None });
        }
        if s[p_end] != 0x24 {
            return Err(());
        }
        let salt_end = scan(s, CharClass::B64, p_end + 1);
        proof {
            lemma_span(text, CharClass::B64, p_end + 1);
            assert(bytes_as_chars(s@.subrange(p_end + 1, salt_end as int)) =~= text.subrange(
                p_end + 1,
                salt_end as int,
            ));
        }
        let salt = from_b64(slice_subrange(s, p_end + 1, salt_end));
        if salt_end == len {
            return Ok(PHCData { id, parameters, salt, hash: None });
        }
        if s[salt_end] != 0x24 {
            return Err(());
        }
        let hash_end = scan(s, CharClass::B64, salt_end + 1);
        if hash_end != len {
            return Err(());
        }
        proof {
            lemma_span(text, CharClass::B64, salt_end + 1);
            assert(bytes_as_chars(s@.subrange(salt_end + 1, hash_end as int)) =~= text.subrange(
                salt_end + 1,
                hash_end as int,
            ));
        }
        let hash = from_b64(slice_subrange(s, salt_end + 1, hash_end));
        Ok(PHCData { id, parameters, salt, hash })
    }

    /// Writes the record in its canonical form.
    ///
    /// A record without an identifier cannot be written; every other one
    /// gives the text that [`serialize`] states. The salt and the hash must
    /// be short enough for the length of their encoding to fit in `usize`.
    pub fn to_string(&self) -> (r: Result<String, ()>)
        requires
            self.salt is Some ==> encodable_len(self.salt->0@.len()),
            self.hash is Some ==> encodable_len(self.hash->0@.len()),
        ensures
            r is Err <==> self@.id.len() == 0,
            r is Ok ==> r->Ok_0@ == serialize(self@),
    {
        if self.id.as_str().is_empty() {
            return Err(());
        }
        proof {
            reveal_strlit("$");
            reveal_strlit("=");
            reveal_strlit(",");
            assert("$"@ =~= seq!['$']);
            assert("="@ =~= seq!['=']);
            assert(","@ =~= seq![',']);
        }
        let mut res = String::from_str("$");
        res.append(self.id.as_str());
        if self.parameters.is_empty() && self.salt.is_none() {
            return Ok(res);
        }
        res.append("$");
        let ghost head = seq!['$'] + self.id@ + seq!['$'];
        let ghost p = self.parameters@;
        assert(p.take(0) =~= Pairs::empty());
        assert(res@ =~= head + params_text(p.take(0)));
        let mut i: usize = 0;
        while i < self.parameters.len()
            invariant
                i <= p.len(),
                p == self.parameters@,
                "="@ == seq!['='],
                ","@ == seq![','],
                res@ == head + params_text(p.take(i as int)),
            decreases p.len() - i,
        {
            let ghost before = res@;
            if i > 0 {
                res.append(",");
            }
            res.append(self.parameters.key_at(i).as_str());
            res.append("=");
            res.append(self.parameters.value_at(i).as_str());
            proof {
                let now = p.take(i + 1);
                assert(now.drop_last() =~= p.take(i as int));
                assert(now.last() == p[i as int]);
                if i == 0 {
                    assert(res@ =~= head + params_text(now));
                } else {
                    assert(res@ =~= head + params_text(now));
                }
            }
            i += 1;
        }
        assert(p.take(i as int) =~= p);
        match &self.salt {
            Some(salt) => {
                res.append("$");
                let text = to_b64(salt.as_slice());
                res.append(text.as_str());
                match &self.hash {
                    Some(hash) => {
                        res.append("$");
                        let text = to_b64(hash.as_slice());
                        res.append(text.as_str());
                        assert(res@ =~= serialize(self@));
                        Ok(res)
                    },
                    None => {
                        assert(res@ =~= serialize(self@));
                        Ok(res)
                    },
                }
            },
            None => {
                assert(res@ =~= serialize(self@));
                Ok(res)
            },
        }
    }
}

/// Every character of the parameters written from `pos` on is ASCII.
proof fn lemma_elems_ascii(s: Text, pos: int)
    requires
        0 <= pos <= s.len(),
    ensures
        pos <= elems_from(s, pos).1 <= s.len(),
        forall|i: int| pos <= i < elems_from(s, pos).1 ==> '\0' <= #[trigger] s[i] <= '\u{7f}',
    decreases s.len() - pos,
{
    match elem_at(s, pos) {
        None => {},
        Some((n, v)) => {
            lemma_span(s, CharClass::ParamName, pos);
            lemma_span(s, CharClass::ParamValue, n + 1);
            let next = after_elem(s, v);
            lemma_elems_ascii(s, next);
            assert forall|i: int| pos <= i < elems_from(s, pos).1 implies '\0' <= #[trigger] s[i]
                <= '\u{7f}' by {
                if i < n {
                    assert(in_class(CharClass::ParamName, s.subrange(pos, n)[i - pos]));
                } else if n < i < v {
                    assert(in_class(CharClass::ParamValue, s.subrange(n + 1, v)[i - n - 1]));
                }
            }
        },
    }
}

/// A record is ASCII text.
pub proof fn lemma_parse_ascii(s: Text)
    ensures
        parse(s) is Some ==> vstd::utf8::is_ascii_chars(s),
{
    if parse(s) is Some {
        let id_end = span_end(s, CharClass::Id, 1);
        lemma_span(s, CharClass::Id, 1);
        assert forall|i: int| 0 <= i < s.len() implies '\0' <= #[trigger] s[i] <= '\u{7f}' by {
            if 1 <= i < id_end {
                assert(in_class(CharClass::Id, s.subrange(1, id_end)[i - 1]));
            } else if i > id_end {
                let p_end = elems_from(s, id_end + 1).1;
                lemma_elems_ascii(s, id_end + 1);
                if i > p_end {
                    let salt_end = span_end(s, CharClass::B64, p_end + 1);
                    lemma_span(s, CharClass::B64, p_end + 1);
                    if i < salt_end {
                        assert(in_class(CharClass::B64, s.subrange(p_end + 1, salt_end)[i - p_end - 1]));
                    } else if i > salt_end {
                        let hash_end = span_end(s, CharClass::B64, salt_end + 1);
                        lemma_span(s, CharClass::B64, salt_end + 1);
                        assert(in_class(
                            CharClass::B64,
                            s.subrange(salt_end + 1, hash_end)[i - salt_end - 1],
                        ));
                    }
                }
            }
        }
    }
}

} // verus!
