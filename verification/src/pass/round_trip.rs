//! What reading and writing records do to each other.
//!
//! Every record that is read is well formed, the canonical text of a
//! canonical record is read back as that record, and writing what was read
//! gives a text that reading and writing leave as it is.

use crate::pass::b64::{
    all_b64, decode, encode, encoded_len, lemma_decode_encode, lemma_encode_alphabet,
    segment_data,
};
use crate::pass::params::{distinct_keys, has_key, lemma_put, Pairs, Text};
use crate::pass::phc::{
    after_elem, all_in_class, collect, elem_at, elems_from, in_class, lemma_span, lemma_span_is,
    pair_text, params_text, parse, serialize, span_end, CharClass, PhcModel,
};
use vstd::prelude::*;

verus! {

/// An identifier: not empty, and made of `a-z`, `0-9` and `-`.
pub open spec fn valid_id(id: Text) -> bool {
    id.len() > 0 && all_in_class(CharClass::Id, id)
}

/// A parameter whose name and value are not empty and hold the characters
/// that the format admits.
pub open spec fn valid_pair(p: (Text, Text)) -> bool {
    &&& p.0.len() > 0
    &&& all_in_class(CharClass::ParamName, p.0)
    &&& p.1.len() > 0
    &&& all_in_class(CharClass::ParamValue, p.1)
}

/// Every parameter is valid.
pub open spec fn valid_pairs(p: Pairs) -> bool {
    forall|i: int| 0 <= i < p.len() ==> valid_pair(#[trigger] p[i])
}

/// What holds of every record that was read: the identifier and the
/// parameters are valid, no name occurs twice, and a salt or a hash that is
/// there is not empty.
pub open spec fn well_formed(d: PhcModel) -> bool {
    &&& valid_id(d.id)
    &&& valid_pairs(d.parameters)
    &&& distinct_keys(d.parameters)
    &&& (d.salt is Some ==> d.salt->0.len() > 0)
    &&& (d.hash is Some ==> d.hash->0.len() > 0)
}

/// A well-formed record that has no hash without a salt. The canonical text
/// tells all of such a record.
pub open spec fn canonical(d: PhcModel) -> bool {
    well_formed(d) && (d.hash is Some ==> d.salt is Some)
}

/// The record without the hash that its text cannot tell: a hash without a
/// salt.
pub open spec fn without_stray_hash(d: PhcModel) -> PhcModel {
    if d.salt is None {
        PhcModel { hash: None, ..d }
    } else {
        d
    }
}

/// The text of a list of parameters starts with its first parameter; the
/// others follow behind a comma.
pub proof fn lemma_params_text_front(p: Pairs)
    requires
        p.len() > 0,
    ensures
        params_text(p) == if p.len() == 1 {
            pair_text(p[0])
        } else {
            pair_text(p[0]) + seq![','] + params_text(p.skip(1))
        },
    decreases p.len(),
{
    if p.len() > 1 {
        let front = p.drop_last();
        lemma_params_text_front(front);
        let rest = p.skip(1);
        assert(rest.last() == p.last());
        if p.len() == 2 {
            assert(front.len() == 1 && rest.len() == 1);
            assert(front[0] == p[0] && rest[0] == p[1]);
            assert(params_text(p) =~= pair_text(p[0]) + seq![','] + params_text(rest));
        } else {
            assert(rest.drop_last() =~= front.skip(1));
            assert(front[0] == p[0]);
            assert(params_text(p) =~= pair_text(p[0]) + seq![','] + params_text(rest));
        }
    }
}

/// Where a text holds the text of valid parameters, followed by `$` or by
/// nothing, these parameters are what is read there.
pub proof fn lemma_elems_of_text(s: Text, pos: int, p: Pairs)
    requires
        0 <= pos,
        pos + params_text(p).len() <= s.len(),
        s.subrange(pos, pos + params_text(p).len()) == params_text(p),
        pos + params_text(p).len() < s.len() ==> s[pos + params_text(p).len()] == '$',
        valid_pairs(p),
    ensures
        elems_from(s, pos) == (p, pos + params_text(p).len()),
    decreases p.len(),
{
    let text = params_text(p);
    let end: int = pos + text.len();
    if p.len() == 0 {
        lemma_span_is(s, CharClass::ParamName, pos, pos);
        assert(elem_at(s, pos) is None);
        assert(p =~= Pairs::empty());
    } else {
        lemma_params_text_front(p);
        let first = p[0];
        assert(valid_pair(first));
        let n: int = pos + first.0.len();
        let v: int = n + 1 + first.1.len();
        assert forall|i: int| 0 <= i < text.len() implies s[pos + i] == text[i] by {
            assert(s.subrange(pos, end)[i] == text[i]);
        }
        assert(s.subrange(pos, n) =~= first.0) by {
            assert forall|i: int| 0 <= i < first.0.len() implies s[pos + i] == first.0[i] by {
                assert(text[i] == first.0[i]);
            }
        }
        assert(s[n] == '=') by {
            assert(text[first.0.len() as int] == '=');
        }
        assert(s.subrange(n + 1, v) =~= first.1) by {
            assert forall|i: int| 0 <= i < first.1.len() implies s[n + 1 + i] == first.1[i] by {
                assert(text[first.0.len() + 1 + i] == first.1[i]);
            }
        }
        lemma_span_is(s, CharClass::ParamName, pos, n);
        if p.len() == 1 {
            assert(v == end);
            lemma_span_is(s, CharClass::ParamValue, n + 1, v);
            assert(elem_at(s, pos) == Some((n, v)));
            assert(after_elem(s, v) == v);
            assert(s.subrange(v, v) =~= params_text(Pairs::empty()));
            lemma_elems_of_text(s, v, Pairs::empty());
            assert(seq![(first.0, first.1)] + Pairs::empty() =~= p);
        } else {
            let rest = p.skip(1);
            assert(s[v] == ',') by {
                assert(text[v - pos] == ',');
            }
            lemma_span_is(s, CharClass::ParamValue, n + 1, v);
            assert(elem_at(s, pos) == Some((n, v)));
            assert(after_elem(s, v) == v + 1);
            assert(s.subrange(v + 1, v + 1 + params_text(rest).len()) =~= params_text(rest)) by {
                assert forall|i: int| 0 <= i < params_text(rest).len() implies s[v + 1 + i]
                    == params_text(rest)[i] by {
                    assert(text[v + 1 - pos + i] == params_text(rest)[i]);
                }
            }
            assert forall|i: int| 0 <= i < rest.len() implies valid_pair(#[trigger] rest[i]) by {
                assert(rest[i] == p[i + 1]);
            }
            lemma_elems_of_text(s, v + 1, rest);
            assert(seq![(first.0, first.1)] + rest =~= p);
        }
    }
}

/// Parameters whose names are distinct stand for themselves.
pub proof fn lemma_collect_distinct(p: Pairs)
    requires
        distinct_keys(p),
    ensures
        collect(p) == p,
    decreases p.len(),
{
    if p.len() > 0 {
        let front = p.drop_last();
        assert forall|i: int, j: int| 0 <= i < j < front.len() implies (#[trigger] front[i]).0 != (
        #[trigger] front[j]).0 by {
            assert(p[i].0 != p[j].0);
        }
        lemma_collect_distinct(front);
        if has_key(front, p.last().0) {
            let i = choose|i: int| 0 <= i < front.len() && (#[trigger] front[i]).0 == p.last().0;
            assert(p[i].0 != p[p.len() - 1].0);
        }
        assert(front.push(p.last()) =~= p);
    } else {
        assert(p =~= Pairs::empty());
    }
}

/// The parameters that a list of valid parameters stands for are valid, and
/// their names are distinct.
pub proof fn lemma_collect_valid(raw: Pairs)
    requires
        valid_pairs(raw),
    ensures
        valid_pairs(collect(raw)),
        distinct_keys(collect(raw)),
    decreases raw.len(),
{
    if raw.len() > 0 {
        let front = raw.drop_last();
        assert forall|i: int| 0 <= i < front.len() implies valid_pair(#[trigger] front[i]) by {
            assert(front[i] == raw[i]);
        }
        lemma_collect_valid(front);
        let before = collect(front);
        lemma_put(before, raw.last().0, raw.last().1);
        let after = collect(raw);
        assert(valid_pair(raw.last())) by {
            assert(raw.last() == raw[raw.len() - 1]);
        }
        assert forall|i: int| 0 <= i < after.len() implies valid_pair(#[trigger] after[i]) by {
            if i < before.len() && after[i] == before[i] {
            } else {
                assert(after[i] == (raw.last().0, raw.last().1));
            }
        }
    } else {
        assert(distinct_keys(collect(raw)));
    }
}

/// The parameters that are read from `pos` on are valid.
pub proof fn lemma_elems_valid(s: Text, pos: int)
    requires
        0 <= pos <= s.len(),
    ensures
        valid_pairs(elems_from(s, pos).0),
        pos <= elems_from(s, pos).1 <= s.len(),
    decreases s.len() - pos,
{
    match elem_at(s, pos) {
        None => {},
        Some((n, v)) => {
            lemma_span(s, CharClass::ParamName, pos);
            lemma_span(s, CharClass::ParamValue, n + 1);
            lemma_elems_valid(s, after_elem(s, v));
            let rest = elems_from(s, after_elem(s, v)).0;
            let all = elems_from(s, pos).0;
            let first = (s.subrange(pos, n), s.subrange(n + 1, v));
            assert(all == seq![first] + rest);
            assert forall|i: int| 0 <= i < all.len() implies valid_pair(#[trigger] all[i]) by {
                if i > 0 {
                    assert(all[i] == rest[i - 1]);
                }
            }
        },
    }
}

/// What a segment holds is not empty.
pub proof fn lemma_segment_not_empty(text: Text)
    ensures
        segment_data(text) is Some ==> segment_data(text)->0.len() > 0,
{
    if text.len() >= 4 && decode(text) is Some {
        assert(decode(text.skip(4)) is Some);
    }
}

/// A record that is read is well formed.
pub proof fn lemma_parse_well_formed(s: Text)
    ensures
        parse(s) is Some ==> well_formed(parse(s)->0),
{
    if parse(s) is Some {
        let id_end = span_end(s, CharClass::Id, 1);
        lemma_span(s, CharClass::Id, 1);
        if id_end < s.len() {
            lemma_elems_valid(s, id_end + 1);
            let elems = elems_from(s, id_end + 1);
            lemma_collect_valid(elems.0);
            if elems.1 < s.len() {
                let salt_end = span_end(s, CharClass::B64, elems.1 + 1);
                lemma_span(s, CharClass::B64, elems.1 + 1);
                lemma_segment_not_empty(s.subrange(elems.1 + 1, salt_end));
                if salt_end < s.len() {
                    let hash_end = span_end(s, CharClass::B64, salt_end + 1);
                    lemma_segment_not_empty(s.subrange(salt_end + 1, hash_end));
                }
            }
        } else {
            assert(distinct_keys(Pairs::empty()));
        }
    }
}

/// The encoding of data that is not empty is a segment that holds the data:
/// characters of the alphabet, at least two of them.
pub proof fn lemma_segment_of_encoding(data: Seq<u8>)
    requires
        data.len() > 0,
    ensures
        all_in_class(CharClass::B64, encode(data)),
        encode(data).len() > 0,
        segment_data(encode(data)) == Some(data),
{
    lemma_encode_alphabet(data);
    lemma_decode_encode(data);
    assert(encoded_len(data.len()) > 0);
    assert forall|i: int| 0 <= i < encode(data).len() implies in_class(
        CharClass::B64,
        #[trigger] encode(data)[i],
    ) by {
        assert(all_b64(encode(data)));
    }
}

/// Where a text starts with `$`, an identifier, `$` and the text of valid
/// parameters with distinct names, and `$` or nothing follows, the
/// identifier and the parameters are what is read there.
pub proof fn lemma_read_head(t: Text, id: Text, p: Pairs, id_end: int, p_end: int)
    requires
        valid_id(id),
        valid_pairs(p),
        distinct_keys(p),
        id_end == id.len() + 1,
        p_end == id_end + 1 + params_text(p).len(),
        p_end <= t.len(),
        t.subrange(0, p_end) == seq!['$'] + id + seq!['$'] + params_text(p),
        p_end < t.len() ==> t[p_end] == '$',
    ensures
        t[0] == '$',
        span_end(t, CharClass::Id, 1) == id_end,
        t.subrange(1, id_end) == id,
        t[id_end] == '$',
        elems_from(t, id_end + 1) == (p, p_end),
        collect(p) == p,
{
    let ptext = params_text(p);
    let front = seq!['$'] + id + seq!['$'] + ptext;
    assert forall|i: int| 0 <= i < p_end implies t[i] == front[i] by {
        assert(t.subrange(0, p_end)[i] == front[i]);
    }
    assert(t[0] == front[0]);
    assert(t[id_end] == front[id_end]);
    assert(t.subrange(1, id_end) =~= id) by {
        assert forall|i: int| 0 <= i < id.len() implies t[1 + i] == id[i] by {
            assert(t[1 + i] == front[1 + i]);
        }
    }
    lemma_span_is(t, CharClass::Id, 1, id_end);
    assert(t.subrange(id_end + 1, p_end) =~= ptext) by {
        assert forall|i: int| 0 <= i < ptext.len() implies t[id_end + 1 + i] == ptext[i] by {
            assert(t[id_end + 1 + i] == front[id_end + 1 + i]);
        }
    }
    lemma_elems_of_text(t, id_end + 1, p);
    lemma_collect_distinct(p);
}

/// Where a text holds the encoding of data that is not empty, and `$` or
/// nothing follows, the segment that is read there holds the data.
pub proof fn lemma_read_segment(t: Text, from: int, to: int, data: Seq<u8>)
    requires
        data.len() > 0,
        0 <= from,
        to == from + encode(data).len(),
        to <= t.len(),
        t.subrange(from, to) == encode(data),
        to < t.len() ==> t[to] == '$',
    ensures
        span_end(t, CharClass::B64, from) == to,
        segment_data(t.subrange(from, to)) == Some(data),
{
    lemma_segment_of_encoding(data);
    lemma_span_is(t, CharClass::B64, from, to);
}

/// The canonical text of a canonical record is read back as the record.
pub proof fn lemma_parse_serialize(d: PhcModel)
    requires
        canonical(d),
    ensures
        parse(serialize(d)) == Some(d),
{
    let t = serialize(d);
    let head = seq!['$'] + d.id;
    let id_end: int = d.id.len() as int + 1;
    if d.parameters.len() == 0 && d.salt is None {
        assert(t.subrange(1, id_end) =~= d.id);
        lemma_span_is(t, CharClass::Id, 1, id_end);
        assert(d.parameters =~= Pairs::empty());
    } else {
        let ptext = params_text(d.parameters);
        let with_params = head + seq!['$'] + ptext;
        let p_end: int = id_end + 1 + ptext.len();
        match d.salt {
            None => {
                assert(t.subrange(0, p_end) =~= with_params);
                lemma_read_head(t, d.id, d.parameters, id_end, p_end);
            },
            Some(salt) => {
                let stext = encode(salt);
                let with_salt = with_params + seq!['$'] + stext;
                let salt_end: int = p_end + 1 + stext.len();
                match d.hash {
                    None => {
                        assert(t == with_salt);
                        assert(t.subrange(0, p_end) =~= with_params);
                        assert(t[p_end] == '$');
                        lemma_read_head(t, d.id, d.parameters, id_end, p_end);
                        assert(t.subrange(p_end + 1, salt_end) =~= stext);
                        lemma_read_segment(t, p_end + 1, salt_end, salt);
                    },
                    Some(hash) => {
                        let htext = encode(hash);
                        let hash_end: int = salt_end + 1 + htext.len();
                        assert(t == with_salt + seq!['$'] + htext);
                        assert(t.subrange(0, p_end) =~= with_params);
                        assert(t[p_end] == '$');
                        lemma_read_head(t, d.id, d.parameters, id_end, p_end);
                        assert(t.subrange(p_end + 1, salt_end) =~= stext);
                        assert(t[salt_end] == '$');
                        lemma_read_segment(t, p_end + 1, salt_end, salt);
                        assert(t.subrange(salt_end + 1, hash_end) =~= htext);
                        lemma_read_segment(t, salt_end + 1, hash_end, hash);
                    },
                }
            },
        }
    }
}

/// A canonical text, which is the text of a canonical record, is read and
/// written back as it is.
pub proof fn lemma_canonical_text_is_kept(d: PhcModel)
    requires
        canonical(d),
    ensures
        parse(serialize(d)) is Some,
        serialize(parse(serialize(d))->0) == serialize(d),
{
    lemma_parse_serialize(d);
}

/// Writing a record that was read gives a text that is read as the same
/// record, but for a hash without a salt, and that is written as the same
/// text again.
pub proof fn lemma_round_trip(s: Text)
    requires
        parse(s) is Some,
    ensures
        parse(serialize(parse(s)->0)) == Some(without_stray_hash(parse(s)->0)),
        serialize(parse(serialize(parse(s)->0))->0) == serialize(parse(s)->0),
{
    let d = parse(s)->0;
    lemma_parse_well_formed(s);
    let e = without_stray_hash(d);
    assert(serialize(e) == serialize(d));
    lemma_parse_serialize(e);
}

/// In a record the sign `=` stands among the parameters only: base64 data
/// with padding is no part of a record.
pub proof fn lemma_equals_sign_in_parameters(s: Text, i: int)
    requires
        parse(s) is Some,
        0 <= i < s.len(),
        s[i] == '=',
    ensures
        span_end(s, CharClass::Id, 1) < i < elems_from(s, span_end(s, CharClass::Id, 1) + 1).1,
{
    let id_end = span_end(s, CharClass::Id, 1);
    lemma_span(s, CharClass::Id, 1);
    if 1 <= i < id_end {
        assert(in_class(CharClass::Id, s.subrange(1, id_end)[i - 1]));
    }
    assert(id_end < s.len());
    let p_end = elems_from(s, id_end + 1).1;
    lemma_elems_valid(s, id_end + 1);
    if i >= p_end {
        let salt_end = span_end(s, CharClass::B64, p_end + 1);
        lemma_span(s, CharClass::B64, p_end + 1);
        if p_end < i < salt_end {
            assert(in_class(CharClass::B64, s.subrange(p_end + 1, salt_end)[i - p_end - 1]));
        } else if i > salt_end {
            let hash_end = span_end(s, CharClass::B64, salt_end + 1);
            lemma_span(s, CharClass::B64, salt_end + 1);
            assert(in_class(CharClass::B64, s.subrange(salt_end + 1, hash_end)[i - salt_end - 1]));
        }
    }
}

} // verus!
