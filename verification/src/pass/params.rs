//! The named parameters of a record or of a policy.

use crate::text::str_eq;
use vstd::prelude::*;

verus! {

/// Text, as a sequence of characters.
pub type Text = Seq<char>;

/// Parameters as contracts see them: names with their values, in order.
pub type Pairs = Seq<(Seq<char>, Seq<char>)>;

/// No name occurs twice.
pub open spec fn distinct_keys(p: Pairs) -> bool {
    forall|i: int, j: int| 0 <= i < j < p.len() ==> (#[trigger] p[i]).0 != (#[trigger] p[j]).0
}

/// `key` is the name of one of the parameters.
pub open spec fn has_key(p: Pairs, key: Text) -> bool {
    exists|i: int| 0 <= i < p.len() && (#[trigger] p[i]).0 == key
}

/// The place of the parameter named `key`, where there is one.
pub open spec fn key_index(p: Pairs, key: Text) -> int {
    choose|i: int| 0 <= i < p.len() && (#[trigger] p[i]).0 == key
}

/// The value of the parameter named `key`.
pub open spec fn lookup(p: Pairs, key: Text) -> Option<Text> {
    if has_key(p, key) {
        Some(p[key_index(p, key)].1)
    } else {
        None
    }
}

/// The parameters after `key` is given `value`: in place where the name is
/// known already, at the end otherwise.
pub open spec fn put(p: Pairs, key: Text, value: Text) -> Pairs {
    if has_key(p, key) {
        p.update(key_index(p, key), (key, value))
    } else {
        p.push((key, value))
    }
}

/// The parameters without the one named `key`.
pub open spec fn without(p: Pairs, key: Text) -> Pairs {
    if has_key(p, key) {
        p.remove(key_index(p, key))
    } else {
        p
    }
}

/// Where names are distinct, a parameter with the right name is the one that
/// `key_index` finds.
pub proof fn lemma_key_index(p: Pairs, key: Text, i: int)
    requires
        distinct_keys(p),
        0 <= i < p.len(),
        p[i].0 == key,
    ensures
        has_key(p, key),
        key_index(p, key) == i,
        lookup(p, key) == Some(p[i].1),
{
    let j = key_index(p, key);
    if i < j {
        assert(p[i].0 != p[j].0);
    } else if j < i {
        assert(p[j].0 != p[i].0);
    }
}

/// No parameter of `p` is named `key`.
pub open spec fn is_fresh(p: Pairs, key: Text) -> bool {
    forall|i: int| 0 <= i < p.len() ==> (#[trigger] p[i]).0 != key
}

/// A parameter with a new name goes to the end.
pub proof fn lemma_put_fresh(p: Pairs, key: Text, value: Text)
    requires
        is_fresh(p, key),
    ensures
        !has_key(p, key),
        put(p, key, value) == p.push((key, value)),
{
}

/// Giving a parameter a value keeps the names distinct, and the value is
/// found again.
pub proof fn lemma_put(p: Pairs, key: Text, value: Text)
    requires
        distinct_keys(p),
    ensures
        distinct_keys(put(p, key, value)),
        lookup(put(p, key, value), key) == Some(value),
        forall|other: Text| other != key ==> lookup(put(p, key, value), other) == lookup(p, other),
{
    let q = put(p, key, value);
    if has_key(p, key) {
        let i = key_index(p, key);
        assert forall|a: int, b: int| 0 <= a < b < q.len() implies (#[trigger] q[a]).0 != (
        #[trigger] q[b]).0 by {
            assert(p[a].0 != p[b].0);
        }
        lemma_key_index(q, key, i);
        assert forall|other: Text| other != key implies lookup(q, other) == lookup(p, other) by {
            if has_key(p, other) {
                let j = key_index(p, other);
                assert(q[j] == p[j]);
                lemma_key_index(q, other, j);
            } else if has_key(q, other) {
                let j = key_index(q, other);
                assert(p[j].0 == other);
            }
        }
    } else {
        assert forall|a: int, b: int| 0 <= a < b < q.len() implies (#[trigger] q[a]).0 != (
        #[trigger] q[b]).0 by {
            if b < p.len() {
                assert(p[a].0 != p[b].0);
            } else {
                assert(p[a].0 != key);
            }
        }
        lemma_key_index(q, key, p.len() as int);
        assert forall|other: Text| other != key implies lookup(q, other) == lookup(p, other) by {
            if has_key(p, other) {
                let j = key_index(p, other);
                assert(q[j] == p[j]);
                lemma_key_index(q, other, j);
            } else if has_key(q, other) {
                let j = key_index(q, other);
                assert(p[j].0 == other);
            }
        }
    }
}

/// Taking a parameter out keeps the names distinct, the name is then
/// unknown, and the others keep their values.
pub proof fn lemma_without(p: Pairs, key: Text)
    requires
        distinct_keys(p),
    ensures
        distinct_keys(without(p, key)),
        !has_key(without(p, key), key),
        forall|other: Text| other != key ==> lookup(without(p, key), other) == lookup(p, other),
{
    let q = without(p, key);
    if has_key(p, key) {
        let i = key_index(p, key);
        assert forall|a: int, b: int| 0 <= a < b < q.len() implies (#[trigger] q[a]).0 != (
        #[trigger] q[b]).0 by {
            let a0 = if a < i { a } else { a + 1 };
            let b0 = if b < i { b } else { b + 1 };
            assert(q[a] == p[a0]);
            assert(q[b] == p[b0]);
            assert(p[a0].0 != p[b0].0);
        }
        if has_key(q, key) {
            let j = key_index(q, key);
            let j0 = if j < i { j } else { j + 1 };
            assert(q[j] == p[j0]);
            lemma_key_index(p, key, j0);
        }
        assert forall|other: Text| other != key implies lookup(q, other) == lookup(p, other) by {
            if has_key(p, other) {
                let j = key_index(p, other);
                let j1 = if j < i { j } else { j - 1 };
                assert(q[j1] == p[j]);
                lemma_key_index(q, other, j1);
            } else if has_key(q, other) {
                let j = key_index(q, other);
                let j0 = if j < i { j } else { j + 1 };
                assert(q[j] == p[j0]);
            }
        }
    }
}

/// Taking out the parameter at place `i` by its name removes that place.
pub proof fn lemma_without_at(p: Pairs, i: int)
    requires
        distinct_keys(p),
        0 <= i < p.len(),
    ensures
        without(p, p[i].0) == p.remove(i),
        distinct_keys(p.remove(i)),
{
    lemma_key_index(p, p[i].0, i);
    lemma_without(p, p[i].0);
}

/// Named parameters: each name has one value, and the parameters keep the
/// order in which their names first came.
pub struct ParamMap {
    entries: Vec<(String, String)>,
}

impl View for ParamMap {
    type V = Pairs;

    closed spec fn view(&self) -> Pairs {
        self.entries@.map_values(|e: (String, String)| (e.0@, e.1@))
    }
}

impl ParamMap {
    /// The invariant of the type: no name occurs twice.
    #[verifier::type_invariant]
    pub open spec fn names_differ(&self) -> bool {
        distinct_keys(self@)
    }

    /// No parameters.
    pub fn new() -> (r: ParamMap)
        ensures
            r@ == Pairs::empty(),
    {
        let r = ParamMap { entries: Vec::new() };
        assert(r@ =~= Pairs::empty());
        r
    }

    /// The number of parameters.
    pub fn len(&self) -> (r: usize)
        ensures
            r == self@.len(),
    {
        self.entries.len()
    }

    /// Whether there is no parameter.
    pub fn is_empty(&self) -> (r: bool)
        ensures
            r == (self@.len() == 0),
    {
        self.entries.len() == 0
    }

    /// The name of the parameter at place `i`.
    pub fn key_at(&self, i: usize) -> (r: &String)
        requires
            i < self@.len(),
        ensures
            r@ == self@[i as int].0,
    {
        &self.entries[i].0
    }

    /// The value of the parameter at place `i`.
    pub fn value_at(&self, i: usize) -> (r: &String)
        requires
            i < self@.len(),
        ensures
            r@ == self@[i as int].1,
    {
        &self.entries[i].1
    }

    /// The place of the parameter named `key`.
    fn position(&self, key: &str) -> (r: Option<usize>)
        ensures
            r is Some <==> has_key(self@, key@),
            r is Some ==> r->0 == key_index(self@, key@),
    {
        proof {
            use_type_invariant(self);
        }
        let mut i: usize = 0;
        while i < self.entries.len()
            invariant
                i <= self@.len(),
                self@.len() == self.entries@.len(),
                distinct_keys(self@),
                forall|j: int| 0 <= j < i ==> (#[trigger] self@[j]).0 != key@,
            decreases self.entries@.len() - i,
        {
            if str_eq(self.entries[i].0.as_str(), key) {
                proof {
                    lemma_key_index(self@, key@, i as int);
                }
                return Some(i);
            }
            i += 1;
        }
        None
    }

    /// The value of the parameter named `key`.
    pub fn get(&self, key: &str) -> (r: Option<&String>)
        ensures
            r is Some <==> lookup(self@, key@) is Some,
            r is Some ==> r->0@ == lookup(self@, key@)->0,
    {
        match self.position(key) {
            Some(i) => Some(&self.entries[i].1),
            None => None,
        }
    }

    /// Whether a parameter is named `key`.
    pub fn contains_key(&self, key: &str) -> (r: bool)
        ensures
            r == has_key(self@, key@),
    {
        self.position(key).is_some()
    }

    /// Gives the parameter named `key` the value `value`.
    pub fn insert(&mut self, key: String, value: String)
        ensures
            final(self)@ == put(old(self)@, key@, value@),
    {
        proof {
            use_type_invariant(&*self);
            lemma_put(self@, key@, value@);
        }
        let found = self.position(key.as_str());
        let ghost before = self@;
        let mut entries: Vec<(String, String)> = Vec::new();
        std::mem::swap(&mut entries, &mut self.entries);
        match found {
            Some(i) => {
                entries.set(i, (key, value));
            },
            None => {
                entries.push((key, value));
            },
        }
        assert(entries@.map_values(|e: (String, String)| (e.0@, e.1@)) =~= put(
            before,
            key@,
            value@,
        ));
        self.entries = entries;
    }

    /// Takes the parameter named `key` out and returns its value.
    pub fn remove(&mut self, key: &str) -> (r: Option<String>)
        ensures
            final(self)@ == without(old(self)@, key@),
            r is Some <==> lookup(old(self)@, key@) is Some,
            r is Some ==> r->0@ == lookup(old(self)@, key@)->0,
    {
        proof {
            use_type_invariant(&*self);
            lemma_without(self@, key@);
        }
        match self.position(key) {
            Some(i) => {
                let ghost before = self@;
                let mut entries: Vec<(String, String)> = Vec::new();
                std::mem::swap(&mut entries, &mut self.entries);
                let gone = entries.remove(i);
                assert(entries@.map_values(|e: (String, String)| (e.0@, e.1@)) =~= without(
                    before,
                    key@,
                ));
                self.entries = entries;
                Some(gone.1)
            },
            None => None,
        }
    }

    /// A copy with the same parameters.
    pub fn clone(&self) -> (r: ParamMap)
        ensures
            r@ == self@,
    {
        proof {
            use_type_invariant(self);
        }
        let mut entries: Vec<(String, String)> = Vec::new();
        let mut i: usize = 0;
        while i < self.entries.len()
            invariant
                i <= self.entries@.len(),
                entries@.len() == i,
                forall|j: int|
                    0 <= j < i ==> (#[trigger] entries@[j]).0@ == self.entries@[j].0@
                        && entries@[j].1@ == self.entries@[j].1@,
            decreases self.entries@.len() - i,
        {
            entries.push((self.entries[i].0.clone(), self.entries[i].1.clone()));
            i += 1;
        }
        assert(entries@.map_values(|e: (String, String)| (e.0@, e.1@)) =~= self@);
        ParamMap { entries }
    }
}

} // verus!
