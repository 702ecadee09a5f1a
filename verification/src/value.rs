//! The generic structured value model: a closed JSON-like tagged union,
//! together with the spec-level view of keyed objects as sequences of
//! `(key, value)` pairs.

use vstd::prelude::*;

verus! {

/// A generic structured value. Keyed objects are held as a sequence of
/// `(name, value)` pairs so that the insertion order of keys is observable;
/// reads use last-write-wins semantics, matching standard object behaviour.
#[derive(Debug, PartialEq)]
pub enum Value {
    Null,
    Bool(bool),
    Number(i64),
    Text(String),
    Array(Vec<Value>),
    Object(Vec<(String, Value)>),
}

/// The spec-level view of an object's entry list: each key is abstracted to
/// its character sequence, each value is kept as it stands.
pub open spec fn entries_view(entries: Seq<(String, Value)>) -> Seq<(Seq<char>, Value)> {
    entries.map_values(|p: (String, Value)| (p.0@, p.1))
}

/// Whether some entry of `s` carries the key `k`.
pub open spec fn obj_contains_key(s: Seq<(Seq<char>, Value)>, k: Seq<char>) -> bool {
    exists|i: int| 0 <= i < s.len() && s[i].0 == k
}

/// The value of the last entry of `s` carrying the key `k`, if any:
/// the value a reader of the object observes under last-write-wins.
pub open spec fn lookup(s: Seq<(Seq<char>, Value)>, k: Seq<char>) -> Option<Value>
    decreases s.len(),
{
    if s.len() == 0 {
        None
    } else {
        match lookup(s.skip(1), k) {
            Some(v) => Some(v),
            None => if s[0].0 == k {
                Some(s[0].1)
            } else {
                None
            },
        }
    }
}

pub proof fn lemma_lookup_absent(s: Seq<(Seq<char>, Value)>, k: Seq<char>)
    requires
        forall|i: int| 0 <= i < s.len() ==> s[i].0 != k,
    ensures
        lookup(s, k) is None,
    decreases s.len(),
{
    if s.len() == 0 {
    } else {
        assert forall|i: int| 0 <= i < s.skip(1).len() implies s.skip(1)[i].0 != k by {
            assert(s.skip(1)[i] == s[i + 1]);
        }
        lemma_lookup_absent(s.skip(1), k);
    }
}

/// When exactly one entry carries the key, the lookup returns its value.
pub proof fn lemma_lookup_unique_match(s: Seq<(Seq<char>, Value)>, k: Seq<char>, i: int)
    requires
        0 <= i < s.len(),
        s[i].0 == k,
        forall|j: int| 0 <= j < s.len() && j != i ==> s[j].0 != k,
    ensures
        lookup(s, k) == Some(s[i].1),
    decreases s.len(),
{
    if i == 0 {
        assert forall|j: int| 0 <= j < s.skip(1).len() implies s.skip(1)[j].0 != k by {
            assert(s.skip(1)[j] == s[j + 1]);
        }
        lemma_lookup_absent(s.skip(1), k);
    } else {
        assert(s.skip(1)[i - 1] == s[i]);
        assert forall|j: int| 0 <= j < s.skip(1).len() && j != i - 1 implies s.skip(1)[j].0
            != k by {
            assert(s.skip(1)[j] == s[j + 1]);
        }
        lemma_lookup_unique_match(s.skip(1), k, i - 1);
        assert(s[0].0 != k);
    }
}

/// Appending an entry makes its value the one observed under its key.
pub proof fn lemma_lookup_push_same(s: Seq<(Seq<char>, Value)>, k: Seq<char>, v: Value)
    ensures
        lookup(s.push((k, v)), k) == Some(v),
    decreases s.len(),
{
    reveal_with_fuel(lookup, 2);
    if s.len() == 0 {
        let e = Seq::<(Seq<char>, Value)>::empty();
        assert(s.push((k, v)).skip(1) =~= e);
        assert(lookup(e, k) is None);
        assert(s.push((k, v))[0] == (k, v));
    } else {
        assert(s.push((k, v)).skip(1) =~= s.skip(1).push((k, v)));
        lemma_lookup_push_same(s.skip(1), k, v);
        assert(lookup(s.push((k, v)).skip(1), k) == Some(v));
    }
}

/// Appending an entry leaves every other key's observed value unchanged.
pub proof fn lemma_lookup_push_other(s: Seq<(Seq<char>, Value)>, p: (Seq<char>, Value), k: Seq<char>)
    requires
        p.0 != k,
    ensures
        lookup(s.push(p), k) == lookup(s, k),
    decreases s.len(),
{
    reveal_with_fuel(lookup, 2);
    if s.len() == 0 {
        let e = Seq::<(Seq<char>, Value)>::empty();
        assert(s.push(p).skip(1) =~= e);
        assert(lookup(e, k) is None);
        assert(s.push(p)[0] == p);
    } else {
        assert(s.push(p).skip(1) =~= s.skip(1).push(p));
        assert(s.push(p)[0] == s[0]);
        lemma_lookup_push_other(s.skip(1), p, k);
        assert(lookup(s.push(p).skip(1), k) == lookup(s.skip(1), k));
    }
}

/// Whether `v` is an array of exactly `n` numbers, each in byte range.
pub open spec fn is_binary(v: Value, n: int) -> bool {
    &&& v is Array
    &&& v->Array_0@.len() == n
    &&& forall|i: int|
        0 <= i < n ==> (#[trigger] v->Array_0@[i]) is Number && 0 <= v->Array_0@[i]->Number_0
            < 256
}

/// The byte sequence an in-range array of numbers stands for.
pub open spec fn binary_view(v: Value) -> Seq<u8> {
    v->Array_0@.map_values(|b: Value| b->Number_0 as u8)
}

impl Value {
    /// A short name for the shape of the value, for error reports.
    pub fn kind_name(&self) -> (r: &'static str)
        ensures
            r@ == self.spec_kind_name(),
    {
        match self {
            Value::Null => "null",
            Value::Bool(_) => "a boolean",
            Value::Number(_) => "a number",
            Value::Text(_) => "a string",
            Value::Array(_) => "an array",
            Value::Object(_) => "an object",
        }
    }

    pub open spec fn spec_kind_name(&self) -> Seq<char> {
        match self {
            Value::Null => "null"@,
            Value::Bool(_) => "a boolean"@,
            Value::Number(_) => "a number"@,
            Value::Text(_) => "a string"@,
            Value::Array(_) => "an array"@,
            Value::Object(_) => "an object"@,
        }
    }
}

} // verus!
