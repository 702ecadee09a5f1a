//! The document map normalizer: turns a keyed-object value into an ordered,
//! duplicate-free mapping from document name to schema fragment.
//!
//! Keys keep the order in which they are first encountered; a duplicate key
//! keeps its first position but takes the value of its last write, the
//! standard object semantics. Any non-object input is rejected.

use vstd::prelude::*;
use crate::errors::ProtocolError;
use crate::value::{
    entries_view, lemma_lookup_absent, lemma_lookup_push_other, lemma_lookup_push_same,
    lemma_lookup_unique_match, lookup, obj_contains_key, Value,
};

verus! {

/// No two entries of `s` carry the same key.
pub open spec fn unique_keys(s: Seq<(Seq<char>, Value)>) -> bool {
    forall|i: int, j: int| 0 <= i < j < s.len() ==> s[i].0 != s[j].0
}

/// The position of the first entry of `s` carrying the key `k`.
pub open spec fn index_of_key(s: Seq<(Seq<char>, Value)>, k: Seq<char>) -> int
    decreases s.len(),
{
    if s.len() == 0 {
        0
    } else if s[0].0 == k {
        0
    } else {
        1 + index_of_key(s.skip(1), k)
    }
}

/// Write `v` under `k`: overwrite the value in place if the key is present,
/// append a new entry otherwise.
pub open spec fn upsert(s: Seq<(Seq<char>, Value)>, k: Seq<char>, v: Value) -> Seq<
    (Seq<char>, Value),
> {
    if obj_contains_key(s, k) {
        s.update(index_of_key(s, k), (k, v))
    } else {
        s.push((k, v))
    }
}

/// The normalization of an entry list: every entry written in order, each
/// key settling at its first position with its last-written value.
pub open spec fn normalize_entries(s: Seq<(Seq<char>, Value)>) -> Seq<(Seq<char>, Value)>
    decreases s.len(),
{
    if s.len() == 0 {
        Seq::empty()
    } else {
        upsert(normalize_entries(s.drop_last()), s.last().0, s.last().1)
    }
}

/// When a key is present, `index_of_key` points at its first occurrence.
pub proof fn lemma_index_of_key(s: Seq<(Seq<char>, Value)>, k: Seq<char>)
    requires
        obj_contains_key(s, k),
    ensures
        0 <= index_of_key(s, k) < s.len(),
        s[index_of_key(s, k)].0 == k,
        forall|j: int| 0 <= j < index_of_key(s, k) ==> s[j].0 != k,
    decreases s.len(),
{
    if s.len() == 0 {
    } else if s[0].0 == k {
    } else {
        let w = choose|i: int| 0 <= i < s.len() && s[i].0 == k;
        assert(s.skip(1)[w - 1] == s[w]);
        assert(obj_contains_key(s.skip(1), k));
        lemma_index_of_key(s.skip(1), k);
        let i1 = index_of_key(s.skip(1), k);
        assert(s[1 + i1] == s.skip(1)[i1]);
        assert forall|j: int| 0 <= j < 1 + i1 implies s[j].0 != k by {
            if j > 0 {
                assert(s.skip(1)[j - 1] == s[j]);
            }
        }
    }
}

/// A position whose key matches, with no match before it, is what
/// `index_of_key` returns.
pub proof fn lemma_index_of_first_match(s: Seq<(Seq<char>, Value)>, k: Seq<char>, i: int)
    requires
        0 <= i < s.len(),
        s[i].0 == k,
        forall|j: int| 0 <= j < i ==> s[j].0 != k,
    ensures
        obj_contains_key(s, k),
        index_of_key(s, k) == i,
    decreases i,
{
    if i == 0 {
    } else {
        assert(s.skip(1)[i - 1] == s[i]);
        assert forall|j: int| 0 <= j < i - 1 implies s.skip(1)[j].0 != k by {
            assert(s.skip(1)[j] == s[j + 1]);
        }
        lemma_index_of_first_match(s.skip(1), k, i - 1);
    }
}

/// A write keeps an entry list duplicate-free, and adds exactly its own
/// key to the key set.
pub proof fn lemma_upsert_unique(s: Seq<(Seq<char>, Value)>, k: Seq<char>, v: Value)
    requires
        unique_keys(s),
    ensures
        unique_keys(upsert(s, k, v)),
        forall|k2: Seq<char>| #[trigger]
            obj_contains_key(upsert(s, k, v), k2) <==> (k2 == k || obj_contains_key(s, k2)),
{
    let r = upsert(s, k, v);
    if obj_contains_key(s, k) {
        lemma_index_of_key(s, k);
        let idx = index_of_key(s, k);
        assert forall|i: int, j: int| 0 <= i < j < r.len() implies r[i].0 != r[j].0 by {
            assert(r[i].0 == s[i].0);
            assert(r[j].0 == s[j].0);
        }
        assert forall|k2: Seq<char>| #[trigger]
            obj_contains_key(r, k2) <==> (k2 == k || obj_contains_key(s, k2)) by {
            if obj_contains_key(r, k2) {
                let w = choose|i: int| 0 <= i < r.len() && r[i].0 == k2;
                if w == idx {
                    assert(k2 == k);
                } else {
                    assert(s[w].0 == k2);
                }
            }
            if k2 == k {
                assert(r[idx].0 == k2);
                assert(obj_contains_key(r, k2));
            } else if obj_contains_key(s, k2) {
                let w = choose|i: int| 0 <= i < s.len() && s[i].0 == k2;
                assert(w != idx);
                assert(r[w].0 == k2);
                assert(obj_contains_key(r, k2));
            }
        }
    } else {
        assert forall|i: int, j: int| 0 <= i < j < r.len() implies r[i].0 != r[j].0 by {
            if j < s.len() {
                assert(r[i].0 == s[i].0);
                assert(r[j].0 == s[j].0);
            } else {
                assert(r[j].0 == k);
                assert(r[i].0 == s[i].0);
                assert(0 <= i < s.len() && s[i].0 == k ==> obj_contains_key(s, k));
            }
        }
        assert forall|k2: Seq<char>| #[trigger]
            obj_contains_key(r, k2) <==> (k2 == k || obj_contains_key(s, k2)) by {
            if obj_contains_key(r, k2) {
                let w = choose|i: int| 0 <= i < r.len() && r[i].0 == k2;
                if w == s.len() {
                    assert(k2 == k);
                } else {
                    assert(s[w].0 == k2);
                }
            }
            if k2 == k {
                assert(r[s.len() as int].0 == k2);
                assert(obj_contains_key(r, k2));
            } else if obj_contains_key(s, k2) {
                let w = choose|i: int| 0 <= i < s.len() && s[i].0 == k2;
                assert(r[w].0 == k2);
                assert(obj_contains_key(r, k2));
            }
        }
    }
}

/// The normalization of any entry list is duplicate-free.
pub proof fn lemma_normalize_entries_unique(s: Seq<(Seq<char>, Value)>)
    ensures
        unique_keys(normalize_entries(s)),
    decreases s.len(),
{
    if s.len() == 0 {
    } else {
        lemma_normalize_entries_unique(s.drop_last());
        lemma_upsert_unique(normalize_entries(s.drop_last()), s.last().0, s.last().1);
    }
}

/// Normalization neither loses nor invents keys: a key is in the
/// normalization exactly when some entry of the input carries it.
pub proof fn lemma_normalize_entries_keys(s: Seq<(Seq<char>, Value)>)
    ensures
        forall|k: Seq<char>| #[trigger]
            obj_contains_key(normalize_entries(s), k) <==> obj_contains_key(s, k),
    decreases s.len(),
{
    if s.len() == 0 {
        assert forall|k: Seq<char>| #[trigger]
            obj_contains_key(normalize_entries(s), k) <==> obj_contains_key(s, k) by {
            assert(!obj_contains_key(s, k));
            assert(normalize_entries(s).len() == 0);
        }
    } else {
        let t = s.drop_last();
        lemma_normalize_entries_keys(t);
        lemma_normalize_entries_unique(t);
        lemma_upsert_unique(normalize_entries(t), s.last().0, s.last().1);
        assert forall|k: Seq<char>| #[trigger]
            obj_contains_key(normalize_entries(s), k) <==> obj_contains_key(s, k) by {
            if obj_contains_key(s, k) {
                let w = choose|i: int| 0 <= i < s.len() && s[i].0 == k;
                if w == s.len() - 1 {
                    assert(s.last().0 == k);
                } else {
                    assert(t[w] == s[w]);
                    assert(obj_contains_key(t, k));
                }
            }
            if obj_contains_key(t, k) {
                let w = choose|i: int| 0 <= i < t.len() && t[i].0 == k;
                assert(s[w] == t[w]);
                assert(obj_contains_key(s, k));
            }
            if s.last().0 == k {
                assert(s[s.len() - 1].0 == k);
                assert(obj_contains_key(s, k));
            }
        }
    }
}

/// What a write does to reads of a duplicate-free entry list: the written
/// key reads back the new value, every other key is untouched.
pub proof fn lemma_upsert_lookup(m: Seq<(Seq<char>, Value)>, k: Seq<char>, v: Value)
    requires
        unique_keys(m),
    ensures
        lookup(upsert(m, k, v), k) == Some(v),
        forall|k2: Seq<char>| k2 != k ==> #[trigger] lookup(upsert(m, k, v), k2) == lookup(m, k2),
{
    let r = upsert(m, k, v);
    if obj_contains_key(m, k) {
        lemma_index_of_key(m, k);
        let idx = index_of_key(m, k);
        assert forall|j: int| 0 <= j < r.len() && j != idx implies r[j].0 != k by {
            assert(r[j].0 == m[j].0);
            if j > idx {
                assert(m[idx].0 != m[j].0);
            }
        }
        lemma_lookup_unique_match(r, k, idx);
        assert forall|k2: Seq<char>| k2 != k implies #[trigger] lookup(r, k2) == lookup(m, k2) by {
            if obj_contains_key(m, k2) {
                let j = choose|j: int| 0 <= j < m.len() && m[j].0 == k2;
                assert forall|t: int| 0 <= t < m.len() && t != j implies m[t].0 != k2 by {
                    if t < j {
                        assert(m[t].0 != m[j].0);
                    } else {
                        assert(m[j].0 != m[t].0);
                    }
                }
                assert(j != idx);
                assert(r[j] == m[j]);
                assert forall|t: int| 0 <= t < r.len() && t != j implies r[t].0 != k2 by {
                    if t == idx {
                        assert(r[t].0 == k);
                    } else {
                        assert(r[t].0 == m[t].0);
                    }
                }
                lemma_lookup_unique_match(m, k2, j);
                lemma_lookup_unique_match(r, k2, j);
            } else {
                assert forall|t: int| 0 <= t < r.len() implies r[t].0 != k2 by {
                    if t == idx {
                        assert(r[t].0 == k);
                    } else {
                        assert(r[t].0 == m[t].0);
                        assert(0 <= t < m.len() && m[t].0 == k2 ==> obj_contains_key(m, k2));
                    }
                }
                assert(forall|t: int| 0 <= t < m.len() ==> m[t].0 != k2) by {
                    assert(forall|t: int|
                        0 <= t < m.len() && m[t].0 == k2 ==> obj_contains_key(m, k2));
                }
                lemma_lookup_absent(m, k2);
                lemma_lookup_absent(r, k2);
            }
        }
    } else {
        lemma_lookup_push_same(m, k, v);
        assert forall|k2: Seq<char>| k2 != k implies #[trigger] lookup(r, k2) == lookup(m, k2) by {
            lemma_lookup_push_other(m, (k, v), k2);
        }
    }
}

/// The law of the normalizer's reads: looking a key up in the
/// normalization observes exactly the input's last write of that key.
pub proof fn lemma_normalize_entries_lookup(s: Seq<(Seq<char>, Value)>)
    ensures
        forall|k: Seq<char>| #[trigger]
            lookup(normalize_entries(s), k) == lookup(s, k),
    decreases s.len(),
{
    if s.len() == 0 {
    } else {
        let t = s.drop_last();
        let p = s.last();
        lemma_normalize_entries_lookup(t);
        lemma_normalize_entries_unique(t);
        lemma_upsert_lookup(normalize_entries(t), p.0, p.1);
        assert(s =~= t.push(p));
        assert forall|k: Seq<char>| #[trigger]
            lookup(normalize_entries(s), k) == lookup(s, k) by {
            if k == p.0 {
                lemma_lookup_push_same(t, p.0, p.1);
                assert(lookup(s, k) == Some(p.1));
            } else {
                lemma_lookup_push_other(t, p, k);
            }
        }
    }
}

proof fn lemma_entries_view_update(s: Seq<(String, Value)>, i: int, p: (String, Value))
    requires
        0 <= i < s.len(),
    ensures
        entries_view(s.update(i, p)) =~= entries_view(s).update(i, (p.0@, p.1)),
{
}

proof fn lemma_entries_view_push(s: Seq<(String, Value)>, p: (String, Value))
    ensures
        entries_view(s.push(p)) =~= entries_view(s).push((p.0@, p.1)),
{
}

/// An ordered, duplicate-free mapping from document-type name to its schema
/// fragment. Obtained only by normalizing a keyed-object value, so the keys
/// are always unique.
#[derive(Debug, PartialEq)]
pub struct DocumentMap {
    entries: Vec<(String, Value)>,
}

impl View for DocumentMap {
    type V = Seq<(Seq<char>, Value)>;

    closed spec fn view(&self) -> Seq<(Seq<char>, Value)> {
        entries_view(self.entries@)
    }
}

fn upsert_entry(entries: &mut Vec<(String, Value)>, key: String, value: Value)
    ensures
        entries_view(final(entries)@) == upsert(entries_view(old(entries)@), key@, value),
{
    let ghost s = entries_view(entries@);
    let mut i: usize = 0;
    while i < entries.len()
        invariant
            0 <= i <= entries@.len(),
            entries@ == old(entries)@,
            s == entries_view(entries@),
            forall|j: int| 0 <= j < i ==> s[j].0 != key@,
        decreases entries@.len() - i,
    {
        if entries[i].0 == key {
            proof {
                assert(s[i as int].0 == key@);
                lemma_index_of_first_match(s, key@, i as int);
            }
            entries[i] = (key, value);
            proof {
                lemma_entries_view_update(old(entries)@, i as int, (key, value));
                assert(entries_view(entries@) =~= upsert(s, key@, value));
            }
            return;
        }
        i = i + 1;
    }
    proof {
        assert(forall|j: int| 0 <= j < s.len() ==> s[j].0 != key@);
        assert(!obj_contains_key(s, key@));
    }
    entries.push((key, value));
    proof {
        lemma_entries_view_push(old(entries)@, (key, value));
        assert(entries_view(entries@) =~= upsert(s, key@, value));
    }
}

impl DocumentMap {
    /// Whether the map's keys are unique, as normalization guarantees.
    pub open spec fn wf(&self) -> bool {
        unique_keys(self@)
    }

    /// The empty map.
    pub fn new() -> (r: DocumentMap)
        ensures
            r@ == Seq::<(Seq<char>, Value)>::empty(),
            r.wf(),
    {
        DocumentMap { entries: Vec::new() }
    }

    /// The number of document types in the map.
    pub fn len(&self) -> (r: usize)
        ensures
            r == self@.len(),
    {
        self.entries.len()
    }

    /// The document-type name at a position, in normalization order.
    pub fn key_at(&self, i: usize) -> (r: &String)
        requires
            i < self@.len(),
        ensures
            r@ == self@[i as int].0,
    {
        &self.entries[i].0
    }

    /// Whether a document type of the given name is present.
    pub fn contains_key(&self, name: &str) -> (r: bool)
        ensures
            r == obj_contains_key(self@, name@),
    {
        let key: String = name.to_owned();
        let mut i: usize = 0;
        while i < self.entries.len()
            invariant
                0 <= i <= self@.len(),
                self@ == entries_view(self.entries@),
                key@ == name@,
                forall|j: int| 0 <= j < i ==> self@[j].0 != name@,
            decreases self@.len() - i,
        {
            if self.entries[i].0 == key {
                proof {
                    assert(self@[i as int].0 == name@);
                }
                return true;
            }
            i = i + 1;
        }
        false
    }

    /// The schema fragment stored under the given document-type name, if
    /// any: the value the normalizer settled on for that key.
    pub fn get(&self, name: &str) -> (r: Option<&Value>)
        requires
            self.wf(),
        ensures
            match r {
                Some(v) => lookup(self@, name@) == Some(*v),
                None => lookup(self@, name@) is None,
            },
    {
        let key: String = name.to_owned();
        let mut i: usize = 0;
        while i < self.entries.len()
            invariant
                0 <= i <= self@.len(),
                self@ == entries_view(self.entries@),
                self.wf(),
                key@ == name@,
                forall|j: int| 0 <= j < i ==> self@[j].0 != name@,
            decreases self@.len() - i,
        {
            if self.entries[i].0 == key {
                proof {
                    assert(self@[i as int].0 == name@);
                    assert forall|j: int|
                        0 <= j < self@.len() && j != i as int implies self@[j].0 != name@ by {
                        if j > i as int {
                            assert(self@[i as int].0 != self@[j].0);
                        }
                    }
                    lemma_lookup_unique_match(self@, name@, i as int);
                }
                return Some(&self.entries[i].1);
            }
            i = i + 1;
        }
        proof {
            lemma_lookup_absent(self@, name@);
        }
        None
    }

    /// Normalize a keyed-object value into a document map. Any other shape
    /// of value is rejected with [`ProtocolError::NotAMap`].
    pub fn normalize(documents: Value) -> (r: Result<DocumentMap, ProtocolError>)
        ensures
            match r {
                Ok(m) => {
                    &&& documents is Object
                    &&& m@ == normalize_entries(entries_view(documents->Object_0@))
                    &&& m.wf()
                },
                Err(e) => !(documents is Object) && e == ProtocolError::NotAMap,
            },
    {
        let mut pairs = match documents {
            Value::Object(pairs) => pairs,
            _ => {
                return Err(ProtocolError::NotAMap);
            },
        };
        let ghost orig = pairs@;
        let ghost full = entries_view(orig);
        let mut entries: Vec<(String, Value)> = Vec::new();
        while pairs.len() > 0
            invariant
                full == entries_view(orig),
                pairs@.len() <= orig.len(),
                pairs@ == orig.skip(orig.len() - pairs@.len()),
                entries_view(entries@) == normalize_entries(
                    full.take(orig.len() - pairs@.len()),
                ),
            decreases pairs@.len(),
        {
            let ghost n = orig.len() - pairs@.len();
            let (key, value) = pairs.remove(0);
            proof {
                assert(pairs@ =~= orig.skip(n + 1));
                assert((key, value) == orig[n]);
            }
            upsert_entry(&mut entries, key, value);
            proof {
                assert(full.len() == orig.len());
                assert(0 <= n && n + 1 <= full.len());
                assert(full.take(n + 1).drop_last() =~= full.take(n));
                assert(full.take(n + 1).last() == full[n]);
                assert(full[n] == (orig[n].0@, orig[n].1));
                assert(entries_view(entries@) == normalize_entries(full.take(n + 1)));
            }
        }
        proof {
            assert(full.take(orig.len() as int) =~= full);
            lemma_normalize_entries_unique(full);
        }
        Ok(DocumentMap { entries })
    }
}

} // verus!
