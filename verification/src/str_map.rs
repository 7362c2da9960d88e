//! A map keyed by strings, holding its entries in insertion order.
//!
//! It stands where a string-keyed hash map would: each key occurs at most
//! once, `insert` replaces the value of a present key and appends a new one
//! otherwise, and lookups compare keys by their characters.
use vstd::prelude::*;
use crate::text::str_eq;

verus! {

/// Entries of a string-keyed map, keys pairwise distinct.
#[derive(Debug)]
pub struct StrMap<V: DeepView> {
    entries: Vec<(String, V)>,
}

/// The keys of an entry sequence are pairwise distinct.
pub open spec fn distinct_keys<W>(s: Seq<(Seq<char>, W)>) -> bool {
    forall|i: int, j: int| 0 <= i < s.len() && 0 <= j < s.len() && i != j ==> s[i].0 != s[j].0
}

/// `k` is one of the keys of `s`.
pub open spec fn has_key<W>(s: Seq<(Seq<char>, W)>, k: Seq<char>) -> bool {
    exists|i: int| 0 <= i < s.len() && s[i].0 == k
}

/// The position of key `k` in `s` (meaningful when `has_key(s, k)`).
pub open spec fn key_pos<W>(s: Seq<(Seq<char>, W)>, k: Seq<char>) -> int {
    choose|i: int| 0 <= i < s.len() && s[i].0 == k
}

/// The value stored under `k`, if any.
pub open spec fn lookup<W>(s: Seq<(Seq<char>, W)>, k: Seq<char>) -> Option<W> {
    if has_key(s, k) {
        Some(s[key_pos(s, k)].1)
    } else {
        None
    }
}

/// `s` after inserting `(k, v)`: the value of a present key is replaced in
/// place, a new key is appended.
pub open spec fn insert_entry<W>(s: Seq<(Seq<char>, W)>, k: Seq<char>, v: W) -> Seq<(Seq<char>, W)> {
    if has_key(s, k) {
        s.update(key_pos(s, k), (k, v))
    } else {
        s.push((k, v))
    }
}

/// In an entry sequence with distinct keys, the position of a key is the
/// unique index that holds it.
pub proof fn lemma_key_pos<W>(s: Seq<(Seq<char>, W)>, i: int)
    requires
        distinct_keys(s),
        0 <= i < s.len(),
    ensures
        has_key(s, s[i].0),
        key_pos(s, s[i].0) == i,
        lookup(s, s[i].0) == Some(s[i].1),
{
    assert(has_key(s, s[i].0));
}

/// Inserting keeps keys distinct.
pub proof fn lemma_insert_distinct<W>(s: Seq<(Seq<char>, W)>, k: Seq<char>, v: W)
    requires
        distinct_keys(s),
    ensures
        distinct_keys(insert_entry(s, k, v)),
        has_key(insert_entry(s, k, v), k),
{
    if has_key(s, k) {
        let p = key_pos(s, k);
        assert(s[p].0 == k);
        assert(insert_entry(s, k, v)[p].0 == k);
    } else {
        assert(insert_entry(s, k, v)[s.len() as int].0 == k);
    }
}

/// Inserting under a key: the key then maps to the new value, every other
/// key keeps its value, and the number of entries grows by one exactly
/// when the key was absent.
pub proof fn lemma_insert_entry_law<W>(s: Seq<(Seq<char>, W)>, k: Seq<char>, v: W, k2: Seq<char>)
    requires
        distinct_keys(s),
    ensures
        lookup(insert_entry(s, k, v), k) == Some(v),
        k2 != k ==> lookup(insert_entry(s, k, v), k2) == lookup(s, k2),
        insert_entry(s, k, v).len() == if has_key(s, k) {
            s.len()
        } else {
            s.len() + 1
        },
{
    lemma_lookup_insert(s, k, v, k2);
}

/// A lookup right after an insertion of the same key yields the inserted
/// value; lookups of other keys are unchanged.
pub proof fn lemma_lookup_insert<W>(s: Seq<(Seq<char>, W)>, k: Seq<char>, v: W, k2: Seq<char>)
    requires
        distinct_keys(s),
    ensures
        lookup(insert_entry(s, k, v), k) == Some(v),
        k2 != k ==> lookup(insert_entry(s, k, v), k2) == lookup(s, k2),
{
    lemma_insert_distinct(s, k, v);
    let t = insert_entry(s, k, v);
    if has_key(s, k) {
        let p = key_pos(s, k);
        lemma_key_pos(t, p);
        if k2 != k && has_key(s, k2) {
            let q = key_pos(s, k2);
            lemma_key_pos(s, q);
            lemma_key_pos(t, q);
        }
        if k2 != k && has_key(t, k2) {
            let q = key_pos(t, k2);
            assert(s[q].0 == k2);
        }
    } else {
        lemma_key_pos(t, s.len() as int);
        if k2 != k && has_key(s, k2) {
            let q = key_pos(s, k2);
            lemma_key_pos(s, q);
            lemma_key_pos(t, q);
        }
        if k2 != k && has_key(t, k2) {
            let q = key_pos(t, k2);
            assert(q < s.len());
            assert(s[q].0 == k2);
        }
    }
}

/// The views of stored entries.
pub open spec fn entries_view<V: DeepView>(e: Seq<(String, V)>) -> Seq<(Seq<char>, V::V)> {
    e.map_values(|x: (String, V)| (x.0@, x.1.deep_view()))
}

impl<V: DeepView> DeepView for StrMap<V> {
    type V = Seq<(Seq<char>, V::V)>;

    open spec fn deep_view(&self) -> Seq<(Seq<char>, V::V)> {
        entries_view(self.spec_entries())
    }
}

impl<V: DeepView> StrMap<V> {
    /// The stored entries, in insertion order.
    pub closed spec fn spec_entries(&self) -> Seq<(String, V)> {
        self.entries@
    }

    #[verifier::type_invariant]
    closed spec fn inv(&self) -> bool {
        distinct_keys(self.deep_view())
    }

    /// An empty map.
    pub fn new() -> (m: Self)
        ensures
            m.deep_view() == Seq::<(Seq<char>, V::V)>::empty(),
            m.spec_entries().len() == 0,
    {
        let m = StrMap { entries: Vec::new() };
        assert(m.deep_view() =~= Seq::<(Seq<char>, V::V)>::empty());
        m
    }

    /// Number of entries.
    pub fn len(&self) -> (n: usize)
        ensures
            n == self.deep_view().len(),
            n == self.spec_entries().len(),
            distinct_keys(self.deep_view()),
    {
        proof {
            use_type_invariant(self);
        }
        self.entries.len()
    }

    /// Position of `key`, if present.
    pub fn index_of(&self, key: &str) -> (r: Option<usize>)
        ensures
            r matches Some(i) ==> i < self.deep_view().len() && self.deep_view()[i as int].0
                == key@ && key_pos(self.deep_view(), key@) == i,
            r is None <==> !has_key(self.deep_view(), key@),
            distinct_keys(self.deep_view()),
    {
        proof {
            use_type_invariant(self);
        }
        let mut i: usize = 0;
        while i < self.entries.len()
            invariant
                i <= self.entries.len(),
                self.deep_view().len() == self.entries.len(),
                distinct_keys(self.deep_view()),
                forall|j: int| 0 <= j < i ==> self.deep_view()[j].0 != key@,
            decreases self.entries.len() - i,
        {
            if str_eq(self.entries[i].0.as_str(), key) {
                proof {
                    lemma_key_pos(self.deep_view(), i as int);
                }
                return Some(i);
            }
            i += 1;
        }
        None
    }

    /// Whether `key` is present.
    pub fn contains_key(&self, key: &str) -> (r: bool)
        ensures
            r == has_key(self.deep_view(), key@),
    {
        self.index_of(key).is_some()
    }

    /// The key at position `i`.
    pub fn key_at(&self, i: usize) -> (k: &String)
        requires
            i < self.deep_view().len(),
        ensures
            k@ == self.deep_view()[i as int].0,
    {
        &self.entries[i].0
    }

    /// The value at position `i`.
    pub fn value_at(&self, i: usize) -> (v: &V)
        requires
            i < self.deep_view().len(),
        ensures
            v.deep_view() == self.deep_view()[i as int].1,
            *v == self.spec_entries()[i as int].1,
    {
        &self.entries[i].1
    }

    /// The value stored under `key`.
    pub fn get(&self, key: &str) -> (r: Option<&V>)
        ensures
            r matches Some(v) ==> lookup(self.deep_view(), key@) == Some(v.deep_view()),
            r is None ==> lookup(self.deep_view(), key@) is None,
    {
        match self.index_of(key) {
            Some(i) => Some(&self.entries[i].1),
            None => None,
        }
    }

    /// Replaces the value at position `i`, keeping its key.
    pub fn set_value_at(&mut self, i: usize, v: V)
        requires
            i < old(self).deep_view().len(),
        ensures
            final(self).deep_view() == old(self).deep_view().update(
                i as int,
                (old(self).deep_view()[i as int].0, v.deep_view()),
            ),
    {
        proof {
            use_type_invariant(&*self);
        }
        let key = self.entries[i].0.clone();
        let ghost before = self.deep_view();
        let mut entries: Vec<(String, V)> = Vec::new();
        std::mem::swap(&mut entries, &mut self.entries);
        entries.set(i, (key, v));
        proof {
            assert(entries_view(entries@) =~= before.update(i as int, (before[i as int].0, v.deep_view())));
            assert forall|a: int, b: int| 0 <= a < before.len() && 0 <= b < before.len() && a != b
                implies entries_view(entries@)[a].0 != entries_view(entries@)[b].0 by {
                assert(before[a].0 != before[b].0);
            }
        }
        std::mem::swap(&mut entries, &mut self.entries);
    }

    /// Puts `v` at position `i`, keeping its key, and hands back the value
    /// it replaces.
    pub fn replace_value_at(&mut self, i: usize, v: V) -> (old_v: V)
        requires
            i < old(self).deep_view().len(),
        ensures
            old_v.deep_view() == old(self).deep_view()[i as int].1,
            final(self).deep_view() == old(self).deep_view().update(
                i as int,
                (old(self).deep_view()[i as int].0, v.deep_view()),
            ),
    {
        proof {
            use_type_invariant(&*self);
        }
        let ghost before = self.deep_view();
        let mut entries: Vec<(String, V)> = Vec::new();
        std::mem::swap(&mut entries, &mut self.entries);
        let ghost ev = entries@;
        let (key, old_v) = entries.remove(i);
        assert(ev[i as int] == (key, old_v));
        entries.insert(i, (key, v));
        proof {
            assert(entries@ =~= ev.update(i as int, (ev[i as int].0, v)));
            assert(entries_view(entries@) =~= before.update(i as int, (before[i as int].0, v.deep_view())));
            assert forall|a: int, b: int| 0 <= a < before.len() && 0 <= b < before.len() && a != b
                implies entries_view(entries@)[a].0 != entries_view(entries@)[b].0 by {
                assert(before[a].0 != before[b].0);
            }
        }
        std::mem::swap(&mut entries, &mut self.entries);
        old_v
    }

    /// Inserts `value` under `key`, replacing the value of a present key.
    pub fn insert(&mut self, key: String, value: V)
        ensures
            final(self).deep_view() == insert_entry(old(self).deep_view(), key@, value.deep_view()),
    {
        proof {
            use_type_invariant(&*self);
        }
        let ghost before = self.deep_view();
        let found = self.index_of(key.as_str());
        proof {
            lemma_insert_distinct(before, key@, value.deep_view());
        }
        let mut entries: Vec<(String, V)> = Vec::new();
        std::mem::swap(&mut entries, &mut self.entries);
        match found {
            Some(i) => {
                entries.set(i, (key, value));
                proof {
                    assert(entries_view(entries@) =~= before.update(i as int, (key@, value.deep_view())));
                }
            },
            None => {
                entries.push((key, value));
                proof {
                    assert(entries_view(entries@) =~= before.push((key@, value.deep_view())));
                }
            },
        }
        std::mem::swap(&mut entries, &mut self.entries);
    }
}

} // verus!
