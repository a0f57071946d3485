//! A string-keyed table with a mathematical `Map` view.
//!
//! Every registry and the cache of this crate is a mapping from string keys
//! to some payload. This module provides one verified association table,
//! `StrMap<V>`, kept as a vector of pairs whose keys are unique, viewed in
//! specifications as a `Map<Seq<char>, V>` together with the insertion order
//! of the keys.

use vstd::prelude::*;

verus! {

/// The ghost pairs of a stored entry vector: each key as its character
/// sequence beside its payload.
pub open spec fn raw_entry_seq<V>(s: Seq<(String, V)>) -> Seq<(Seq<char>, V)> {
    s.map_values(|p: (String, V)| (p.0@, p.1))
}

/// The keys of a ghost entry sequence, in storage order.
pub open spec fn entry_keys<V>(s: Seq<(Seq<char>, V)>) -> Seq<Seq<char>> {
    s.map_values(|p: (Seq<char>, V)| p.0)
}

/// Whether no key occurs twice in a ghost entry sequence.
pub open spec fn unique_keys<V>(s: Seq<(Seq<char>, V)>) -> bool {
    forall|i: int, j: int| 0 <= i < j < s.len() ==> s[i].0 != s[j].0
}

/// The mapping that a ghost entry sequence denotes: later entries shadow
/// earlier ones (with unique keys nothing is shadowed).
pub open spec fn entries_map<V>(s: Seq<(Seq<char>, V)>) -> Map<Seq<char>, V>
    decreases s.len(),
{
    if s.len() == 0 {
        Map::empty()
    } else {
        entries_map(s.drop_last()).insert(s.last().0, s.last().1)
    }
}

/// A key is in the denoted mapping exactly when some entry carries it.
pub proof fn lemma_entries_map_contains<V>(s: Seq<(Seq<char>, V)>, k: Seq<char>)
    ensures
        entries_map(s).contains_key(k) <==> exists|i: int| 0 <= i < s.len() && s[i].0 == k,
    decreases s.len(),
{
    if s.len() > 0 {
        lemma_entries_map_contains(s.drop_last(), k);
        if s.last().0 == k {
            assert(s[s.len() - 1].0 == k);
        } else if entries_map(s).contains_key(k) {
            let i = choose|i: int| 0 <= i < s.drop_last().len() && s.drop_last()[i].0 == k;
            assert(s[i].0 == k);
        } else {
            assert forall|i: int| 0 <= i < s.len() && s[i].0 == k implies false by {
                if i < s.len() - 1 {
                    assert(s.drop_last()[i].0 == k);
                }
            }
        }
    }
}

/// With unique keys, the entry at any position gives the mapped value of its
/// key.
pub proof fn lemma_entries_map_index<V>(s: Seq<(Seq<char>, V)>, i: int)
    requires
        unique_keys(s),
        0 <= i < s.len(),
    ensures
        entries_map(s).contains_key(s[i].0),
        entries_map(s)[s[i].0] == s[i].1,
    decreases s.len(),
{
    lemma_entries_map_contains(s, s[i].0);
    if i < s.len() - 1 {
        assert(s.drop_last()[i] == s[i]);
        lemma_entries_map_index(s.drop_last(), i);
        assert(s.last().0 != s[i].0);
    }
}

/// Replacing the payload at one position updates the denoted mapping at that
/// entry's key, provided keys are unique.
pub proof fn lemma_entries_map_update<V>(s: Seq<(Seq<char>, V)>, i: int, v: V)
    requires
        unique_keys(s),
        0 <= i < s.len(),
    ensures
        entries_map(s.update(i, (s[i].0, v))) == entries_map(s).insert(s[i].0, v),
    decreases s.len(),
{
    let t = s.update(i, (s[i].0, v));
    if i == s.len() - 1 {
        assert(t.drop_last() =~= s.drop_last());
        assert(t.last() == (s[i].0, v));
        assert(entries_map(t) == entries_map(s.drop_last()).insert(s[i].0, v));
        assert(entries_map(s.drop_last()).insert(s[i].0, v) =~= entries_map(s).insert(s[i].0, v));
    } else {
        assert(t.drop_last() =~= s.drop_last().update(i, (s[i].0, v)));
        assert(s.drop_last()[i] == s[i]);
        lemma_entries_map_update(s.drop_last(), i, v);
        assert(t.last() == s.last());
        assert(s.last().0 != s[i].0);
        assert(entries_map(t) == entries_map(s.drop_last()).insert(s[i].0, v).insert(
            s.last().0,
            s.last().1,
        ));
        assert(entries_map(s.drop_last()).insert(s[i].0, v).insert(s.last().0, s.last().1)
            =~= entries_map(s).insert(s[i].0, v));
    }
}

/// Removing one entry removes exactly its key from the denoted mapping,
/// provided keys are unique.
pub proof fn lemma_entries_map_remove<V>(s: Seq<(Seq<char>, V)>, i: int)
    requires
        unique_keys(s),
        0 <= i < s.len(),
    ensures
        entries_map(s.remove(i)) == entries_map(s).remove(s[i].0),
    decreases s.len(),
{
    let t = s.remove(i);
    if i == s.len() - 1 {
        assert(t =~= s.drop_last());
        lemma_entries_map_contains(s.drop_last(), s[i].0);
        assert forall|j: int| 0 <= j < s.drop_last().len() implies s.drop_last()[j].0 != s[i].0 by {
            assert(s[j] == s.drop_last()[j]);
        }
        assert(!entries_map(s.drop_last()).contains_key(s[i].0));
        assert(entries_map(t) =~= entries_map(s).remove(s[i].0));
    } else {
        assert(t.drop_last() =~= s.drop_last().remove(i));
        assert(s.drop_last()[i] == s[i]);
        lemma_entries_map_remove(s.drop_last(), i);
        assert(t.last() == s.last());
        assert(s.last().0 != s[i].0);
        assert(entries_map(t) == entries_map(s.drop_last()).remove(s[i].0).insert(
            s.last().0,
            s.last().1,
        ));
        assert(entries_map(s.drop_last()).remove(s[i].0).insert(s.last().0, s.last().1)
            =~= entries_map(s).remove(s[i].0));
    }
}

/// A string-keyed table: insertion-ordered entries with unique keys, seen in
/// specifications as a `Map` from key characters to payloads.
pub struct StrMap<V> {
    entries: Vec<(String, V)>,
}

impl<V> StrMap<V> {
    /// The ghost entry sequence behind this table.
    spec fn entry_seq(&self) -> Seq<(Seq<char>, V)> {
        raw_entry_seq(self.entries@)
    }

    /// The mapping this table holds.
    pub closed spec fn view(&self) -> Map<Seq<char>, V> {
        entries_map(self.entry_seq())
    }

    /// The keys of this table in insertion order.
    pub closed spec fn keys(&self) -> Seq<Seq<char>> {
        entry_keys(self.entry_seq())
    }

    /// Well-formedness: no stored key repeats. Constructors establish it and
    /// every method preserves it.
    pub closed spec fn wf(&self) -> bool {
        unique_keys(self.entry_seq())
    }

    /// The stored keys of a well-formed table never repeat, and they are
    /// exactly the keys of the mapping.
    pub proof fn lemma_keys(&self)
        requires
            self.wf(),
        ensures
            forall|i: int, j: int| 0 <= i < j < self.keys().len() ==> self.keys()[i]
                != self.keys()[j],
            forall|k: Seq<char>| self@.contains_key(k) <==> self.keys().contains(k),
            self@.dom() =~= self.keys().to_set(),
    {
        assert forall|k: Seq<char>| self@.contains_key(k) <==> self.keys().contains(k) by {
            lemma_entries_map_contains(self.entry_seq(), k);
            if self@.contains_key(k) {
                let i = choose|i: int|
                    0 <= i < self.entry_seq().len() && self.entry_seq()[i].0 == k;
                assert(self.keys()[i] == k);
            }
            if self.keys().contains(k) {
                let i = choose|i: int| 0 <= i < self.keys().len() && self.keys()[i] == k;
                assert(self.entry_seq()[i].0 == k);
            }
        }
    }

    /// Creates an empty table.
    pub fn new() -> (r: Self)
        ensures
            r.wf(),
            r@ == Map::<Seq<char>, V>::empty(),
            r.keys() == Seq::<Seq<char>>::empty(),
    {
        let r = StrMap { entries: Vec::new() };
        proof {
            assert(r.keys() =~= Seq::<Seq<char>>::empty());
        }
        r
    }

    /// Finds the position of a key in an entry vector, if present.
    fn find_in(entries: &Vec<(String, V)>, key: &String) -> (r: Option<usize>)
        ensures
            match r {
                Some(i) => i < entries@.len() && raw_entry_seq(entries@)[i as int].0 == key@,
                None => forall|i: int| 0 <= i < entries@.len() ==> raw_entry_seq(entries@)[i].0
                    != key@,
            },
    {
        let n = entries.len();
        for i in 0..n
            invariant
                n == entries@.len(),
                forall|j: int| 0 <= j < i ==> raw_entry_seq(entries@)[j].0 != key@,
        {
            if entries[i].0.eq(key) {
                return Some(i);
            }
        }
        None
    }

    /// Inserts or overwrites the entry for `key`: an absent key is appended,
    /// a present key keeps its place and gets the new payload.
    pub fn insert(&mut self, key: String, value: V)
        requires
            old(self).wf(),
        ensures
            final(self).wf(),
            final(self)@ == old(self)@.insert(key@, value),
            final(self).keys() == if old(self)@.contains_key(key@) {
                old(self).keys()
            } else {
                old(self).keys().push(key@)
            },
    {
        let ghost s0 = self.entry_seq();
        match Self::find_in(&self.entries, &key) {
            Some(i) => {
                proof {
                    lemma_entries_map_contains(s0, key@);
                    lemma_entries_map_update(s0, i as int, value);
                }
                self.entries[i] = (key, value);
                proof {
                    assert(self.entry_seq() =~= s0.update(i as int, (s0[i as int].0, value)));
                    assert(unique_keys(self.entry_seq()));
                    assert(entry_keys(self.entry_seq()) =~= entry_keys(s0));
                }
            },
            None => {
                proof {
                    lemma_entries_map_contains(s0, key@);
                }
                self.entries.push((key, value));
                proof {
                    assert(self.entry_seq() =~= s0.push((self.entry_seq().last().0, value)));
                    assert(self.entry_seq().drop_last() =~= s0);
                    assert(unique_keys(self.entry_seq()));
                    assert(entry_keys(self.entry_seq()) =~= entry_keys(s0).push(
                        self.entry_seq().last().0,
                    ));
                }
            },
        }
    }

    /// Looks the key up: the mapped payload if present, nothing otherwise.
    pub fn get(&self, key: &str) -> (r: Option<&V>)
        requires
            self.wf(),
        ensures
            match r {
                Some(v) => self@.contains_key(key@) && *v == self@[key@],
                None => !self@.contains_key(key@),
            },
    {
        let owned: String = key.to_owned();
        match Self::find_in(&self.entries, &owned) {
            Some(i) => {
                proof {
                    lemma_entries_map_index(self.entry_seq(), i as int);
                }
                Some(&self.entries[i].1)
            },
            None => {
                proof {
                    lemma_entries_map_contains(self.entry_seq(), key@);
                }
                None
            },
        }
    }

    /// Whether the key is present.
    pub fn contains_key(&self, key: &str) -> (r: bool)
        requires
            self.wf(),
        ensures
            r == self@.contains_key(key@),
    {
        self.get(key).is_some()
    }

    /// Removes the entry for `key`, if any; other entries keep their order.
    pub fn remove(&mut self, key: &str)
        requires
            old(self).wf(),
        ensures
            final(self).wf(),
            final(self)@ == old(self)@.remove(key@),
            !old(self)@.contains_key(key@) ==> final(self).keys() == old(self).keys(),
            old(self)@.contains_key(key@) ==> exists|i: int|
                0 <= i < old(self).keys().len() && old(self).keys()[i] == key@
                    && final(self).keys() == old(self).keys().remove(i),
    {
        let ghost s0 = self.entry_seq();
        let owned: String = key.to_owned();
        match Self::find_in(&self.entries, &owned) {
            Some(i) => {
                proof {
                    lemma_entries_map_contains(s0, key@);
                    lemma_entries_map_remove(s0, i as int);
                    assert(entry_keys(s0)[i as int] == key@);
                }
                let _ = self.entries.remove(i);
                proof {
                    assert(self.entry_seq() =~= s0.remove(i as int));
                    assert forall|p: int, q: int|
                        0 <= p < q < self.entry_seq().len() implies self.entry_seq()[p].0
                        != self.entry_seq()[q].0 by {
                        let pp = if p < i { p } else { p + 1 };
                        let qq = if q < i { q } else { q + 1 };
                        assert(self.entry_seq()[p] == s0[pp]);
                        assert(self.entry_seq()[q] == s0[qq]);
                    }
                    assert(entry_keys(self.entry_seq()) =~= entry_keys(s0).remove(i as int));
                    assert((i as int) < old(self).keys().len() && old(self).keys()[i as int]
                        == key@ && self.keys() == old(self).keys().remove(i as int));
                }
            },
            None => {
                proof {
                    lemma_entries_map_contains(s0, key@);
                    assert(entries_map(s0).remove(key@) =~= entries_map(s0));
                }
            },
        }
    }

    /// Removes every entry.
    pub fn clear(&mut self)
        ensures
            final(self).wf(),
            final(self)@ == Map::<Seq<char>, V>::empty(),
            final(self).keys() == Seq::<Seq<char>>::empty(),
    {
        self.entries = Vec::new();
        proof {
            assert(self.keys() =~= Seq::<Seq<char>>::empty());
        }
    }

    /// The number of entries.
    pub fn len(&self) -> (r: usize)
        ensures
            r == self.keys().len(),
    {
        self.entries.len()
    }

    /// The key stored at position `i`.
    pub fn key_at(&self, i: usize) -> (r: &String)
        requires
            i < self.keys().len(),
        ensures
            r@ == self.keys()[i as int],
    {
        &self.entries[i].0
    }

    /// The payload stored at position `i`.
    pub fn value_at(&self, i: usize) -> (r: &V)
        requires
            self.wf(),
            i < self.keys().len(),
        ensures
            self@.contains_key(self.keys()[i as int]),
            *r == self@[self.keys()[i as int]],
    {
        proof {
            lemma_entries_map_index(self.entry_seq(), i as int);
        }
        &self.entries[i].1
    }

    /// All keys as owned strings, in insertion order.
    pub fn key_strings(&self) -> (r: Vec<String>)
        ensures
            r@.len() == self.keys().len(),
            forall|i: int| 0 <= i < r@.len() ==> r@[i]@ == self.keys()[i],
    {
        let mut out: Vec<String> = Vec::new();
        let n = self.entries.len();
        for i in 0..n
            invariant
                n == self.entries@.len(),
                out@.len() == i,
                forall|j: int| 0 <= j < i ==> out@[j]@ == self.keys()[j],
        {
            out.push(self.entries[i].0.clone());
        }
        out
    }
}

} // verus!
