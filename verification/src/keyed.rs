//! Small association maps keyed by strings or by `u32`.
//!
//! Entries are kept in insertion order; a key occurs at most once because
//! `insert` overwrites the entry that already holds the key.  The view is the
//! mathematical map from keys to values, where the last entry holding a key
//! decides its value.

use vstd::prelude::*;
use crate::text::{chars_of, eq_range};

verus! {

/// Value of the last entry in `s` whose key is `k`.
pub open spec fn assoc_get<K, V>(s: Seq<(K, V)>, k: K) -> Option<V>
    decreases s.len(),
{
    if s.len() == 0 {
        None
    } else if s.last().0 == k {
        Some(s.last().1)
    } else {
        assoc_get(s.drop_last(), k)
    }
}

/// The map described by an association list.
pub open spec fn assoc_map<K, V>(s: Seq<(K, V)>) -> Map<K, V> {
    Map::new(|k: K| assoc_get(s, k) is Some, |k: K| assoc_get(s, k)->0)
}

/// `i` is the last index of `s` whose key is `k`.
pub open spec fn last_key_index<K, V>(s: Seq<(K, V)>, k: K, i: int) -> bool {
    0 <= i < s.len() && s[i].0 == k && forall|j: int| i < j < s.len() ==> s[j].0 != k
}

/// Overwriting the last entry holding `k` replaces the value of `k` only.
pub proof fn lemma_assoc_update<K, V>(s: Seq<(K, V)>, i: int, k: K, v: V, k2: K)
    requires
        last_key_index(s, k, i),
    ensures
        assoc_get(s.update(i, (k, v)), k2) == if k2 == k {
            Some(v)
        } else {
            assoc_get(s, k2)
        },
    decreases s.len(),
{
    let t = s.update(i, (k, v));
    if i == s.len() - 1 {
        assert(t.drop_last() =~= s.drop_last());
    } else {
        assert(t.drop_last() =~= s.drop_last().update(i, (k, v)));
        lemma_assoc_update(s.drop_last(), i, k, v, k2);
    }
}

/// Without an entry for `k`, the lookup of `k` finds nothing.
pub proof fn lemma_assoc_absent<K, V>(s: Seq<(K, V)>, k: K)
    requires
        forall|j: int| 0 <= j < s.len() ==> s[j].0 != k,
    ensures
        assoc_get(s, k) is None,
    decreases s.len(),
{
    if s.len() > 0 {
        lemma_assoc_absent(s.drop_last(), k);
    }
}

/// A lookup that succeeds comes from the last entry holding the key.
pub proof fn lemma_assoc_found<K, V>(s: Seq<(K, V)>, i: int, k: K)
    requires
        last_key_index(s, k, i),
    ensures
        assoc_get(s, k) == Some(s[i].1),
    decreases s.len(),
{
    if i < s.len() - 1 {
        lemma_assoc_found(s.drop_last(), i, k);
    }
}

/// No two entries of `s` have the same key.
pub open spec fn keys_unique<K, V>(s: Seq<(K, V)>) -> bool {
    forall|i: int, j: int| 0 <= i < j < s.len() ==> (#[trigger] s[i]).0 != (#[trigger] s[j]).0
}

/// With unique keys, the map has one key per entry.
pub proof fn lemma_assoc_map_len<K, V>(s: Seq<(K, V)>)
    requires
        keys_unique(s),
    ensures
        assoc_map(s).dom().finite(),
        assoc_map(s).dom().len() == s.len(),
    decreases s.len(),
{
    if s.len() == 0 {
        assert(assoc_map(s).dom() =~= Set::<K>::empty());
    } else {
        let t = s.drop_last();
        let k = s.last().0;
        assert(keys_unique(t)) by {
            assert forall|i: int, j: int| 0 <= i < j < t.len() implies (#[trigger] t[i]).0 != (#[trigger] t[j]).0 by {
                assert(t[i] == s[i] && t[j] == s[j]);
            }
        }
        lemma_assoc_map_len(t);
        assert forall|j: int| 0 <= j < t.len() implies t[j].0 != k by {
            assert(t[j] == s[j]);
            assert(s[j].0 != s[s.len() - 1].0);
        }
        lemma_assoc_absent(t, k);
        assert(assoc_map(s).dom() =~= assoc_map(t).dom().insert(k));
        assert(!assoc_map(t).dom().contains(k));
    }
}

// ──────────────────────────────── StrMap ────────────────────────────────────

/// Map from strings to copyable values.
pub struct StrMap<V> {
    entries: Vec<(String, V)>,
}

impl<V> StrMap<V> {
    /// Each key occurs in one entry only.
    #[verifier::type_invariant]
    closed spec fn unique(&self) -> bool {
        keys_unique(self.entries@.map_values(|e: (String, V)| (e.0@, e.1)))
    }
}

impl<V: Copy> StrMap<V> {
    /// Entries with each key taken by its characters.
    pub closed spec fn entries_view(&self) -> Seq<(Seq<char>, V)> {
        self.entries@.map_values(|e: (String, V)| (e.0@, e.1))
    }

    /// The map's contents.
    pub open spec fn view(&self) -> Map<Seq<char>, V> {
        assoc_map(self.entries_view())
    }

    /// An empty map.
    pub fn new() -> (m: Self)
        ensures
            m@ == Map::<Seq<char>, V>::empty(),
    {
        let m = StrMap { entries: Vec::new() };
        assert(m@ =~= Map::<Seq<char>, V>::empty());
        m
    }

    /// Number of keys.
    pub fn len(&self) -> (n: usize)
        ensures
            self@.dom().finite(),
            n == self@.dom().len(),
    {
        proof {
            use_type_invariant(self);
            lemma_assoc_map_len(self.entries_view());
        }
        self.entries.len()
    }

    /// Index of the last entry whose key equals `key`.
    fn find_index(&self, key: &Vec<char>) -> (r: Option<usize>)
        ensures
            r matches Some(i) ==> last_key_index(self.entries_view(), key@, i as int),
            r is None ==> forall|j: int|
                0 <= j < self.entries_view().len() ==> self.entries_view()[j].0 != key@,
    {
        let mut i = self.entries.len();
        while i > 0
            invariant
                i <= self.entries.len(),
                forall|j: int| i <= j < self.entries_view().len() ==> self.entries_view()[j].0 != key@,
            decreases i,
        {
            let kv = chars_of(self.entries[i - 1].0.as_str());
            if eq_range(&kv, 0, kv.len(), key) {
                assert(kv@.subrange(0, kv@.len() as int) =~= kv@);
                return Some(i - 1);
            }
            assert(kv@.subrange(0, kv@.len() as int) =~= kv@);
            i = i - 1;
        }
        None
    }

    /// The value stored for `key`, if any.
    pub fn get(&self, key: &str) -> (r: Option<&V>)
        ensures
            r matches Some(x) ==> self@.contains_key(key@) && *x == self@[key@],
            r is None ==> !self@.contains_key(key@),
    {
        let kv = chars_of(key);
        match self.find_index(&kv) {
            Some(i) => {
                proof {
                    lemma_assoc_found(self.entries_view(), i as int, key@);
                }
                Some(&self.entries[i].1)
            },
            None => {
                proof {
                    lemma_assoc_absent(self.entries_view(), key@);
                }
                None
            },
        }
    }

    /// Whether `key` has a value.
    pub fn contains_key(&self, key: &str) -> (r: bool)
        ensures
            r == self@.contains_key(key@),
    {
        self.get(key).is_some()
    }

    /// Stores `value` for `key`, replacing any earlier value.
    pub fn insert(&mut self, key: String, value: V)
        ensures
            final(self)@ == old(self)@.insert(key@, value),
    {
        proof {
            use_type_invariant(&*self);
        }
        let kv = chars_of(key.as_str());
        let ghost old_entries = self.entries_view();
        let found = self.find_index(&kv);
        let mut entries: Vec<(String, V)> = Vec::new();
        std::mem::swap(&mut entries, &mut self.entries);
        assert(entries@.map_values(|e: (String, V)| (e.0@, e.1)) == old_entries);
        match found {
            Some(i) => {
                entries.set(i, (key, value));
                let ghost ev = entries@.map_values(|e: (String, V)| (e.0@, e.1));
                proof {
                    assert(ev =~= old_entries.update(i as int, (kv@, value)));
                    assert forall|a: int, b: int| 0 <= a < b < ev.len() implies (#[trigger] ev[a]).0 != (#[trigger] ev[b]).0 by {
                        assert(old_entries[a].0 != old_entries[b].0);
                    }
                    assert forall|k2: Seq<char>| #[trigger] assoc_get(ev, k2) == (
                    if k2 == kv@ {
                        Some(value)
                    } else {
                        assoc_get(old_entries, k2)
                    }) by {
                        lemma_assoc_update(old_entries, i as int, kv@, value, k2);
                    }
                }
            },
            None => {
                entries.push((key, value));
                let ghost ev = entries@.map_values(|e: (String, V)| (e.0@, e.1));
                proof {
                    assert(ev =~= old_entries.push((kv@, value)));
                    assert(ev.drop_last() =~= old_entries);
                    assert forall|a: int, b: int| 0 <= a < b < ev.len() implies (#[trigger] ev[a]).0 != (#[trigger] ev[b]).0 by {
                        if b < ev.len() - 1 {
                            assert(old_entries[a].0 != old_entries[b].0);
                        } else {
                            assert(ev[a] == old_entries[a]);
                        }
                    }
                }
            },
        }
        self.entries = entries;
        assert(self@ =~= old(self)@.insert(kv@, value));
    }

    /// Removes every entry.
    pub fn clear(&mut self)
        ensures
            final(self)@ == Map::<Seq<char>, V>::empty(),
    {
        self.entries = Vec::new();
        assert(self@ =~= Map::<Seq<char>, V>::empty());
    }
}

// ──────────────────────────────── U32Map ───────────────────────────────────

/// Map from `u32` keys (file-attribute flags) to copyable values.
pub struct U32Map<V> {
    entries: Vec<(u32, V)>,
}

impl<V> U32Map<V> {
    /// Each key occurs in one entry only.
    #[verifier::type_invariant]
    closed spec fn unique(&self) -> bool {
        keys_unique(self.entries@)
    }
}

impl<V: Copy> U32Map<V> {
    /// Entries in insertion order.
    pub closed spec fn entries_view(&self) -> Seq<(u32, V)> {
        self.entries@
    }

    /// The map's contents.
    pub open spec fn view(&self) -> Map<u32, V> {
        assoc_map(self.entries_view())
    }

    /// An empty map.
    pub fn new() -> (m: Self)
        ensures
            m@ == Map::<u32, V>::empty(),
    {
        let m = U32Map { entries: Vec::new() };
        assert(m@ =~= Map::<u32, V>::empty());
        m
    }

    /// Number of keys.
    pub fn len(&self) -> (n: usize)
        ensures
            self@.dom().finite(),
            n == self@.dom().len(),
    {
        proof {
            use_type_invariant(self);
            lemma_assoc_map_len(self.entries_view());
        }
        self.entries.len()
    }

    fn find_index(&self, key: u32) -> (r: Option<usize>)
        ensures
            r matches Some(i) ==> last_key_index(self.entries_view(), key, i as int),
            r is None ==> forall|j: int| 0 <= j < self.entries_view().len() ==> self.entries_view()[j].0 != key,
    {
        let mut i = self.entries.len();
        while i > 0
            invariant
                i <= self.entries.len(),
                forall|j: int| i <= j < self.entries_view().len() ==> self.entries_view()[j].0 != key,
            decreases i,
        {
            if self.entries[i - 1].0 == key {
                return Some(i - 1);
            }
            i = i - 1;
        }
        None
    }

    /// The value stored for `key`, if any.
    pub fn get(&self, key: &u32) -> (r: Option<&V>)
        ensures
            r matches Some(x) ==> self@.contains_key(*key) && *x == self@[*key],
            r is None ==> !self@.contains_key(*key),
    {
        match self.find_index(*key) {
            Some(i) => {
                proof {
                    lemma_assoc_found(self.entries_view(), i as int, *key);
                }
                Some(&self.entries[i].1)
            },
            None => {
                proof {
                    lemma_assoc_absent(self.entries_view(), *key);
                }
                None
            },
        }
    }

    /// Whether `key` has a value.
    pub fn contains_key(&self, key: &u32) -> (r: bool)
        ensures
            r == self@.contains_key(*key),
    {
        self.get(key).is_some()
    }

    /// Stores `value` for `key`, replacing any earlier value.
    pub fn insert(&mut self, key: u32, value: V)
        ensures
            final(self)@ == old(self)@.insert(key, value),
    {
        proof {
            use_type_invariant(&*self);
        }
        let ghost old_entries = self.entries_view();
        let found = self.find_index(key);
        let mut entries: Vec<(u32, V)> = Vec::new();
        std::mem::swap(&mut entries, &mut self.entries);
        match found {
            Some(i) => {
                entries.set(i, (key, value));
                proof {
                    assert forall|a: int, b: int| 0 <= a < b < entries@.len() implies (#[trigger] entries@[a]).0 != (#[trigger] entries@[b]).0 by {
                        assert(old_entries[a].0 != old_entries[b].0);
                    }
                    assert forall|k2: u32| #[trigger] assoc_get(entries@, k2) == (if k2
                        == key {
                        Some(value)
                    } else {
                        assoc_get(old_entries, k2)
                    }) by {
                        lemma_assoc_update(old_entries, i as int, key, value, k2);
                    }
                }
            },
            None => {
                entries.push((key, value));
                proof {
                    assert(entries@.drop_last() =~= old_entries);
                    assert forall|a: int, b: int| 0 <= a < b < entries@.len() implies (#[trigger] entries@[a]).0 != (#[trigger] entries@[b]).0 by {
                        if b < entries@.len() - 1 {
                            assert(old_entries[a].0 != old_entries[b].0);
                        } else {
                            assert(entries@[a] == old_entries[a]);
                        }
                    }
                }
            },
        }
        self.entries = entries;
        assert(self@ =~= old(self)@.insert(key, value));
    }

    /// Removes every entry.
    pub fn clear(&mut self)
        ensures
            final(self)@ == Map::<u32, V>::empty(),
    {
        self.entries = Vec::new();
        assert(self@ =~= Map::<u32, V>::empty());
    }
}

} // verus!
