//! A small map kept as a list of entries with distinct keys. It stands
//! where a hash map would: its view is a `Map`, and every operation is
//! stated over that view.

use vstd::prelude::*;
use crate::word::{Address, Word, H256};

verus! {

/// A key that can be compared for equality in executable code.
pub trait Key: Copy {
    fn same(&self, other: &Self) -> (r: bool)
        ensures
            r == (*self == *other),
    ;
}

impl Key for Word {
    fn same(&self, other: &Self) -> (r: bool) {
        self.l0 == other.l0 && self.l1 == other.l1 && self.l2 == other.l2 && self.l3 == other.l3
    }
}

impl Key for H256 {
    fn same(&self, other: &Self) -> (r: bool) {
        self.h0 == other.h0 && self.h1 == other.h1 && self.h2 == other.h2 && self.h3 == other.h3
    }
}

impl Key for Address {
    fn same(&self, other: &Self) -> (r: bool) {
        self.a0 == other.a0 && self.a1 == other.a1 && self.a2 == other.a2
    }
}

/// Whether some entry of `s` has key `k`.
pub open spec fn has_key<K, Val>(s: Seq<(K, Val)>, k: K) -> bool {
    exists|i: int| 0 <= i < s.len() && (#[trigger] s[i]).0 == k
}

/// The position of an entry of `s` with key `k`, where there is one.
pub open spec fn index_of<K, Val>(s: Seq<(K, Val)>, k: K) -> int {
    choose|i: int| 0 <= i < s.len() && (#[trigger] s[i]).0 == k
}

/// No two entries of `s` have the same key.
pub open spec fn distinct<K, Val>(s: Seq<(K, Val)>) -> bool {
    forall|i: int, j: int| 0 <= i < j < s.len() ==> (#[trigger] s[i]).0 != (#[trigger] s[j]).0
}

/// The map that the entries of `s` stand for.
pub open spec fn as_map<K, Val>(s: Seq<(K, Val)>) -> Map<K, Val> {
    Map::new(|k: K| has_key(s, k), |k: K| s[index_of(s, k)].1)
}

/// With distinct keys, the entry at `i` is the one that the map has for its
/// key.
pub proof fn lemma_entry<K, Val>(s: Seq<(K, Val)>, i: int)
    requires
        distinct(s),
        0 <= i < s.len(),
    ensures
        has_key(s, s[i].0),
        index_of(s, s[i].0) == i,
        as_map(s).contains_key(s[i].0),
        as_map(s)[s[i].0] == s[i].1,
{
    let k = s[i].0;
    assert(has_key(s, k));
    let j = index_of(s, k);
    assert(0 <= j < s.len() && s[j].0 == k);
    if j < i {
        assert(s[j].0 != s[i].0);
    } else if i < j {
        assert(s[i].0 != s[j].0);
    }
}

/// A map from keys to values, held as a list of entries.
#[derive(Clone, Debug)]
pub struct AssocMap<K: Key, Val> {
    pub entries: Vec<(K, Val)>,
}

impl<K: Key, Val> View for AssocMap<K, Val> {
    type V = Map<K, Val>;

    open spec fn view(&self) -> Map<K, Val> {
        as_map(self.entries@)
    }
}

impl<K: Key, Val> AssocMap<K, Val> {
    /// No key occurs twice.
    pub open spec fn wf(&self) -> bool {
        distinct(self.entries@)
    }

    pub fn new() -> (m: Self)
        ensures
            m.wf(),
            m@ == Map::<K, Val>::empty(),
    {
        let m = AssocMap { entries: Vec::new() };
        proof {
            assert(m@ =~= Map::<K, Val>::empty());
        }
        m
    }

    /// The position of the entry with key `key`, if there is one.
    pub fn find(&self, key: &K) -> (r: Option<usize>)
        ensures
            match r {
                Some(i) => i < self.entries@.len() && self.entries@[i as int].0 == *key,
                None => !has_key(self.entries@, *key),
            },
    {
        let mut i: usize = 0;
        while i < self.entries.len()
            invariant
                i <= self.entries@.len(),
                forall|j: int| 0 <= j < i ==> (#[trigger] self.entries@[j]).0 != *key,
            decreases self.entries@.len() - i,
        {
            if self.entries[i].0.same(key) {
                return Some(i);
            }
            i = i + 1;
        }
        None
    }

    pub fn contains_key(&self, key: &K) -> (r: bool)
        ensures
            r == self@.contains_key(*key),
    {
        self.find(key).is_some()
    }

    /// The value at `key`, if the map has one.
    pub fn get(&self, key: &K) -> (r: Option<&Val>)
        requires
            self.wf(),
        ensures
            match r {
                Some(v) => self@.contains_key(*key) && *v == self@[*key],
                None => !self@.contains_key(*key),
            },
    {
        match self.find(key) {
            Some(i) => {
                proof {
                    lemma_entry(self.entries@, i as int);
                }
                Some(&self.entries[i].1)
            },
            None => None,
        }
    }

    /// Puts `value` at `key`, in place of what was there.
    pub fn insert(&mut self, key: K, value: Val)
        requires
            old(self).wf(),
        ensures
            final(self).wf(),
            final(self)@ == old(self)@.insert(key, value),
    {
        let found = self.find(&key);
        let ghost at: int = match found {
            Some(i) => i as int,
            None => self.entries@.len() as int,
        };
        match found {
            Some(i) => {
                self.entries.set(i, (key, value));
            },
            None => {
                self.entries.push((key, value));
            },
        }
        proof {
            let before = old(self).entries@;
            let after = self.entries@;
            assert(after[at] == (key, value));
            assert forall|j: int| 0 <= j < after.len() && j != at implies #[trigger] after[j]
                == before[j] && after[j].0 != key by {
                if after[j].0 == key {
                    assert(before[j].0 == key);
                }
            }
            assert(distinct(after)) by {
                assert forall|i: int, j: int| 0 <= i < j < after.len() implies (
                #[trigger] after[i]).0 != (#[trigger] after[j]).0 by {
                    if i != at && j != at {
                        assert(before[i].0 != before[j].0);
                    }
                }
            }
            assert forall|k: K|
                self@.contains_key(k) == old(self)@.insert(key, value).contains_key(k) by {
                if has_key(after, k) {
                    let j = index_of(after, k);
                    if j != at {
                        assert(before[j].0 == k);
                    }
                }
                if has_key(before, k) {
                    let j = index_of(before, k);
                    assert(after[j].0 == k);
                }
            }
            assert forall|k: K| self@.contains_key(k) implies self@[k] == old(self)@.insert(
                key,
                value,
            )[k] by {
                let j = index_of(after, k);
                lemma_entry(after, j);
                if j != at {
                    lemma_entry(before, j);
                }
            }
            assert(self@ =~= old(self)@.insert(key, value));
        }
    }

    /// Takes the entry at `key` out of the map and returns its value.
    pub fn remove(&mut self, key: &K) -> (r: Option<Val>)
        requires
            old(self).wf(),
        ensures
            final(self).wf(),
            final(self)@ == old(self)@.remove(*key),
            match r {
                Some(v) => old(self)@.contains_key(*key) && v == old(self)@[*key],
                None => !old(self)@.contains_key(*key),
            },
    {
        match self.find(key) {
            Some(i) => {
                let entry = self.entries.remove(i);
                proof {
                    let before = old(self).entries@;
                    let after = self.entries@;
                    lemma_entry(before, i as int);
                    assert forall|j: int| 0 <= j < after.len() implies #[trigger] after[j] == before[if j
                        < i {
                        j
                    } else {
                        j + 1
                    }] && after[j].0 != *key by {
                        let o = if j < i {
                            j
                        } else {
                            j + 1
                        };
                        assert(after[j] == before[o]);
                        if o < i {
                            assert(before[o].0 != before[i as int].0);
                        } else {
                            assert(before[i as int].0 != before[o].0);
                        }
                    }
                    assert(distinct(after)) by {
                        assert forall|a: int, b: int| 0 <= a < b < after.len() implies (
                        #[trigger] after[a]).0 != (#[trigger] after[b]).0 by {
                            let oa = if a < i {
                                a
                            } else {
                                a + 1
                            };
                            let ob = if b < i {
                                b
                            } else {
                                b + 1
                            };
                            assert(before[oa].0 != before[ob].0);
                        }
                    }
                    assert forall|k: K|
                        self@.contains_key(k) == old(self)@.remove(*key).contains_key(k) by {
                        if has_key(after, k) {
                            let j = index_of(after, k);
                            let o = if j < i {
                                j
                            } else {
                                j + 1
                            };
                            assert(before[o].0 == k);
                        }
                        if has_key(before, k) && k != *key {
                            let o = index_of(before, k);
                            let j = if o < i {
                                o
                            } else {
                                o - 1
                            };
                            assert(after[j].0 == k);
                        }
                    }
                    assert forall|k: K| self@.contains_key(k) implies self@[k] == old(
                        self,
                    )@.remove(*key)[k] by {
                        let j = index_of(after, k);
                        let o = if j < i {
                            j
                        } else {
                            j + 1
                        };
                        lemma_entry(after, j);
                        lemma_entry(before, o);
                    }
                    assert(self@ =~= old(self)@.remove(*key));
                }
                Some(entry.1)
            },
            None => {
                proof {
                    assert(self@ =~= old(self)@.remove(*key));
                }
                None
            },
        }
    }
}

impl<K: Key, Val: Copy> AssocMap<K, Val> {
    /// A map with the same entries.
    pub fn duplicate(&self) -> (m: Self)
        ensures
            m.entries@ == self.entries@,
            m@ == self@,
    {
        let mut entries: Vec<(K, Val)> = Vec::new();
        let mut i: usize = 0;
        while i < self.entries.len()
            invariant
                i <= self.entries@.len(),
                entries@ == self.entries@.take(i as int),
            decreases self.entries@.len() - i,
        {
            entries.push(self.entries[i]);
            proof {
                assert(entries@ =~= self.entries@.take(i + 1));
            }
            i = i + 1;
        }
        proof {
            assert(entries@ =~= self.entries@);
        }
        AssocMap { entries }
    }
}

} // verus!
