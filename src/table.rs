//! A small map from string keys to values, kept as a vector of entries with
//! unique keys. Its view is a `Map`; `entries` gives the storage order.
use vstd::prelude::*;

use crate::text::str_eq;

verus! {

pub struct Table<T> {
    entries: Vec<(String, T)>,
}

pub open spec fn keys_unique<T>(e: Seq<(String, T)>) -> bool {
    forall|i: int, j: int| 0 <= i < e.len() && 0 <= j < e.len() && e[i].0@ == e[j].0@ ==> i == j
}

impl<T> View for Table<T> {
    type V = Map<Seq<char>, T>;

    closed spec fn view(&self) -> Map<Seq<char>, T> {
        let e = self.entries@;
        Map::new(
            |k: Seq<char>| exists|i: int| 0 <= i < e.len() && e[i].0@ == k,
            |k: Seq<char>| e[choose|i: int| 0 <= i < e.len() && e[i].0@ == k].1,
        )
    }
}

impl<T> Table<T> {
    pub closed spec fn wf(&self) -> bool {
        keys_unique(self.entries@)
    }

    /// The entries as (key, value) pairs in storage order.
    pub closed spec fn entries(&self) -> Seq<(Seq<char>, T)> {
        self.entries@.map_values(|e: (String, T)| (e.0@, e.1))
    }

    /// `entries` lists each key of the view once, with its value.
    pub proof fn lemma_entries(&self)
        requires
            self.wf(),
        ensures
            self.entries().len() == self@.len(),
            forall|i: int| #![trigger self.entries()[i]]
                0 <= i < self.entries().len() ==> self@.contains_key(self.entries()[i].0)
                    && self@[self.entries()[i].0] == self.entries()[i].1,
            forall|i: int, j: int|
                0 <= i < self.entries().len() && 0 <= j < self.entries().len() && #[trigger] self.entries()[i].0
                    == #[trigger] self.entries()[j].0 ==> i == j,
            forall|k: Seq<char>| #[trigger]
                self@.contains_key(k) ==> exists|i: int| 0 <= i < self.entries().len() && self.entries()[i].0 == k,
    {
        let e = self.entries@;
        let es = self.entries();
        assert forall|i: int| 0 <= i < es.len() implies self@.contains_key(#[trigger] es[i].0) && self@[es[i].0] == es[i].1 by {
            self.lemma_at(i);
        }
        assert forall|k: Seq<char>| #[trigger] self@.contains_key(k) implies exists|i: int| 0 <= i < es.len() && es[i].0 == k by {
            let i = choose|i: int| 0 <= i < e.len() && e[i].0@ == k;
            assert(es[i].0 == k);
        }
        let keys = es.map_values(|p: (Seq<char>, T)| p.0);
        assert(self@.dom() =~= keys.to_set()) by {
            assert forall|k: Seq<char>| #[trigger] keys.to_set().contains(k) implies self@.contains_key(k) by {
                let i = choose|i: int| 0 <= i < keys.len() && keys[i] == k;
                assert(e[i].0@ == k);
            }
            assert forall|k: Seq<char>| self@.contains_key(k) implies #[trigger] keys.to_set().contains(k) by {
                let i = choose|i: int| 0 <= i < e.len() && e[i].0@ == k;
                assert(keys[i] == k);
            }
        }
        assert(keys.no_duplicates()) by {
            assert forall|i: int, j: int| 0 <= i < keys.len() && 0 <= j < keys.len() && i != j implies keys[i] != keys[j] by {
                assert(keys[i] == e[i].0@);
                assert(keys[j] == e[j].0@);
            }
        }
        keys.unique_seq_to_set();
    }

    proof fn lemma_at(&self, i: int)
        requires
            self.wf(),
            0 <= i < self.entries@.len(),
        ensures
            self@.contains_key(self.entries@[i].0@),
            self@[self.entries@[i].0@] == self.entries@[i].1,
    {
        let e = self.entries@;
        let k = e[i].0@;
        assert(exists|j: int| 0 <= j < e.len() && e[j].0@ == k);
        let j = choose|j: int| 0 <= j < e.len() && e[j].0@ == k;
        assert(j == i);
    }

    pub fn new() -> (r: Table<T>)
        ensures
            r.wf(),
            r@ == Map::<Seq<char>, T>::empty(),
    {
        let r = Table { entries: Vec::new() };
        assert(r@ =~= Map::<Seq<char>, T>::empty());
        r
    }

    /// Number of entries.
    pub fn len(&self) -> (r: usize)
        requires
            self.wf(),
        ensures
            r == self@.len(),
            r == self.entries().len(),
    {
        proof {
            self.lemma_entries();
        }
        self.entries.len()
    }

    /// The value at storage position `i`.
    pub fn value_at(&self, i: usize) -> (r: &T)
        requires
            i < self.entries().len(),
        ensures
            *r == self.entries()[i as int].1,
    {
        &self.entries[i].1
    }

    /// The key at storage position `i`.
    pub fn key_at(&self, i: usize) -> (r: &String)
        requires
            i < self.entries().len(),
        ensures
            r@ == self.entries()[i as int].0,
    {
        &self.entries[i].0
    }

    fn find(&self, key: &str) -> (r: Option<usize>)
        requires
            self.wf(),
        ensures
            match r {
                Some(i) => i < self.entries@.len() && self.entries@[i as int].0@ == key@,
                None => !self@.contains_key(key@),
            },
    {
        let mut i: usize = 0;
        while i < self.entries.len()
            invariant
                i <= self.entries@.len(),
                forall|k: int| 0 <= k < i ==> self.entries@[k].0@ != key@,
            decreases self.entries@.len() - i,
        {
            if str_eq(self.entries[i].0.as_str(), key) {
                return Some(i);
            }
            i = i + 1;
        }
        None
    }

    /// Whether `key` has a value.
    pub fn contains_key(&self, key: &str) -> (r: bool)
        requires
            self.wf(),
        ensures
            r == self@.contains_key(key@),
    {
        match self.find(key) {
            Some(i) => {
                proof {
                    self.lemma_at(i as int);
                }
                true
            },
            None => false,
        }
    }

    /// The value of `key`, if any.
    pub fn get(&self, key: &str) -> (r: Option<&T>)
        requires
            self.wf(),
        ensures
            match r {
                Some(v) => self@.contains_key(key@) && *v == self@[key@],
                None => !self@.contains_key(key@),
            },
    {
        match self.find(key) {
            Some(i) => {
                proof {
                    self.lemma_at(i as int);
                }
                Some(&self.entries[i].1)
            },
            None => None,
        }
    }

    /// Takes the value of `key` out of the table.
    pub fn remove(&mut self, key: &str) -> (r: Option<T>)
        requires
            old(self).wf(),
        ensures
            final(self).wf(),
            final(self)@ == old(self)@.remove(key@),
            final(self).entries().len() <= old(self).entries().len(),
            match r {
                Some(v) => old(self)@.contains_key(key@) && v == old(self)@[key@],
                None => !old(self)@.contains_key(key@),
            },
    {
        match self.find(key) {
            None => {
                assert(self@ =~= self@.remove(key@));
                None
            },
            Some(i) => {
                proof {
                    self.lemma_at(i as int);
                }
                let ghost before = self.entries@;
                let ghost v = self@;
                let (_, val) = self.entries.remove(i);
                proof {
                    let e = self.entries@;
                    assert forall|k: int| 0 <= k < e.len() implies e[k] == before[if k < i { k } else { k + 1 }] by {}
                    assert(self@ =~= v.remove(key@)) by {
                        assert forall|d: Seq<char>| #[trigger]
                            self@.contains_key(d) == v.remove(key@).contains_key(d) by {
                            if self@.contains_key(d) {
                                let k = choose|k: int| 0 <= k < e.len() && e[k].0@ == d;
                                let j = if k < i { k } else { k + 1 };
                                assert(before[j].0@ == d);
                            }
                            if v.remove(key@).contains_key(d) {
                                let j = choose|j: int| 0 <= j < before.len() && before[j].0@ == d;
                                assert(j != i);
                                let k = if j < i { j } else { j - 1 };
                                assert(e[k].0@ == d);
                            }
                        }
                        assert forall|d: Seq<char>| #[trigger]
                            self@.contains_key(d) implies self@[d] == v[d] by {
                            let k = choose|k: int| 0 <= k < e.len() && e[k].0@ == d;
                            let j = if k < i { k } else { k + 1 };
                            old(self).lemma_at(j);
                            self.lemma_at(k);
                        }
                    }
                }
                Some(val)
            },
        }
    }

    /// Sets the value of `key`, replacing any earlier one.
    pub fn insert(&mut self, key: &str, value: T)
        requires
            old(self).wf(),
        ensures
            final(self).wf(),
            final(self)@ == old(self)@.insert(key@, value),
    {
        let _ = self.remove(key);
        let ghost v = self@;
        let ghost before = self.entries@;
        self.entries.push((key.to_owned(), value));
        proof {
            let e = self.entries@;
            let n = before.len() as int;
            assert forall|i: int, j: int| 0 <= i < e.len() && 0 <= j < e.len() && e[i].0@ == e[j].0@ implies i == j by {
                if i < n && j == n {
                    assert(v.contains_key(before[i].0@)) by {
                        self.lemma_prior(before, i);
                    }
                }
                if j < n && i == n {
                    assert(v.contains_key(before[j].0@)) by {
                        self.lemma_prior(before, j);
                    }
                }
            }
            assert(self@ =~= v.insert(key@, value)) by {
                assert forall|d: Seq<char>| #[trigger]
                    self@.contains_key(d) == (d == key@ || v.contains_key(d)) by {
                    if d != key@ && self@.contains_key(d) {
                        let k = choose|k: int| 0 <= k < e.len() && e[k].0@ == d;
                        assert(k < n);
                        assert(before[k].0@ == d);
                    }
                    if d != key@ && v.contains_key(d) {
                        let k = choose|k: int| 0 <= k < before.len() && before[k].0@ == d;
                        assert(e[k] == before[k]);
                    }
                    if d == key@ {
                        assert(e[n].0@ == d);
                    }
                }
                assert forall|d: Seq<char>| #[trigger]
                    self@.contains_key(d) implies self@[d] == v.insert(key@, value)[d] by {
                    let k = choose|k: int| 0 <= k < e.len() && e[k].0@ == d;
                    self.lemma_at(k);
                    if k < n {
                        assert(before[k] == e[k]);
                        self.lemma_prior(before, k);
                    }
                }
            }
        }
    }

    proof fn lemma_prior(&self, before: Seq<(String, T)>, i: int)
        requires
            keys_unique(before),
            0 <= i < before.len(),
        ensures
            ({
                let v = Map::new(
                    |k: Seq<char>| exists|j: int| 0 <= j < before.len() && before[j].0@ == k,
                    |k: Seq<char>| before[choose|j: int| 0 <= j < before.len() && before[j].0@ == k].1,
                );
                v.contains_key(before[i].0@) && v[before[i].0@] == before[i].1
            }),
    {
        let k = before[i].0@;
        assert(exists|j: int| 0 <= j < before.len() && before[j].0@ == k);
        let j = choose|j: int| 0 <= j < before.len() && before[j].0@ == k;
        assert(j == i);
    }
}

} // verus!
