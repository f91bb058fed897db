//! A map from string keys to values, kept as a list of entries in insertion
//! order with no key twice.

use vstd::prelude::*;

use crate::text::str_eq;

verus! {

/// Entries keyed by strings; each key occurs once.
pub struct KeyedList<V> {
    entries: Vec<(String, V)>,
}

impl<V> KeyedList<V> {
    /// No key occurs twice.
    pub closed spec fn wf(&self) -> bool {
        forall|i: int, j: int|
            0 <= i < j < self.entries@.len() ==> #[trigger] self.entries@[i].0@
                != #[trigger] self.entries@[j].0@
    }

    pub closed spec fn has_key(&self, k: Seq<char>) -> bool {
        exists|i: int| 0 <= i < self.entries@.len() && #[trigger] self.entries@[i].0@ == k
    }

    closed spec fn index_of(&self, k: Seq<char>) -> int {
        choose|i: int| 0 <= i < self.entries@.len() && #[trigger] self.entries@[i].0@ == k
    }

    /// The entries as a map from keys to values.
    pub closed spec fn map(&self) -> Map<Seq<char>, V> {
        Map::new(|k: Seq<char>| self.has_key(k), |k: Seq<char>| self.entries@[self.index_of(k)].1)
    }

    /// The keys in entry order.
    pub closed spec fn key_seq(&self) -> Seq<Seq<char>> {
        self.entries@.map_values(|e: (String, V)| e.0@)
    }

    proof fn lemma_index(&self, j: int)
        requires
            self.wf(),
            0 <= j < self.entries@.len(),
        ensures
            self.has_key(self.entries@[j].0@),
            self.index_of(self.entries@[j].0@) == j,
    {
        let k = self.entries@[j].0@;
        assert(self.entries@[j].0@ == k);
        let i = self.index_of(k);
        if i != j {
            if i < j {
                assert(self.entries@[i].0@ != self.entries@[j].0@);
            } else {
                assert(self.entries@[j].0@ != self.entries@[i].0@);
            }
        }
    }

    proof fn lemma_map_at(&self, j: int)
        requires
            self.wf(),
            0 <= j < self.entries@.len(),
        ensures
            self.map().dom().contains(self.entries@[j].0@),
            self.map()[self.entries@[j].0@] == self.entries@[j].1,
    {
        self.lemma_index(j);
    }

    pub fn new() -> (r: Self)
        ensures
            r.wf(),
            r.map() == Map::<Seq<char>, V>::empty(),
    {
        let r = KeyedList { entries: Vec::new() };
        assert(r.map() =~= Map::<Seq<char>, V>::empty());
        r
    }

    pub fn len(&self) -> (r: usize)
        requires
            self.wf(),
        ensures
            r == self.map().dom().len(),
    {
        proof {
            self.lemma_dom_len();
        }
        self.entries.len()
    }

    proof fn lemma_dom_len(&self)
        requires
            self.wf(),
        ensures
            self.map().dom().finite(),
            self.map().dom().len() == self.entries@.len(),
    {
        let ks = self.key_seq();
        assert forall|i: int, j: int| 0 <= i < j < ks.len() implies ks[i] != ks[j] by {
            assert(self.entries@[i].0@ != self.entries@[j].0@);
        }
        assert(ks.no_duplicates());
        assert(self.map().dom() =~= ks.to_set()) by {
            assert forall|k: Seq<char>| self.map().dom().contains(k) implies ks.to_set().contains(
                k,
            ) by {
                let i = self.index_of(k);
                assert(ks[i] == k);
            }
            assert forall|k: Seq<char>| ks.to_set().contains(k) implies self.map().dom().contains(
                k,
            ) by {
                let i = choose|i: int| 0 <= i < ks.len() && ks[i] == k;
                assert(self.entries@[i].0@ == k);
            }
        }
        ks.unique_seq_to_set();
    }

    fn find(&self, key: &str) -> (r: Option<usize>)
        requires
            self.wf(),
        ensures
            r matches Some(i) ==> i < self.entries@.len() && self.entries@[i as int].0@ == key@,
            r is None ==> !self.has_key(key@),
    {
        let mut i: usize = 0;
        while i < self.entries.len()
            invariant
                i <= self.entries@.len(),
                forall|j: int| 0 <= j < i ==> self.entries@[j].0@ != key@,
            decreases self.entries.len() - i,
        {
            if str_eq(self.entries[i].0.as_str(), key) {
                return Some(i);
            }
            i += 1;
        }
        None
    }

    pub fn contains_key(&self, key: &str) -> (r: bool)
        requires
            self.wf(),
        ensures
            r == self.map().dom().contains(key@),
    {
        self.find(key).is_some()
    }

    pub fn get(&self, key: &str) -> (r: Option<&V>)
        requires
            self.wf(),
        ensures
            r is None <==> !self.map().dom().contains(key@),
            r matches Some(v) ==> *v == self.map()[key@],
    {
        match self.find(key) {
            Some(i) => {
                proof {
                    self.lemma_map_at(i as int);
                }
                Some(&self.entries[i].1)
            },
            None => None,
        }
    }

    /// Insert or replace the value under `key`; returns whether the key was
    /// there before.
    pub fn insert(&mut self, key: String, value: V) -> (r: bool)
        requires
            old(self).wf(),
        ensures
            final(self).wf(),
            r == old(self).map().dom().contains(key@),
            final(self).map() == old(self).map().insert(key@, value),
    {
        let ghost k = key@;
        let ghost pre = *self;
        match self.find(key.as_str()) {
            Some(i) => {
                self.entries.set(i, (key, value));
                proof {
                    let post = *self;
                    assert(post.wf()) by {
                        assert forall|a: int, b: int| 0 <= a < b < post.entries@.len() implies #[trigger] post.entries@[a].0@
                            != #[trigger] post.entries@[b].0@ by {
                            assert(pre.entries@[a].0@ != pre.entries@[b].0@);
                        }
                    }
                    pre.lemma_map_at(i as int);
                    assert forall|q: Seq<char>| #[trigger] post.map().dom().contains(q) == pre.map().insert(
                        k,
                        value,
                    ).dom().contains(q) by {
                        if post.has_key(q) {
                            let j = post.index_of(q);
                            assert(pre.entries@[j].0@ == q || j == i);
                        }
                        if pre.has_key(q) && q != k {
                            let j = pre.index_of(q);
                            assert(post.entries@[j].0@ == q);
                        }
                        if q == k {
                            assert(post.entries@[i as int].0@ == q);
                        }
                    }
                    assert forall|q: Seq<char>| #[trigger] post.map().dom().contains(q) implies post.map()[q]
                        == pre.map().insert(k, value)[q] by {
                        let j = post.index_of(q);
                        post.lemma_index(j);
                        if q != k {
                            assert(j != i);
                            assert(pre.entries@[j].0@ == q);
                            pre.lemma_index(j);
                        }
                    }
                    assert(post.map() =~= pre.map().insert(k, value));
                }
                true
            },
            None => {
                self.entries.push((key, value));
                proof {
                    let post = *self;
                    let n = pre.entries@.len() as int;
                    assert(post.wf()) by {
                        assert forall|a: int, b: int| 0 <= a < b < post.entries@.len() implies #[trigger] post.entries@[a].0@
                            != #[trigger] post.entries@[b].0@ by {
                            if b == n {
                                assert(pre.entries@[a].0@ != k);
                            } else {
                                assert(pre.entries@[a].0@ != pre.entries@[b].0@);
                            }
                        }
                    }
                    assert forall|q: Seq<char>| #[trigger] post.map().dom().contains(q) == pre.map().insert(
                        k,
                        value,
                    ).dom().contains(q) by {
                        if post.has_key(q) {
                            let j = post.index_of(q);
                            if j < n {
                                assert(pre.entries@[j].0@ == q);
                            }
                        }
                        if pre.has_key(q) {
                            let j = pre.index_of(q);
                            assert(post.entries@[j].0@ == q);
                        }
                        if q == k {
                            assert(post.entries@[n].0@ == q);
                        }
                    }
                    assert forall|q: Seq<char>| #[trigger] post.map().dom().contains(q) implies post.map()[q]
                        == pre.map().insert(k, value)[q] by {
                        let j = post.index_of(q);
                        post.lemma_index(j);
                        if q != k {
                            assert(j != n);
                            assert(pre.entries@[j].0@ == q);
                            pre.lemma_index(j);
                        } else {
                            post.lemma_index(n);
                        }
                    }
                    assert(post.map() =~= pre.map().insert(k, value));
                }
                false
            },
        }
    }

    /// Remove the entry under `key`; returns its value if there was one.
    pub fn remove(&mut self, key: &str) -> (r: Option<V>)
        requires
            old(self).wf(),
        ensures
            final(self).wf(),
            r is None <==> !old(self).map().dom().contains(key@),
            r matches Some(v) ==> v == old(self).map()[key@],
            final(self).map() == old(self).map().remove(key@),
    {
        let ghost k = key@;
        let ghost pre = *self;
        match self.find(key) {
            Some(i) => {
                proof {
                    pre.lemma_map_at(i as int);
                }
                let (_, v) = self.entries.remove(i);
                proof {
                    let post = *self;
                    let ii = i as int;
                    assert forall|j: int| 0 <= j < post.entries@.len() implies #[trigger] post.entries@[j]
                        == pre.entries@[if j < ii {
                        j
                    } else {
                        j + 1
                    }] by {}
                    assert(post.wf()) by {
                        assert forall|a: int, b: int| 0 <= a < b < post.entries@.len() implies #[trigger] post.entries@[a].0@
                            != #[trigger] post.entries@[b].0@ by {
                            let a0 = if a < ii {
                                a
                            } else {
                                a + 1
                            };
                            let b0 = if b < ii {
                                b
                            } else {
                                b + 1
                            };
                            assert(post.entries@[a] == pre.entries@[a0]);
                            assert(post.entries@[b] == pre.entries@[b0]);
                            assert(pre.entries@[a0].0@ != pre.entries@[b0].0@);
                        }
                    }
                    assert forall|q: Seq<char>| #[trigger] post.map().dom().contains(q) == pre.map().remove(
                        k,
                    ).dom().contains(q) by {
                        if post.has_key(q) {
                            let j = post.index_of(q);
                            let j0 = if j < ii {
                                j
                            } else {
                                j + 1
                            };
                            assert(post.entries@[j] == pre.entries@[j0]);
                            assert(pre.entries@[j0].0@ == q);
                            assert(pre.entries@[j0].0@ != pre.entries@[ii].0@);
                        }
                        if pre.has_key(q) && q != k {
                            let j0 = pre.index_of(q);
                            assert(j0 != ii);
                            let j = if j0 < ii {
                                j0
                            } else {
                                j0 - 1
                            };
                            assert(post.entries@[j] == pre.entries@[j0]);
                            assert(post.entries@[j].0@ == q);
                        }
                    }
                    assert forall|q: Seq<char>| #[trigger] post.map().dom().contains(q) implies post.map()[q]
                        == pre.map().remove(k)[q] by {
                        let j = post.index_of(q);
                        post.lemma_index(j);
                        let j0 = if j < ii {
                            j
                        } else {
                            j + 1
                        };
                        assert(post.entries@[j] == pre.entries@[j0]);
                        pre.lemma_index(j0);
                    }
                    assert(post.map() =~= pre.map().remove(k));
                }
                Some(v)
            },
            None => {
                assert(self.map() =~= pre.map().remove(k));
                None
            },
        }
    }

    /// The keys in entry order: each key of the map once.
    pub proof fn lemma_keys(&self)
        requires
            self.wf(),
        ensures
            self.key_seq().no_duplicates(),
            self.key_seq().to_set() == self.map().dom(),
            self.key_seq().len() == self.map().dom().len(),
            forall|i: int|
                0 <= i < self.key_seq().len() ==> self.map().dom().contains(
                    #[trigger] self.key_seq()[i],
                ),
    {
        self.lemma_dom_len();
        let ks = self.key_seq();
        assert forall|i: int, j: int| 0 <= i < j < ks.len() implies ks[i] != ks[j] by {
            assert(self.entries@[i].0@ != self.entries@[j].0@);
        }
        assert forall|i: int| 0 <= i < ks.len() implies self.map().dom().contains(#[trigger] ks[i]) by {
            self.lemma_index(i);
        }
        assert(self.map().dom() =~= ks.to_set()) by {
            assert forall|k: Seq<char>| self.map().dom().contains(k) implies ks.to_set().contains(
                k,
            ) by {
                let i = self.index_of(k);
                assert(ks[i] == k);
            }
        }
        ks.unique_seq_to_set();
    }

    /// The keys, in the order of [`KeyedList::key_seq`].
    pub fn keys(&self) -> (r: Vec<String>)
        requires
            self.wf(),
        ensures
            r@.len() == self.key_seq().len(),
            forall|i: int| 0 <= i < r@.len() ==> (#[trigger] r@[i])@ == self.key_seq()[i],
    {
        let mut r: Vec<String> = Vec::new();
        let mut i: usize = 0;
        while i < self.entries.len()
            invariant
                i <= self.entries@.len(),
                r@.len() == i,
                forall|j: int| 0 <= j < i ==> (#[trigger] r@[j])@ == self.entries@[j].0@,
            decreases self.entries.len() - i,
        {
            r.push(self.entries[i].0.clone());
            i += 1;
        }
        r
    }

    /// The values, in the order of [`KeyedList::key_seq`].
    pub fn values(&self) -> (r: Vec<&V>)
        requires
            self.wf(),
        ensures
            r@.len() == self.key_seq().len(),
            forall|i: int| 0 <= i < r@.len() ==> *r@[i] == self.map()[#[trigger] self.key_seq()[i]],
    {
        let mut r: Vec<&V> = Vec::new();
        let mut i: usize = 0;
        while i < self.entries.len()
            invariant
                self.wf(),
                i <= self.entries@.len(),
                r@.len() == i,
                forall|j: int| 0 <= j < i ==> *r@[j] == #[trigger] self.entries@[j].1,
            decreases self.entries.len() - i,
        {
            r.push(&self.entries[i].1);
            i += 1;
        }
        proof {
            assert forall|j: int| 0 <= j < r@.len() implies *r@[j] == self.map()[#[trigger] self.key_seq()[j]] by {
                self.lemma_map_at(j);
                assert(*r@[j] == self.entries@[j].1);
            }
        }
        r
    }
}

} // verus!
