//! An insertion-ordered table with unique keys.
use vstd::prelude::*;
use crate::ident::Key;

verus! {

/// Keys and values side by side. No key occurs twice, and an entry keeps its
/// place until it is removed.
pub struct Table<K: Key, V> {
    keys: Vec<K>,
    vals: Vec<V>,
}

/// No element of `keys` occurs twice.
pub open spec fn distinct<A>(keys: Seq<A>) -> bool {
    forall|i: int, j: int| 0 <= i < j < keys.len() ==> keys[i] != keys[j]
}

impl<K: Key, V> Table<K, V> {
    /// The keys, in the order in which they were first inserted.
    pub closed spec fn keys(&self) -> Seq<K::V> {
        Seq::new(self.keys@.len(), |i: int| self.keys@[i]@)
    }

    /// The values, each at the index of its key.
    pub closed spec fn vals(&self) -> Seq<V> {
        self.vals@
    }

    /// Validity: one value per key, and no key twice.
    pub closed spec fn wf(&self) -> bool {
        &&& self.keys@.len() == self.vals@.len()
        &&& distinct(self.keys())
    }

    /// Whether `k` has an entry.
    pub open spec fn has(&self, k: K::V) -> bool {
        self.keys().contains(k)
    }

    /// The value stored under `k`; meaningful where `has(k)`.
    pub open spec fn value(&self, k: K::V) -> V {
        self.vals()[self.keys().index_of(k)]
    }

    /// The table as a map.
    pub open spec fn view(&self) -> Map<K::V, V> {
        Map::new(|k: K::V| self.has(k), |k: K::V| self.value(k))
    }

    /// In a valid table the two sequences have one length, and no key
    /// occurs twice.
    pub proof fn lemma_valid(&self)
        requires
            self.wf(),
        ensures
            self.keys().len() == self.vals().len(),
            distinct(self.keys()),
    {
    }

    /// In a valid table the key at index `i` is found at `i`.
    pub proof fn lemma_index(&self, i: int)
        requires
            self.wf(),
            0 <= i < self.keys().len(),
        ensures
            self.has(self.keys()[i]),
            self.keys().index_of(self.keys()[i]) == i,
            self.value(self.keys()[i]) == self.vals()[i],
    {
        let ks = self.keys();
        assert(ks.contains(ks[i]));
        let j = ks.index_of(ks[i]);
        assert(0 <= j < ks.len() && ks[j] == ks[i]);
        if j != i {
            if j < i {
                assert(ks[j] != ks[i]);
            } else {
                assert(ks[i] != ks[j]);
            }
        }
    }

    /// The empty table.
    pub fn new() -> (t: Self)
        ensures
            t.wf(),
            t.keys() == Seq::<K::V>::empty(),
            t.vals() == Seq::<V>::empty(),
    {
        let t = Table { keys: Vec::new(), vals: Vec::new() };
        assert(t.keys() =~= Seq::<K::V>::empty());
        t
    }

    /// The number of entries.
    pub fn len(&self) -> (n: usize)
        requires
            self.wf(),
        ensures
            n == self.keys().len(),
            n == self.vals().len(),
    {
        self.keys.len()
    }

    /// The index of the entry of `k`.
    pub fn find(&self, k: &K) -> (r: Option<usize>)
        requires
            self.wf(),
        ensures
            r.is_some() == self.has(k@),
            r.is_some() ==> r.unwrap() < self.keys().len() && self.keys()[r.unwrap() as int] == k@
                && self.keys().index_of(k@) == r.unwrap(),
    {
        let mut i: usize = 0;
        while i < self.keys.len()
            invariant
                self.wf(),
                i <= self.keys@.len(),
                forall|j: int| 0 <= j < i ==> self.keys()[j] != k@,
            decreases self.keys@.len() - i,
        {
            if self.keys[i].same(k) {
                proof {
                    self.lemma_index(i as int);
                }
                return Some(i);
            }
            i += 1;
        }
        None
    }

    /// The value at index `i`.
    pub fn value_at(&self, i: usize) -> (r: &V)
        requires
            self.wf(),
            i < self.vals().len(),
        ensures
            *r == self.vals()[i as int],
    {
        &self.vals[i]
    }

    /// The value stored under `k`.
    pub fn get(&self, k: &K) -> (r: Option<&V>)
        requires
            self.wf(),
        ensures
            r.is_some() == self.has(k@),
            r.is_some() ==> *r.unwrap() == self.value(k@),
    {
        match self.find(k) {
            Some(i) => Some(&self.vals[i]),
            None => None,
        }
    }

    /// Stores `v` under `k`. A key that is new goes to the end; one that is
    /// there keeps its place, and its old value is returned.
    pub fn insert(&mut self, k: K, v: V) -> (r: Option<V>)
        requires
            old(self).wf(),
        ensures
            final(self).wf(),
            r.is_some() == old(self).has(k@),
            old(self).has(k@) ==> {
                &&& r.unwrap() == old(self).value(k@)
                &&& final(self).keys() == old(self).keys()
                &&& final(self).vals() == old(self).vals().update(
                    old(self).keys().index_of(k@),
                    v,
                )
            },
            !old(self).has(k@) ==> {
                &&& final(self).keys() == old(self).keys().push(k@)
                &&& final(self).vals() == old(self).vals().push(v)
            },
            final(self)@ == old(self)@.insert(k@, v),
    {
        match self.find(&k) {
            Some(i) => {
                self.vals.push(v);
                let prev = self.vals.swap_remove(i);
                assert(self.vals@ =~= old(self).vals@.update(i as int, v));
                assert(self.keys() =~= old(self).keys());
                proof {
                    let ks = self.keys();
                    assert forall|o: K::V| self.has(o) implies self.value(o) == (if o == k@ {
                        v
                    } else {
                        old(self).value(o)
                    }) by {
                        let j = ks.index_of(o);
                        assert(ks[j] == o);
                    }
                    assert(self@ =~= old(self)@.insert(k@, v));
                }
                Some(prev)
            },
            None => {
                self.keys.push(k);
                self.vals.push(v);
                assert(self.keys() =~= old(self).keys().push(k@));
                proof {
                    let ok = old(self).keys();
                    let nk = self.keys();
                    assert(nk[ok.len() as int] == k@);
                    assert forall|o: K::V| self.has(o) == (old(self).has(o) || o == k@) by {
                        if old(self).has(o) {
                            let j = ok.index_of(o);
                            assert(nk[j] == o);
                        }
                        if self.has(o) && o != k@ {
                            let j = nk.index_of(o);
                            assert(nk[j] == o);
                            assert(ok[j] == o);
                        }
                    }
                    assert forall|o: K::V| self.has(o) implies self.value(o) == (if o == k@ {
                        v
                    } else {
                        old(self).value(o)
                    }) by {
                        if o == k@ {
                            self.lemma_index(ok.len() as int);
                        } else {
                            let j = ok.index_of(o);
                            assert(ok[j] == o);
                            assert(nk[j] == o);
                            self.lemma_index(j);
                        }
                    }
                    assert(self@ =~= old(self)@.insert(k@, v));
                }
                None
            },
        }
    }

    /// Removes the entry of `k` and returns its value. The other entries keep
    /// their order.
    pub fn remove(&mut self, k: &K) -> (r: Option<V>)
        requires
            old(self).wf(),
        ensures
            final(self).wf(),
            r.is_some() == old(self).has(k@),
            old(self).has(k@) ==> {
                &&& r.unwrap() == old(self).value(k@)
                &&& final(self).keys() == old(self).keys().remove(old(self).keys().index_of(k@))
                &&& final(self).vals() == old(self).vals().remove(old(self).keys().index_of(k@))
            },
            !old(self).has(k@) ==> {
                &&& final(self).keys() == old(self).keys()
                &&& final(self).vals() == old(self).vals()
            },
            forall|o: K::V| o != k@ ==> final(self).has(o) == old(self).has(o),
            forall|o: K::V| o != k@ && old(self).has(o) ==> final(self).value(o) == old(self).value(o),
            !final(self).has(k@),
            final(self)@ == old(self)@.remove(k@),
    {
        match self.find(k) {
            Some(i) => {
                let _gone = self.keys.remove(i);
                let v = self.vals.remove(i);
                proof {
                    let ok = old(self).keys();
                    let nk = self.keys();
                    assert(nk =~= ok.remove(i as int));
                    assert forall|o: K::V| o != k@ implies self.has(o) == old(self).has(o) by {
                        if old(self).has(o) {
                            let j = ok.index_of(o);
                            assert(ok[j] == o);
                            if j < i {
                                assert(nk[j] == o);
                            } else {
                                assert(nk[j - 1] == o);
                            }
                        }
                        if self.has(o) {
                            let j = nk.index_of(o);
                            assert(nk[j] == o);
                            if j < i {
                                assert(ok[j] == o);
                            } else {
                                assert(ok[j + 1] == o);
                            }
                        }
                    }
                    assert forall|o: K::V| o != k@ && old(self).has(o) implies self.value(o)
                        == old(self).value(o) by {
                        let j = ok.index_of(o);
                        assert(ok[j] == o);
                        old(self).lemma_index(j);
                        if j < i {
                            assert(nk[j] == o);
                            self.lemma_index(j);
                        } else {
                            assert(nk[j - 1] == o);
                            self.lemma_index(j - 1);
                        }
                    }
                    if self.has(k@) {
                        let j = nk.index_of(k@);
                        assert(nk[j] == k@);
                        if j < i {
                            assert(ok[j] == k@);
                        } else {
                            assert(ok[j + 1] == k@);
                        }
                    }
                    assert(self@ =~= old(self)@.remove(k@));
                }
                Some(v)
            },
            None => {
                assert(self@ =~= old(self)@.remove(k@));
                None
            },
        }
    }
}

} // verus!
