use vstd::prelude::*;

verus! {

/// A finite map from strings to strings, kept as key-value pairs whose keys
/// are pairwise distinct. Used for a phase's scratch data and for the facts
/// that a game carries from one phase to another.
#[derive(Debug)]
pub struct StrMap {
    entries: Vec<(String, String)>,
}

pub open spec fn pair_key(e: (String, String)) -> Seq<char> {
    e.0@
}

spec fn keys_of(s: Seq<(String, String)>) -> Seq<Seq<char>> {
    s.map_values(|e: (String, String)| pair_key(e))
}

/// The value under `k`, or the empty string where `m` has none.
pub open spec fn value_or_empty(m: Map<Seq<char>, Seq<char>>, k: Seq<char>) -> Seq<char> {
    if m.contains_key(k) {
        m[k]
    } else {
        Seq::empty()
    }
}

impl StrMap {
    /// The keys, in the order in which they were first inserted.
    pub closed spec fn keys(&self) -> Seq<Seq<char>> {
        keys_of(self.entries@)
    }

    #[verifier::type_invariant]
    closed spec fn keys_distinct(&self) -> bool {
        self.keys().no_duplicates()
    }

    closed spec fn index_of_key(&self, k: Seq<char>) -> int {
        choose|i: int| 0 <= i < self.entries@.len() && self.entries@[i].0@ == k
    }
}

impl View for StrMap {
    type V = Map<Seq<char>, Seq<char>>;

    closed spec fn view(&self) -> Map<Seq<char>, Seq<char>> {
        Map::new(
            |k: Seq<char>| self.keys().contains(k),
            |k: Seq<char>| self.entries@[self.index_of_key(k)].1@,
        )
    }
}

impl StrMap {
    proof fn lemma_lookup(&self, i: int)
        requires
            self.keys_distinct(),
            0 <= i < self.entries@.len(),
        ensures
            self@.contains_key(self.entries@[i].0@),
            self@[self.entries@[i].0@] == self.entries@[i].1@,
    {
        let k = self.entries@[i].0@;
        assert(self.keys()[i] == k);
        assert(self.keys().contains(k));
        let j = self.index_of_key(k);
        assert(self.keys()[j] == k);
    }

    proof fn lemma_finite_len(&self)
        requires
            self.keys_distinct(),
        ensures
            self@.dom().finite(),
            self@.len() == self.entries@.len(),
    {
        assert(self@.dom() =~= self.keys().to_set());
        self.keys().unique_seq_to_set();
    }

    pub fn new() -> (r: StrMap)
        ensures
            r@ == Map::<Seq<char>, Seq<char>>::empty(),
    {
        let r = StrMap { entries: Vec::new() };
        assert(r@ =~= Map::<Seq<char>, Seq<char>>::empty());
        r
    }

    /// A map that holds one pair.
    pub fn singleton(key: String, value: String) -> (r: StrMap)
        ensures
            r@ == map![key@ => value@],
    {
        let mut r = StrMap::new();
        r.insert(key, value);
        assert(r@ =~= map![key@ => value@]);
        r
    }

    fn position(&self, key: &String) -> (r: Option<usize>)
        ensures
            match r {
                Some(i) => i < self.entries@.len() && self.entries@[i as int].0@ == key@,
                None => !self@.contains_key(key@),
            },
    {
        let mut i: usize = 0;
        while i < self.entries.len()
            invariant
                i <= self.entries@.len(),
                forall|j: int| 0 <= j < i ==> self.entries@[j].0@ != key@,
            decreases self.entries@.len() - i,
        {
            if self.entries[i].0 == *key {
                return Some(i);
            }
            i = i + 1;
        }
        proof {
            if self.keys().contains(key@) {
                let j = choose|j: int| 0 <= j < self.keys().len() && self.keys()[j] == key@;
                assert(self.entries@[j].0@ == key@);
            }
        }
        None
    }

    pub fn get(&self, key: &String) -> (r: Option<&String>)
        ensures
            match r {
                Some(v) => self@.contains_key(key@) && v@ == self@[key@],
                None => !self@.contains_key(key@),
            },
    {
        proof {
            use_type_invariant(self);
        }
        match self.position(key) {
            Some(i) => {
                proof {
                    self.lemma_lookup(i as int);
                }
                Some(&self.entries[i].1)
            },
            None => None,
        }
    }

    /// The value under `key`, or the empty string where there is none.
    pub fn get_or_empty(&self, key: &String) -> (r: String)
        ensures
            r@ == value_or_empty(self@, key@),
    {
        match self.get(key) {
            Some(v) => v.clone(),
            None => String::new(),
        }
    }

    pub fn insert(&mut self, key: String, value: String)
        ensures
            final(self)@ == old(self)@.insert(key@, value@),
    {
        proof {
            use_type_invariant(&*self);
        }
        let ghost old_map = self@;
        let ghost old_keys = self.keys();
        let ghost k = key@;
        let ghost v = value@;
        let pos = self.position(&key);
        let mut taken = StrMap::new();
        std::mem::swap(self, &mut taken);
        let ghost old_entries = taken.entries@;
        let StrMap { mut entries } = taken;
        match pos {
            Some(i) => {
                entries.set(i, (key, value));
                proof {
                    assert(old_keys[i as int] == k);
                    assert(keys_of(entries@) =~= old_keys);
                }
                let r = StrMap { entries };
                proof {
                    assert(r.keys() =~= old_keys);
                    assert forall|q: Seq<char>| #[trigger] r@.contains_key(q)
                        implies r@[q] == old_map.insert(k, v)[q] by {
                        let j = r.index_of_key(q);
                        assert(r.keys()[j] == q);
                        if q == k {
                            assert(old_keys[i as int] == k);
                            assert(j == i);
                        } else {
                            let oj = choose|oj: int| 0 <= oj < old_entries.len() && old_entries[oj].0@ == q;
                            assert(old_keys[oj] == q && old_keys[j] == q);
                            assert(oj == j);
                        }
                    }
                    assert(r@ =~= old_map.insert(k, v));
                }
                *self = r;
            },
            None => {
                entries.push((key, value));
                proof {
                    let nk = keys_of(entries@);
                    assert(nk =~= old_keys.push(k));
                    assert(!old_keys.contains(k));
                    assert(nk.no_duplicates()) by {
                        assert forall|a: int, b: int|
                            0 <= a < nk.len() && 0 <= b < nk.len() && a != b
                            implies nk[a] != nk[b] by {
                            if a == old_keys.len() as int {
                                assert(old_keys[b] == nk[b]);
                            } else if b == old_keys.len() as int {
                                assert(old_keys[a] == nk[a]);
                            }
                        }
                    }
                }
                let r = StrMap { entries };
                proof {
                    assert(r.keys() =~= old_keys.push(k));
                    assert forall|q: Seq<char>| #[trigger] r@.contains_key(q)
                        implies r@[q] == old_map.insert(k, v)[q] by {
                        let j = r.index_of_key(q);
                        assert(r.keys()[j] == q);
                        if q == k {
                            if j != old_entries.len() as int {
                                assert(old_keys[j] == k);
                            }
                        } else {
                            let oj = choose|oj: int| 0 <= oj < old_entries.len() && old_entries[oj].0@ == q;
                            assert(old_keys[oj] == q);
                            assert(r.keys()[oj] == q);
                            assert(oj == j);
                        }
                    }
                    assert forall|q: Seq<char>| #[trigger] old_map.insert(k, v).contains_key(q)
                        implies r@.contains_key(q) by {
                        if q != k {
                            let oj = choose|oj: int| 0 <= oj < old_keys.len() && old_keys[oj] == q;
                            assert(r.keys()[oj] == q);
                        } else {
                            assert(r.keys()[old_keys.len() as int] == k);
                        }
                    }
                    assert(r@ =~= old_map.insert(k, v));
                }
                *self = r;
            },
        }
    }

    pub fn len(&self) -> (r: usize)
        ensures
            r == self@.len(),
            self@.dom().finite(),
    {
        proof {
            use_type_invariant(self);
            self.lemma_finite_len();
        }
        self.entries.len()
    }

    /// Whether every value in the map equals `value`.
    pub fn all_values_equal(&self, value: &String) -> (r: bool)
        ensures
            r == (forall|k: Seq<char>| #[trigger] self@.contains_key(k) ==> self@[k] == value@),
    {
        proof {
            use_type_invariant(self);
        }
        let mut i: usize = 0;
        while i < self.entries.len()
            invariant
                self.keys_distinct(),
                i <= self.entries@.len(),
                forall|j: int| 0 <= j < i ==> self.entries@[j].1@ == value@,
            decreases self.entries@.len() - i,
        {
            if self.entries[i].1 != *value {
                proof {
                    self.lemma_lookup(i as int);
                }
                return false;
            }
            i = i + 1;
        }
        proof {
            assert forall|k: Seq<char>| #[trigger] self@.contains_key(k) implies self@[k] == value@ by {
                let j = self.index_of_key(k);
                assert(self.keys()[j] == k);
                self.lemma_lookup(j);
            }
        }
        true
    }

    /// The pairs of the map, each key once.
    pub fn pairs(&self) -> (r: &Vec<(String, String)>)
        ensures
            r@.len() == self@.len(),
            forall|i: int| 0 <= i < r@.len() ==> #[trigger] self@.contains_key(r@[i].0@)
                && self@[r@[i].0@] == r@[i].1@,
    {
        let r = &self.entries;
        proof {
            use_type_invariant(self);
            self.lemma_finite_len();
            assert forall|i: int| 0 <= i < r@.len() implies #[trigger] self@.contains_key(r@[i].0@)
                && self@[r@[i].0@] == r@[i].1@ by {
                self.lemma_lookup(i);
            }
        }
        r
    }
}

impl Clone for StrMap {
    fn clone(&self) -> (r: StrMap)
        ensures
            r@ == self@,
    {
        proof {
            use_type_invariant(self);
        }
        let mut entries: Vec<(String, String)> = Vec::new();
        let mut i: usize = 0;
        while i < self.entries.len()
            invariant
                i <= self.entries@.len(),
                entries@.len() == i,
                forall|j: int| 0 <= j < i ==> #[trigger] entries@[j].0@ == self.entries@[j].0@
                    && entries@[j].1@ == self.entries@[j].1@,
            decreases self.entries@.len() - i,
        {
            let k = self.entries[i].0.clone();
            let v = self.entries[i].1.clone();
            entries.push((k, v));
            i = i + 1;
        }
        proof {
            assert(keys_of(entries@) =~= self.keys());
        }
        let r = StrMap { entries };
        proof {
            assert(r.keys() =~= self.keys());
            assert forall|q: Seq<char>| #[trigger] r@.contains_key(q) implies r@[q] == self@[q] by {
                let j = r.index_of_key(q);
                assert(r.keys()[j] == q);
                let oj = self.index_of_key(q);
                assert(self.keys()[oj] == q);
                assert(self.keys()[j] == q);
            }
            assert(r@ =~= self@);
        }
        r
    }
}

} // verus!
