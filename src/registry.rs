//! A map from string identifiers to values, as the session and tab tables
//! use it: one value per identifier, insertion order irrelevant.

use vstd::prelude::*;

verus! {

pub struct Registry<V> {
    keys: Vec<String>,
    values: Vec<V>,
    model: Ghost<Map<Seq<char>, V>>,
}

impl<V> View for Registry<V> {
    type V = Map<Seq<char>, V>;

    closed spec fn view(&self) -> Map<Seq<char>, V> {
        self.model@
    }
}

impl<V> Registry<V> {
    pub closed spec fn wf(&self) -> bool {
        &&& self.keys@.len() == self.values@.len()
        &&& forall|i: int, j: int|
            0 <= i < j < self.keys@.len() ==> #[trigger] self.keys@[i]@ != #[trigger] self.keys@[j]@
        &&& forall|i: int|
            0 <= i < self.keys@.len() ==> self.model@.contains_key(#[trigger] self.keys@[i]@)
                && self.model@[self.keys@[i]@] == self.values@[i]
        &&& forall|k: Seq<char>| #[trigger]
            self.model@.contains_key(k) ==> exists|i: int|
                0 <= i < self.keys@.len() && #[trigger] self.keys@[i]@ == k
        &&& self.model@.dom().finite()
        &&& self.model@.len() == self.keys@.len()
    }

    pub fn new() -> (r: Registry<V>)
        ensures
            r.wf(),
            r@ == Map::<Seq<char>, V>::empty(),
    {
        Registry { keys: Vec::new(), values: Vec::new(), model: Ghost(Map::empty()) }
    }

    fn find(&self, k: &String) -> (r: Option<usize>)
        requires
            self.wf(),
        ensures
            match r {
                Some(i) => i < self.keys@.len() && self.keys@[i as int]@ == k@,
                None => !self@.contains_key(k@),
            },
    {
        let mut i: usize = 0;
        while i < self.keys.len()
            invariant
                self.wf(),
                i <= self.keys@.len(),
                forall|j: int| 0 <= j < i ==> self.keys@[j]@ != k@,
            decreases self.keys@.len() - i,
        {
            if self.keys[i] == *k {
                return Some(i);
            }
            i = i + 1;
        }
        None
    }

    /// Number of entries.
    pub fn len(&self) -> (r: usize)
        requires
            self.wf(),
        ensures
            r == self@.len(),
    {
        self.keys.len()
    }

    pub fn contains_key(&self, k: &String) -> (r: bool)
        requires
            self.wf(),
        ensures
            r == self@.contains_key(k@),
    {
        self.find(k).is_some()
    }

    pub fn get(&self, k: &String) -> (r: Option<&V>)
        requires
            self.wf(),
        ensures
            match r {
                Some(v) => self@.contains_key(k@) && *v == self@[k@],
                None => !self@.contains_key(k@),
            },
    {
        match self.find(k) {
            Some(i) => Some(&self.values[i]),
            None => None,
        }
    }

    /// The identifiers of all entries, each once.
    pub fn keys(&self) -> (r: &Vec<String>)
        requires
            self.wf(),
        ensures
            r@.len() == self@.len(),
            forall|i: int| 0 <= i < r@.len() ==> self@.contains_key(#[trigger] r@[i]@),
            forall|k: Seq<char>|
                #[trigger] self@.contains_key(k) ==> exists|i: int| 0 <= i < r@.len() && r@[i]@ == k,
            forall|i: int, j: int| 0 <= i < j < r@.len() ==> r@[i]@ != r@[j]@,
            forall|i: int| 0 <= i < r@.len() ==> (#[trigger] r@[i])@ == self.key_at(i),
    {
        &self.keys
    }

    /// The identifier of the entry that `values` lists at position `i`.
    pub closed spec fn key_at(&self, i: int) -> Seq<char> {
        self.keys@[i]@
    }

    /// The values of all entries; the one at position `i` is that of `key_at(i)`.
    pub fn values(&self) -> (r: &Vec<V>)
        requires
            self.wf(),
        ensures
            r@.len() == self@.len(),
            forall|i: int|
                0 <= i < r@.len() ==> self@.contains_key(#[trigger] self.key_at(i))
                    && self@[self.key_at(i)] == r@[i],
            forall|k: Seq<char>|
                #[trigger] self@.contains_key(k) ==> exists|i: int|
                    0 <= i < r@.len() && #[trigger] self.key_at(i) == k,
            forall|i: int, j: int| 0 <= i < j < r@.len() ==> self.key_at(i) != self.key_at(j),
    {
        assert forall|k: Seq<char>| #[trigger] self@.contains_key(k) implies exists|i: int|
            0 <= i < self.values@.len() && #[trigger] self.key_at(i) == k by {
            let i = choose|i: int| 0 <= i < self.keys@.len() && #[trigger] self.keys@[i]@ == k;
            assert(self.key_at(i) == k);
        }
        &self.values
    }

    /// Removes the entry of `k`, if any, and returns its value.
    pub fn remove(&mut self, k: &String) -> (r: Option<V>)
        requires
            old(self).wf(),
        ensures
            final(self).wf(),
            final(self)@ == old(self)@.remove(k@),
            r == (if old(self)@.contains_key(k@) {
                Some(old(self)@[k@])
            } else {
                None
            }),
    {
        match self.find(k) {
            None => {
                assert(self.model@.remove(k@) =~= self.model@);
                None
            },
            Some(i) => {
                let ghost old_keys = self.keys@;
                let ghost old_values = self.values@;
                let ghost old_model = self.model@;
                let key = self.keys.remove(i);
                let v = self.values.remove(i);
                self.model = Ghost(old_model.remove(k@));
                proof {
                    assert forall|a: int, b: int|
                        0 <= a < b < self.keys@.len() implies #[trigger] self.keys@[a]@
                        != #[trigger] self.keys@[b]@ by {
                        let oa = if a < i { a } else { a + 1 };
                        let ob = if b < i { b } else { b + 1 };
                        assert(self.keys@[a] == old_keys[oa]);
                        assert(self.keys@[b] == old_keys[ob]);
                    }
                    assert forall|a: int| 0 <= a < self.keys@.len() implies self.model@.contains_key(
                        #[trigger] self.keys@[a]@,
                    ) && self.model@[self.keys@[a]@] == self.values@[a] by {
                        let oa = if a < i { a } else { a + 1 };
                        assert(self.keys@[a] == old_keys[oa]);
                        assert(self.values@[a] == old_values[oa]);
                        assert(old_keys[oa]@ != old_keys[i as int]@);
                    }
                    assert forall|kk: Seq<char>| #[trigger]
                        self.model@.contains_key(kk) implies exists|a: int|
                        0 <= a < self.keys@.len() && #[trigger] self.keys@[a]@ == kk by {
                        let oa = choose|oa: int| 0 <= oa < old_keys.len() && #[trigger] old_keys[oa]@ == kk;
                        assert(oa != i);
                        let a = if oa < i { oa } else { oa - 1 };
                        assert(self.keys@[a] == old_keys[oa]);
                    }
                }
                Some(v)
            },
        }
    }

    /// Sets the value of `k`, replacing and returning the previous one.
    pub fn insert(&mut self, k: String, v: V) -> (r: Option<V>)
        requires
            old(self).wf(),
        ensures
            final(self).wf(),
            final(self)@ == old(self)@.insert(k@, v),
            r == (if old(self)@.contains_key(k@) {
                Some(old(self)@[k@])
            } else {
                None
            }),
    {
        let ghost old_keys = self.keys@;
        let ghost old_values = self.values@;
        let ghost old_model = self.model@;
        match self.find(&k) {
            None => {
                let ghost kv = k@;
                self.keys.push(k);
                self.values.push(v);
                self.model = Ghost(old_model.insert(kv, v));
                proof {
                    let n = old_keys.len() as int;
                    assert(self.keys@[n]@ == kv);
                    assert forall|a: int, b: int|
                        0 <= a < b < self.keys@.len() implies #[trigger] self.keys@[a]@
                        != #[trigger] self.keys@[b]@ by {
                        if b == n {
                            assert(old_model.contains_key(old_keys[a]@));
                        } else {
                            assert(self.keys@[a] == old_keys[a]);
                            assert(self.keys@[b] == old_keys[b]);
                        }
                    }
                    assert forall|a: int| 0 <= a < self.keys@.len() implies self.model@.contains_key(
                        #[trigger] self.keys@[a]@,
                    ) && self.model@[self.keys@[a]@] == self.values@[a] by {
                        if a < n {
                            assert(self.keys@[a] == old_keys[a]);
                            assert(old_model.contains_key(old_keys[a]@));
                        }
                    }
                    assert forall|kk: Seq<char>| #[trigger]
                        self.model@.contains_key(kk) implies exists|a: int|
                        0 <= a < self.keys@.len() && #[trigger] self.keys@[a]@ == kk by {
                        if kk != kv {
                            let oa = choose|oa: int| 0 <= oa < old_keys.len() && #[trigger] old_keys[oa]@ == kk;
                            assert(self.keys@[oa] == old_keys[oa]);
                        }
                    }
                }
                None
            },
            Some(i) => {
                let prev = self.values.remove(i);
                self.values.insert(i, v);
                self.model = Ghost(old_model.insert(k@, v));
                proof {
                    assert(old_model.contains_key(k@));
                    assert(old_model.insert(k@, v).dom() =~= old_model.dom());
                    assert forall|a: int| 0 <= a < self.keys@.len() implies self.model@.contains_key(
                        #[trigger] self.keys@[a]@,
                    ) && self.model@[self.keys@[a]@] == self.values@[a] by {
                        if a != i {
                            assert(self.values@[a] == old_values[a]);
                            assert(old_keys[a]@ != old_keys[i as int]@);
                        }
                    }
                    assert forall|kk: Seq<char>| #[trigger]
                        self.model@.contains_key(kk) implies exists|a: int|
                        0 <= a < self.keys@.len() && #[trigger] self.keys@[a]@ == kk by {
                        if kk != k@ {
                            let oa = choose|oa: int| 0 <= oa < old_keys.len() && #[trigger] old_keys[oa]@ == kk;
                            assert(self.keys@[oa]@ == kk);
                        } else {
                            assert(self.keys@[i as int]@ == kk);
                        }
                    }
                }
                Some(prev)
            },
        }
    }

    /// A well-formed registry has finitely many entries.
    pub proof fn lemma_finite(&self)
        requires
            self.wf(),
        ensures
            self@.dom().finite(),
    {
    }

    /// Removes every entry.
    pub fn clear(&mut self)
        requires
            old(self).wf(),
        ensures
            final(self).wf(),
            final(self)@ == Map::<Seq<char>, V>::empty(),
    {
        self.keys = Vec::new();
        self.values = Vec::new();
        self.model = Ghost(Map::empty());
    }
}

} // verus!
