use vstd::prelude::*;

verus! {

/// A small map keyed by server id, kept as a vector of pairs with distinct
/// keys. Fleets are tens of servers, so lookups scan.
pub struct IdMap<V> {
    entries: Vec<(i64, V)>,
    contents: Ghost<Map<i64, V>>,
}

impl<V> View for IdMap<V> {
    type V = Map<i64, V>;

    closed spec fn view(&self) -> Map<i64, V> {
        self.contents@
    }
}

/// Key of each pair, in order.
pub open spec fn pair_keys<V>(entries: Seq<(i64, V)>) -> Seq<i64> {
    entries.map_values(|e: (i64, V)| e.0)
}

impl<V> IdMap<V> {
    /// The pairs hold distinct keys, and hold exactly what the view maps.
    pub closed spec fn wf(&self) -> bool {
        &&& forall|i: int, j: int|
            0 <= i < self.entries@.len() && 0 <= j < self.entries@.len() && i != j
                ==> (#[trigger] self.entries@[i]).0 != (#[trigger] self.entries@[j]).0
        &&& forall|i: int|
            0 <= i < self.entries@.len() ==> {
                &&& self.contents@.contains_key(#[trigger] self.entries@[i].0)
                &&& self.contents@[self.entries@[i].0] == self.entries@[i].1
            }
        &&& forall|k: i64|
            #[trigger] self.contents@.contains_key(k) ==> exists|i: int|
                0 <= i < self.entries@.len() && (#[trigger] self.entries@[i]).0 == k
    }

    /// The pairs in the order they are stored.
    pub closed spec fn pairs(&self) -> Seq<(i64, V)> {
        self.entries@
    }

    /// No key is stored twice, and the stored pairs are exactly the map.
    pub proof fn lemma_pairs_match(&self)
        requires
            self.wf(),
        ensures
            forall|i: int, j: int|
                0 <= i < self.pairs().len() && 0 <= j < self.pairs().len()
                    && (#[trigger] self.pairs()[i]).0 == (#[trigger] self.pairs()[j]).0 ==> i == j,
            forall|i: int|
                0 <= i < self.pairs().len() ==> self@.contains_key(#[trigger] self.pairs()[i].0)
                    && self@[self.pairs()[i].0] == self.pairs()[i].1,
            forall|k: i64| #[trigger] self@.contains_key(k) ==> pair_keys(self.pairs()).contains(k),
    {
        assert forall|k: i64| #[trigger] self@.contains_key(k) implies pair_keys(self.pairs()).contains(k) by {
            let i = choose|i: int| 0 <= i < self.entries@.len() && (#[trigger] self.entries@[i]).0 == k;
            assert(pair_keys(self.entries@)[i] == k);
        }
    }

    pub fn new() -> (r: Self)
        ensures
            r.wf(),
            r@ == Map::<i64, V>::empty(),
    {
        IdMap { entries: Vec::new(), contents: Ghost(Map::empty()) }
    }

    fn find(&self, key: i64) -> (r: Option<usize>)
        requires
            self.wf(),
        ensures
            match r {
                Some(i) => i < self.entries@.len() && self.entries@[i as int].0 == key,
                None => !self@.contains_key(key),
            },
    {
        let mut i: usize = 0;
        while i < self.entries.len()
            invariant
                self.wf(),
                i <= self.entries@.len(),
                forall|j: int| 0 <= j < i ==> self.entries@[j].0 != key,
            decreases self.entries@.len() - i,
        {
            if self.entries[i].0 == key {
                return Some(i);
            }
            i = i + 1;
        }
        None
    }

    pub fn contains_key(&self, key: i64) -> (r: bool)
        requires
            self.wf(),
        ensures
            r == self@.contains_key(key),
    {
        self.find(key).is_some()
    }

    pub fn get(&self, key: i64) -> (r: Option<&V>)
        requires
            self.wf(),
        ensures
            match r {
                Some(v) => self@.contains_key(key) && *v == self@[key],
                None => !self@.contains_key(key),
            },
    {
        match self.find(key) {
            Some(i) => Some(&self.entries[i].1),
            None => None,
        }
    }

    /// The stored pairs; every key of the map occurs among them.
    pub fn entries(&self) -> (r: &Vec<(i64, V)>)
        requires
            self.wf(),
        ensures
            r@ == self.pairs(),
            forall|i: int| 0 <= i < r@.len() ==> self@.contains_key(#[trigger] r@[i].0),
            forall|k: i64| #[trigger] self@.contains_key(k) ==> pair_keys(r@).contains(k),
    {
        proof {
            assert forall|k: i64| #[trigger] self@.contains_key(k) implies pair_keys(self.entries@).contains(k) by {
                let i = choose|i: int| 0 <= i < self.entries@.len() && (#[trigger] self.entries@[i]).0 == k;
                assert(pair_keys(self.entries@)[i] == k);
            }
        }
        &self.entries
    }

    /// Adds a pair for a key that is not present; a present key is refused
    /// and the value handed back.
    pub fn insert_new(&mut self, key: i64, value: V) -> (r: Result<(), V>)
        requires
            old(self).wf(),
        ensures
            final(self).wf(),
            match r {
                Ok(()) => !old(self)@.contains_key(key) && final(self)@ == old(self)@.insert(key, value),
                Err(v) => old(self)@.contains_key(key) && v == value && final(self)@ == old(self)@,
            },
    {
        match self.find(key) {
            Some(_) => Err(value),
            None => {
                self.push_absent(key, value);
                Ok(())
            },
        }
    }

    fn push_absent(&mut self, key: i64, value: V)
        requires
            old(self).wf(),
            !old(self)@.contains_key(key),
        ensures
            final(self).wf(),
            final(self)@ == old(self)@.insert(key, value),
    {
        let ghost v = value;
        let ghost old_entries = self.entries@;
        self.entries.push((key, value));
        self.contents = Ghost(self.contents@.insert(key, v));
        proof {
            assert(self.entries@[old_entries.len() as int] == (key, v));
            assert forall|k: i64| #[trigger] self.contents@.contains_key(k) implies exists|i: int|
                0 <= i < self.entries@.len() && (#[trigger] self.entries@[i]).0 == k by {
                if k == key {
                    assert(self.entries@[old_entries.len() as int].0 == k);
                } else {
                    let i = choose|i: int| 0 <= i < old_entries.len() && (#[trigger] old_entries[i]).0 == k;
                    assert(self.entries@[i] == old_entries[i]);
                }
            }
        }
    }

    /// Maps the key to the value, replacing what it mapped to.
    pub fn set(&mut self, key: i64, value: V)
        requires
            old(self).wf(),
        ensures
            final(self).wf(),
            final(self)@ == old(self)@.insert(key, value),
    {
        match self.find(key) {
            None => self.push_absent(key, value),
            Some(i) => {
                let ghost v = value;
                let ghost old_entries = self.entries@;
                self.entries.set(i, (key, value));
                self.contents = Ghost(self.contents@.insert(key, v));
                proof {
                    assert forall|k: i64| #[trigger] self.contents@.contains_key(k) implies exists|j: int|
                        0 <= j < self.entries@.len() && (#[trigger] self.entries@[j]).0 == k by {
                        if k == key {
                            assert(self.entries@[i as int].0 == k);
                        } else {
                            let j = choose|j: int| 0 <= j < old_entries.len() && (#[trigger] old_entries[j]).0 == k;
                            assert(self.entries@[j] == old_entries[j]);
                        }
                    }
                }
            },
        }
    }

    /// Removes the key, handing back what it mapped to.
    pub fn remove(&mut self, key: i64) -> (r: Option<V>)
        requires
            old(self).wf(),
        ensures
            final(self).wf(),
            final(self)@ == old(self)@.remove(key),
            match r {
                Some(v) => old(self)@.contains_key(key) && v == old(self)@[key],
                None => !old(self)@.contains_key(key),
            },
    {
        match self.find(key) {
            None => {
                proof {
                    assert(self.contents@.remove(key) =~= self.contents@);
                }
                None
            },
            Some(i) => {
                let ghost old_entries = self.entries@;
                let ghost last = old_entries.len() - 1;
                let entry = self.entries.swap_remove(i);
                self.contents = Ghost(self.contents@.remove(key));
                proof {
                    assert forall|j: int| 0 <= j < self.entries@.len() implies
                        (#[trigger] self.entries@[j]) == old_entries[j] || (j == i && self.entries@[j] == old_entries[last]) by {}
                    assert forall|j: int| 0 <= j < self.entries@.len() implies
                        (#[trigger] self.entries@[j]).0 != key by {
                        if j == i {
                            assert(old_entries[last] == self.entries@[j]);
                        }
                    }
                    assert forall|k: i64| #[trigger] self.contents@.contains_key(k) implies exists|j: int|
                        0 <= j < self.entries@.len() && (#[trigger] self.entries@[j]).0 == k by {
                        let j = choose|j: int| 0 <= j < old_entries.len() && (#[trigger] old_entries[j]).0 == k;
                        if j == last {
                            assert(self.entries@[i as int].0 == k);
                        } else {
                            assert(self.entries@[j].0 == k);
                        }
                    }
                }
                Some(entry.1)
            },
        }
    }
}

} // verus!
