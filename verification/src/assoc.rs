//! A small association map: entries in insertion order, at most one per key.

use vstd::prelude::*;

verus! {

/// Something a map can be keyed by: two keys are the same when their views are.
pub trait Key: View + Sized {
    /// Whether both keys name the same entry.
    fn same(&self, other: &Self) -> (r: bool)
        ensures
            r == (self@ == other@),
    ;

    /// A second copy of the key.
    fn duplicate(&self) -> (r: Self)
        ensures
            r@ == self@,
    ;
}

impl Key for u64 {
    fn same(&self, other: &Self) -> (r: bool) {
        *self == *other
    }

    fn duplicate(&self) -> (r: Self) {
        *self
    }
}

impl Key for String {
    fn same(&self, other: &Self) -> (r: bool) {
        *self == *other
    }

    fn duplicate(&self) -> (r: Self) {
        self.clone()
    }
}

impl Key for (String, u32) {
    fn same(&self, other: &Self) -> (r: bool) {
        self.1 == other.1 && self.0 == other.0
    }

    fn duplicate(&self) -> (r: Self) {
        (self.0.clone(), self.1)
    }
}

/// A map kept as a list of entries.
pub struct Assoc<K: Key, T> {
    pub entries: Vec<(K, T)>,
}

impl<K: Key, T> View for Assoc<K, T> {
    type V = Map<K::V, T>;

    open spec fn view(&self) -> Map<K::V, T> {
        Map::new(|k: K::V| self.has(k), |k: K::V| self.entries@[self.slot(k)].1)
    }
}

impl<K: Key, T> Assoc<K, T> {
    /// Some entry is stored under `k`.
    pub open spec fn has(&self, k: K::V) -> bool {
        exists|i: int| #![trigger self.entries@[i]] 0 <= i < self.entries@.len() && self.entries@[i].0@ == k
    }

    /// Where the entry of `k` is stored.
    pub open spec fn slot(&self, k: K::V) -> int {
        choose|i: int| #![trigger self.entries@[i]] 0 <= i < self.entries@.len() && self.entries@[i].0@ == k
    }

    /// No key occurs twice.
    pub open spec fn wf(&self) -> bool {
        forall|i: int, j: int|
            #![trigger self.entries@[i], self.entries@[j]]
            0 <= i < self.entries@.len() && 0 <= j < self.entries@.len() && self.entries@[i].0@
                == self.entries@[j].0@ ==> i == j
    }

    /// The entry at `i` is the one its key maps to.
    pub proof fn lemma_entry(&self, i: int)
        requires
            self.wf(),
            0 <= i < self.entries@.len(),
        ensures
            self@.contains_key(self.entries@[i].0@),
            self@[self.entries@[i].0@] == self.entries@[i].1,
    {
        let k = self.entries@[i].0@;
        assert(self.has(k));
        assert(self.slot(k) == i);
    }

    pub fn new() -> (r: Self)
        ensures
            r.wf(),
            r@ == Map::<K::V, T>::empty(),
            r.entries@.len() == 0,
    {
        let r = Assoc { entries: Vec::new() };
        assert(r@ =~= Map::<K::V, T>::empty());
        r
    }

    /// Where the entry of `key` is stored, if it has one.
    pub fn find(&self, key: &K) -> (r: Option<usize>)
        requires
            self.wf(),
        ensures
            match r {
                Some(i) => i < self.entries@.len() && self.entries@[i as int].0@ == key@
                    && self@.contains_key(key@) && self@[key@] == self.entries@[i as int].1,
                None => !self@.contains_key(key@),
            },
    {
        let mut i: usize = 0;
        while i < self.entries.len()
            invariant
                self.wf(),
                i <= self.entries@.len(),
                forall|j: int| 0 <= j < i ==> (#[trigger] self.entries@[j]).0@ != key@,
            decreases self.entries@.len() - i,
        {
            if self.entries[i].0.same(key) {
                proof {
                    self.lemma_entry(i as int);
                }
                return Some(i);
            }
            i += 1;
        }
        None
    }

    /// The value stored under `key`.
    pub fn get(&self, key: &K) -> (r: Option<&T>)
        requires
            self.wf(),
        ensures
            match r {
                Some(v) => self@.contains_key(key@) && *v == self@[key@],
                None => !self@.contains_key(key@),
            },
    {
        match self.find(key) {
            Some(i) => Some(&self.entries[i].1),
            None => None,
        }
    }

    pub fn contains(&self, key: &K) -> (r: bool)
        requires
            self.wf(),
        ensures
            r == self@.contains_key(key@),
    {
        match self.find(key) {
            Some(_) => true,
            None => false,
        }
    }

    /// Stores `value` under `key`, in place of any value already there.
    pub fn insert(&mut self, key: K, value: T)
        requires
            old(self).wf(),
        ensures
            final(self).wf(),
            final(self)@ == old(self)@.insert(key@, value),
    {
        let ghost before = *self;
        match self.find(&key) {
            Some(i) => {
                self.entries.set(i, (key, value));
                proof {
                    let after = *self;
                    assert(forall|j: int| 0 <= j < after.entries@.len() ==> (#[trigger] after.entries@[j]).0@ == before.entries@[j].0@);
                    assert forall|k: K::V| after@.contains_key(k) == before@.insert(key@, value).contains_key(k) by {
                        if after.has(k) {
                            let j = after.slot(k);
                            assert(before.entries@[j].0@ == k);
                        }
                        if before.has(k) {
                            let j = before.slot(k);
                            assert(after.entries@[j].0@ == k);
                        }
                    }
                    assert forall|k: K::V| #[trigger] after@.contains_key(k) implies after@[k] == before@.insert(key@, value)[k] by {
                        let j = after.slot(k);
                        assert(before.entries@[j].0@ == k);
                        before.lemma_entry(j);
                        after.lemma_entry(j);
                    }
                    assert(after@ =~= before@.insert(key@, value));
                }
            },
            None => {
                self.entries.push((key, value));
                proof {
                    let after = *self;
                    let n = before.entries@.len() as int;
                    assert forall|k: K::V| after@.contains_key(k) == before@.insert(key@, value).contains_key(k) by {
                        if after.has(k) {
                            let j = after.slot(k);
                            if j < n {
                                assert(before.entries@[j].0@ == k);
                            }
                        }
                        if before.has(k) {
                            let j = before.slot(k);
                            assert(after.entries@[j].0@ == k);
                        }
                        assert(after.entries@[n].0@ == key@);
                    }
                    assert(after.wf()) by {
                        assert forall|i: int, j: int|
                            #![trigger after.entries@[i], after.entries@[j]]
                            0 <= i < after.entries@.len() && 0 <= j < after.entries@.len()
                                && after.entries@[i].0@ == after.entries@[j].0@ implies i == j by {
                            if i < n {
                                assert(before.entries@[i] == after.entries@[i]);
                                before.lemma_entry(i);
                            }
                            if j < n {
                                assert(before.entries@[j] == after.entries@[j]);
                                before.lemma_entry(j);
                            }
                        }
                    }
                    assert forall|k: K::V| #[trigger] after@.contains_key(k) implies after@[k] == before@.insert(key@, value)[k] by {
                        let j = after.slot(k);
                        after.lemma_entry(j);
                        if j < n {
                            assert(before.entries@[j] == after.entries@[j]);
                            before.lemma_entry(j);
                        }
                    }
                    assert(after@ =~= before@.insert(key@, value));
                }
            },
        }
    }

    /// Takes the entry of `key` out of the map.
    pub fn remove(&mut self, key: &K) -> (r: Option<T>)
        requires
            old(self).wf(),
        ensures
            final(self).wf(),
            final(self)@ == old(self)@.remove(key@),
            match r {
                Some(v) => old(self)@.contains_key(key@) && v == old(self)@[key@],
                None => !old(self)@.contains_key(key@),
            },
    {
        let ghost before = *self;
        match self.find(key) {
            Some(i) => {
                let (_, value) = self.entries.remove(i);
                proof {
                    let after = *self;
                    let at = |j: int| if j < i { j } else { j + 1 };
                    assert forall|j: int| 0 <= j < after.entries@.len() implies (#[trigger] after.entries@[j])
                        == before.entries@[at(j)] by {}
                    assert forall|k: K::V| after@.contains_key(k) == before@.remove(key@).contains_key(k) by {
                        if after.has(k) {
                            let j = after.slot(k);
                            assert(before.entries@[at(j)].0@ == k);
                            assert(at(j) != i);
                        }
                        if before.has(k) && k != key@ {
                            let j = before.slot(k);
                            let b = if j < i { j } else { j - 1 };
                            assert(after.entries@[b] == before.entries@[j]);
                        }
                    }
                    assert(after.wf()) by {
                        assert forall|a: int, b: int|
                            #![trigger after.entries@[a], after.entries@[b]]
                            0 <= a < after.entries@.len() && 0 <= b < after.entries@.len()
                                && after.entries@[a].0@ == after.entries@[b].0@ implies a == b by {
                            assert(before.entries@[at(a)].0@ == before.entries@[at(b)].0@);
                        }
                    }
                    assert forall|k: K::V| #[trigger] after@.contains_key(k) implies after@[k] == before@.remove(key@)[k] by {
                        let j = after.slot(k);
                        after.lemma_entry(j);
                        before.lemma_entry(at(j));
                    }
                    assert(after@ =~= before@.remove(key@));
                }
                Some(value)
            },
            None => {
                assert(self@ =~= before@.remove(key@));
                None
            },
        }
    }

    /// Takes one entry out of the map, as long as there is one.
    pub fn pop(&mut self) -> (r: Option<(K, T)>)
        requires
            old(self).wf(),
        ensures
            final(self).wf(),
            match r {
                Some((k, v)) => old(self)@.contains_key(k@) && v == old(self)@[k@] && final(self)@
                    == old(self)@.remove(k@) && final(self).entries@.len() + 1
                    == old(self).entries@.len(),
                None => old(self)@ == Map::<K::V, T>::empty() && final(self)@
                    == old(self)@,
            },
    {
        let ghost before = *self;
        match self.entries.pop() {
            Some((k, v)) => {
                proof {
                    let after = *self;
                    let n = after.entries@.len() as int;
                    before.lemma_entry(n);
                    assert forall|i: int| 0 <= i < n implies (#[trigger] after.entries@[i])
                        == before.entries@[i] by {}
                    assert(after.wf()) by {
                        assert forall|i: int, j: int|
                            #![trigger after.entries@[i], after.entries@[j]]
                            0 <= i < n && 0 <= j < n && after.entries@[i].0@
                                == after.entries@[j].0@ implies i == j by {
                            assert(before.entries@[i].0@ == before.entries@[j].0@);
                        }
                    }
                    assert forall|key: K::V| after@.contains_key(key) == before@.remove(
                        k@,
                    ).contains_key(key) by {
                        if after.has(key) {
                            let j = after.slot(key);
                            assert(before.entries@[j].0@ == key);
                            assert(before.entries@[n].0@ == k@);
                        }
                        if before.has(key) && key != k@ {
                            let j = before.slot(key);
                            assert(after.entries@[j].0@ == key);
                        }
                    }
                    assert forall|key: K::V| #[trigger] after@.contains_key(key) implies after@[key]
                        == before@.remove(k@)[key] by {
                        let j = after.slot(key);
                        after.lemma_entry(j);
                        before.lemma_entry(j);
                    }
                    assert(after@ =~= before@.remove(k@));
                }
                Some((k, v))
            },
            None => {
                assert(before@ =~= Map::<K::V, T>::empty());
                None
            },
        }
    }

    /// Lists the keys.
    pub fn keys(&self) -> (r: Vec<K>)
        requires
            self.wf(),
        ensures
            r@.len() == self.entries@.len(),
            forall|i: int| 0 <= i < r@.len() ==> (#[trigger] r@[i])@ == self.entries@[i].0@,
            forall|i: int| 0 <= i < r@.len() ==> self@.contains_key((#[trigger] r@[i])@),
            forall|k: K::V| #[trigger]
                self@.contains_key(k) ==> exists|i: int|
                    0 <= i < r@.len() && (#[trigger] r@[i])@ == k,
            forall|i: int, j: int|
                0 <= i < r@.len() && 0 <= j < r@.len() && (#[trigger] r@[i])@ == (
                #[trigger] r@[j])@ ==> i == j,
    {
        let mut out: Vec<K> = Vec::new();
        let mut i: usize = 0;
        while i < self.entries.len()
            invariant
                i <= self.entries@.len(),
                out@.len() == i,
                forall|j: int| 0 <= j < i ==> (#[trigger] out@[j])@ == self.entries@[j].0@,
            decreases self.entries@.len() - i,
        {
            out.push(self.entries[i].0.duplicate());
            i += 1;
        }
        proof {
            assert forall|j: int| 0 <= j < out@.len() implies self@.contains_key(
                (#[trigger] out@[j])@,
            ) by {
                self.lemma_entry(j);
            }
            assert forall|k: K::V| #[trigger] self@.contains_key(k) implies exists|j: int|
                0 <= j < out@.len() && (#[trigger] out@[j])@ == k by {
                let j = self.slot(k);
                assert(out@[j]@ == k);
            }
            assert forall|a: int, b: int|
                0 <= a < out@.len() && 0 <= b < out@.len() && (#[trigger] out@[a])@ == (
                #[trigger] out@[b])@ implies a == b by {
                assert(self.entries@[a].0@ == self.entries@[b].0@);
            }
        }
        out
    }
}

} // verus!
