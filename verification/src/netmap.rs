//! Per-subnetwork keyed storage: an association map from 16-bit subnetwork
//! identifiers to values, with distinct keys.
use vstd::prelude::*;

verus! {

/// A map from subnetwork identifier to a value, one entry per identifier.
pub struct NetMap<V> {
    keys: Vec<u16>,
    vals: Vec<V>,
}

impl<V> NetMap<V> {
    /// The keys are distinct and each key has exactly one value.
    pub closed spec fn wf(self) -> bool {
        &&& self.keys@.len() == self.vals@.len()
        &&& forall|i: int, j: int|
            0 <= i < j < self.keys@.len() ==> self.keys@[i] != self.keys@[j]
    }

    pub closed spec fn spec_contains(self, k: u16) -> bool {
        self.keys@.contains(k)
    }

    pub closed spec fn index_of(self, k: u16) -> int {
        choose|i: int| 0 <= i < self.keys@.len() && self.keys@[i] == k
    }

    /// The value stored under `k`; meaningful only when `spec_contains(k)`.
    pub closed spec fn spec_get(self, k: u16) -> V {
        self.vals@[self.index_of(k)]
    }

    proof fn lemma_index_at(self, i: int)
        requires
            self.wf(),
            0 <= i < self.keys@.len(),
        ensures
            self.spec_contains(self.keys@[i]),
            self.index_of(self.keys@[i]) == i,
            self.spec_get(self.keys@[i]) == self.vals@[i],
    {
        assert(self.keys@.contains(self.keys@[i]));
        let j = self.index_of(self.keys@[i]);
        assert(0 <= j < self.keys@.len() && self.keys@[j] == self.keys@[i]);
        if j != i {
            assert(false);
        }
    }

    pub fn new() -> (r: NetMap<V>)
        ensures
            r.wf(),
            forall|k: u16| !r.spec_contains(k),
    {
        NetMap { keys: Vec::new(), vals: Vec::new() }
    }

    pub fn contains_key(&self, k: u16) -> (r: bool)
        requires
            self.wf(),
        ensures
            r == self.spec_contains(k),
    {
        let n = self.keys.len();
        let mut i: usize = 0;
        while i < n
            invariant
                i <= n,
                n == self.keys@.len(),
                forall|j: int| 0 <= j < i ==> self.keys@[j] != k,
            decreases n - i,
        {
            if self.keys[i] == k {
                return true;
            }
            i += 1;
        }
        false
    }

    pub fn get(&self, k: u16) -> (r: Option<&V>)
        requires
            self.wf(),
        ensures
            match r {
                Some(v) => self.spec_contains(k) && *v == self.spec_get(k),
                None => !self.spec_contains(k),
            },
    {
        let n = self.keys.len();
        let mut i: usize = 0;
        while i < n
            invariant
                i <= n,
                n == self.keys@.len(),
                self.wf(),
                forall|j: int| 0 <= j < i ==> self.keys@[j] != k,
            decreases n - i,
        {
            if self.keys[i] == k {
                proof {
                    self.lemma_index_at(i as int);
                }
                return Some(&self.vals[i]);
            }
            i += 1;
        }
        None
    }

    pub fn insert(&mut self, k: u16, v: V)
        requires
            old(self).wf(),
        ensures
            final(self).wf(),
            final(self).spec_contains(k),
            final(self).spec_get(k) == v,
            forall|k2: u16|
                k2 != k ==> final(self).spec_contains(k2) == old(self).spec_contains(k2),
            forall|k2: u16|
                k2 != k && old(self).spec_contains(k2) ==> final(self).spec_get(k2) == old(
                    self,
                ).spec_get(k2),
    {
        let n = self.keys.len();
        let mut i: usize = 0;
        while i < n
            invariant
                i <= n,
                n == self.keys@.len(),
                self.wf(),
                self == old(self),
                forall|j: int| 0 <= j < i ==> self.keys@[j] != k,
            decreases n - i,
        {
            if self.keys[i] == k {
                proof {
                    self.lemma_index_at(i as int);
                }
                self.vals[i] = v;
                proof {
                    assert(self.keys@ == old(self).keys@);
                    self.lemma_index_at(i as int);
                    assert forall|k2: u16|
                        k2 != k && old(self).spec_contains(k2) implies self.spec_get(k2)
                        == old(self).spec_get(k2) by {
                        let j = old(self).index_of(k2);
                        assert(0 <= j < old(self).keys@.len() && old(self).keys@[j] == k2);
                        old(self).lemma_index_at(j);
                        self.lemma_index_at(j);
                        assert(j != i as int);
                    }
                }
                return ;
            }
            i += 1;
        }
        self.keys.push(k);
        self.vals.push(v);
        proof {
            let nk = self.keys@;
            let ok = old(self).keys@;
            assert(nk == ok.push(k));
            assert(nk[n as int] == k);
            assert(forall|j: int| 0 <= j < n ==> nk[j] == ok[j]);
            assert(self.wf());
            assert(nk.contains(k));
            self.lemma_index_at(n as int);
            assert forall|k2: u16|
                k2 != k implies self.spec_contains(k2) == old(self).spec_contains(k2) by {
                if old(self).spec_contains(k2) {
                    let j = choose|j: int| 0 <= j < ok.len() && ok[j] == k2;
                    assert(nk[j] == k2);
                    assert(nk.contains(k2));
                }
                if self.spec_contains(k2) {
                    let j = choose|j: int| 0 <= j < nk.len() && nk[j] == k2;
                    assert(j != n as int);
                    assert(ok[j] == k2);
                    assert(ok.contains(k2));
                }
            }
            assert forall|k2: u16|
                k2 != k && old(self).spec_contains(k2) implies self.spec_get(k2) == old(
                self,
            ).spec_get(k2) by {
                let j = old(self).index_of(k2);
                assert(0 <= j < ok.len() && ok[j] == k2);
                old(self).lemma_index_at(j);
                self.lemma_index_at(j);
            }
        }
    }

    pub fn remove(&mut self, k: u16)
        requires
            old(self).wf(),
        ensures
            final(self).wf(),
            !final(self).spec_contains(k),
            forall|k2: u16|
                k2 != k ==> final(self).spec_contains(k2) == old(self).spec_contains(k2),
            forall|k2: u16|
                k2 != k && old(self).spec_contains(k2) ==> final(self).spec_get(k2) == old(
                    self,
                ).spec_get(k2),
    {
        let n = self.keys.len();
        let mut i: usize = 0;
        while i < n
            invariant
                i <= n,
                n == self.keys@.len(),
                self.wf(),
                self == old(self),
                forall|j: int| 0 <= j < i ==> self.keys@[j] != k,
            decreases n - i,
        {
            if self.keys[i] == k {
                self.keys.swap_remove(i);
                self.vals.swap_remove(i);
                proof {
                    let ok = old(self).keys@;
                    let nk = self.keys@;
                    let ov = old(self).vals@;
                    let nv = self.vals@;
                    assert(nk == ok.update(i as int, ok[n - 1]).drop_last());
                    assert(nv == ov.update(i as int, ov[n - 1]).drop_last());
                    assert(nk.len() == n - 1);
                    // every surviving slot holds an entry of the old map at a
                    // distinct old index, so distinctness carries over
                    assert forall|p: int, q: int|
                        0 <= p < q < nk.len() implies nk[p] != nk[q] by {
                        if p == i as int {
                            assert(nk[p] == ok[n - 1]);
                            assert(nk[q] == ok[q]);
                        } else if q == i as int {
                            assert(nk[q] == ok[n - 1]);
                            assert(nk[p] == ok[p]);
                        }
                    }
                    assert(self.wf());
                    assert forall|k2: u16| self.spec_contains(k2) implies k2 != k && old(
                        self,
                    ).spec_contains(k2) by {
                        let j = choose|j: int| 0 <= j < nk.len() && nk[j] == k2;
                        if j == i as int {
                            assert(nk[j] == ok[n - 1]);
                            assert(ok.contains(k2));
                            assert(n - 1 != i as int);
                        } else {
                            assert(nk[j] == ok[j]);
                            assert(ok.contains(k2));
                            assert(j != i as int);
                        }
                    }
                    assert forall|k2: u16|
                        k2 != k && old(self).spec_contains(k2) implies self.spec_contains(
                        k2,
                    ) && self.spec_get(k2) == old(self).spec_get(k2) by {
                        let j = old(self).index_of(k2);
                        assert(0 <= j < ok.len() && ok[j] == k2);
                        old(self).lemma_index_at(j);
                        if j == n - 1 {
                            assert(j != i as int);
                            assert(nk[i as int] == k2);
                            assert(nk.contains(k2));
                            self.lemma_index_at(i as int);
                            assert(nv[i as int] == ov[j]);
                        } else {
                            assert(j != n - 1);
                            assert(j != i as int);
                            assert(nk[j] == k2);
                            assert(nk.contains(k2));
                            self.lemma_index_at(j);
                            assert(nv[j] == ov[j]);
                        }
                    }
                }
                return ;
            }
            i += 1;
        }
    }
}

} // verus!
verus! {

/// `post` is `pre` with `k` bound to `v` and nothing else changed.
pub open spec fn netmap_set<V>(pre: NetMap<V>, post: NetMap<V>, k: u16, v: V) -> bool {
    &&& post.spec_contains(k)
    &&& post.spec_get(k) == v
    &&& forall|k2: u16| k2 != k ==> post.spec_contains(k2) == pre.spec_contains(k2)
    &&& forall|k2: u16|
        k2 != k && pre.spec_contains(k2) ==> post.spec_get(k2) == pre.spec_get(k2)
}

/// `post` is `pre` without `k` and nothing else changed.
pub open spec fn netmap_removed<V>(pre: NetMap<V>, post: NetMap<V>, k: u16) -> bool {
    &&& !post.spec_contains(k)
    &&& forall|k2: u16| k2 != k ==> post.spec_contains(k2) == pre.spec_contains(k2)
    &&& forall|k2: u16|
        k2 != k && pre.spec_contains(k2) ==> post.spec_get(k2) == pre.spec_get(k2)
}

} // verus!
