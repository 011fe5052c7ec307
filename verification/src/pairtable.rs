//! Storage keyed by a pair of 16-bit identifiers: connection requirements
//! between two subnetworks, and per-subnetwork row tables whose rows are
//! addressed by (subnetwork, slot) and swept away when the subnetwork goes.
use vstd::prelude::*;

verus! {

/// A map from a pair of 16-bit keys to a value, one entry per pair.
pub struct PairTable<V> {
    ka: Vec<u16>,
    kb: Vec<u16>,
    vals: Vec<V>,
}

impl<V> PairTable<V> {
    /// Key pairs are distinct and each pair has exactly one value.
    pub closed spec fn wf(self) -> bool {
        &&& self.ka@.len() == self.vals@.len()
        &&& self.kb@.len() == self.vals@.len()
        &&& forall|i: int, j: int|
            0 <= i < j < self.ka@.len() ==> !(self.ka@[i] == self.ka@[j] && self.kb@[i]
                == self.kb@[j])
    }

    pub closed spec fn spec_contains(self, a: u16, b: u16) -> bool {
        exists|i: int| 0 <= i < self.ka@.len() && self.ka@[i] == a && self.kb@[i] == b
    }

    pub closed spec fn index_of(self, a: u16, b: u16) -> int {
        choose|i: int| 0 <= i < self.ka@.len() && self.ka@[i] == a && self.kb@[i] == b
    }

    /// The value stored under `(a, b)`; meaningful only when present.
    pub closed spec fn spec_get(self, a: u16, b: u16) -> V {
        self.vals@[self.index_of(a, b)]
    }

    /// Whether any entry's first key equals `a`.
    pub open spec fn has_first(self, a: u16) -> bool {
        exists|b: u16| self.spec_contains(a, b)
    }

    proof fn lemma_index_at(self, i: int)
        requires
            self.wf(),
            0 <= i < self.ka@.len(),
        ensures
            self.spec_contains(self.ka@[i], self.kb@[i]),
            self.index_of(self.ka@[i], self.kb@[i]) == i,
            self.spec_get(self.ka@[i], self.kb@[i]) == self.vals@[i],
    {
        assert(self.spec_contains(self.ka@[i], self.kb@[i]));
        let j = self.index_of(self.ka@[i], self.kb@[i]);
        if j != i {
            assert(false);
        }
    }

    pub fn new() -> (r: PairTable<V>)
        ensures
            r.wf(),
            forall|a: u16, b: u16| !r.spec_contains(a, b),
    {
        PairTable { ka: Vec::new(), kb: Vec::new(), vals: Vec::new() }
    }

    pub fn contains_key(&self, a: u16, b: u16) -> (r: bool)
        requires
            self.wf(),
        ensures
            r == self.spec_contains(a, b),
    {
        let n = self.ka.len();
        let mut i: usize = 0;
        while i < n
            invariant
                i <= n,
                n == self.ka@.len(),
                self.wf(),
                forall|j: int| 0 <= j < i ==> !(self.ka@[j] == a && self.kb@[j] == b),
            decreases n - i,
        {
            if self.ka[i] == a && self.kb[i] == b {
                return true;
            }
            i += 1;
        }
        false
    }

    pub fn get(&self, a: u16, b: u16) -> (r: Option<&V>)
        requires
            self.wf(),
        ensures
            match r {
                Some(v) => self.spec_contains(a, b) && *v == self.spec_get(a, b),
                None => !self.spec_contains(a, b),
            },
    {
        let n = self.ka.len();
        let mut i: usize = 0;
        while i < n
            invariant
                i <= n,
                n == self.ka@.len(),
                self.wf(),
                forall|j: int| 0 <= j < i ==> !(self.ka@[j] == a && self.kb@[j] == b),
            decreases n - i,
        {
            if self.ka[i] == a && self.kb[i] == b {
                proof {
                    self.lemma_index_at(i as int);
                }
                return Some(&self.vals[i]);
            }
            i += 1;
        }
        None
    }

    pub fn insert(&mut self, a: u16, b: u16, v: V)
        requires
            old(self).wf(),
        ensures
            final(self).wf(),
            final(self).spec_contains(a, b),
            final(self).spec_get(a, b) == v,
            forall|a2: u16, b2: u16|
                !(a2 == a && b2 == b) ==> final(self).spec_contains(a2, b2) == old(
                    self,
                ).spec_contains(a2, b2),
            forall|a2: u16, b2: u16|
                !(a2 == a && b2 == b) && old(self).spec_contains(a2, b2) ==> final(self).spec_get(
                    a2,
                    b2,
                ) == old(self).spec_get(a2, b2),
    {
        let n = self.ka.len();
        let mut i: usize = 0;
        while i < n
            invariant
                i <= n,
                n == self.ka@.len(),
                self.wf(),
                self == old(self),
                forall|j: int| 0 <= j < i ==> !(self.ka@[j] == a && self.kb@[j] == b),
            decreases n - i,
        {
            if self.ka[i] == a && self.kb[i] == b {
                proof {
                    self.lemma_index_at(i as int);
                }
                self.vals[i] = v;
                proof {
                    self.lemma_index_at(i as int);
                    assert forall|a2: u16, b2: u16|
                        !(a2 == a && b2 == b) && old(self).spec_contains(a2, b2) implies self
                        .spec_get(a2, b2) == old(self).spec_get(a2, b2) by {
                        let j = old(self).index_of(a2, b2);
                        old(self).lemma_index_at(j);
                        self.lemma_index_at(j);
                        assert(j != i as int);
                    }
                }
                return ;
            }
            i += 1;
        }
        self.ka.push(a);
        self.kb.push(b);
        self.vals.push(v);
        proof {
            assert(self.ka@ == old(self).ka@.push(a));
            assert(self.kb@ == old(self).kb@.push(b));
            assert(self.wf());
            self.lemma_index_at(n as int);
            assert forall|a2: u16, b2: u16|
                !(a2 == a && b2 == b) implies self.spec_contains(a2, b2) == old(
                self,
            ).spec_contains(a2, b2) by {
                if old(self).spec_contains(a2, b2) {
                    let j = old(self).index_of(a2, b2);
                    assert(self.ka@[j] == a2 && self.kb@[j] == b2);
                }
                if self.spec_contains(a2, b2) {
                    let j = self.index_of(a2, b2);
                    assert(j != n as int);
                    assert(old(self).ka@[j] == a2 && old(self).kb@[j] == b2);
                }
            }
            assert forall|a2: u16, b2: u16|
                !(a2 == a && b2 == b) && old(self).spec_contains(a2, b2) implies self.spec_get(
                a2,
                b2,
            ) == old(self).spec_get(a2, b2) by {
                let j = old(self).index_of(a2, b2);
                old(self).lemma_index_at(j);
                self.lemma_index_at(j);
            }
        }
    }

    pub fn remove(&mut self, a: u16, b: u16)
        requires
            old(self).wf(),
        ensures
            final(self).wf(),
            !final(self).spec_contains(a, b),
            forall|a2: u16, b2: u16|
                !(a2 == a && b2 == b) ==> final(self).spec_contains(a2, b2) == old(
                    self,
                ).spec_contains(a2, b2),
            forall|a2: u16, b2: u16|
                !(a2 == a && b2 == b) && old(self).spec_contains(a2, b2) ==> final(self).spec_get(
                    a2,
                    b2,
                ) == old(self).spec_get(a2, b2),
    {
        let n = self.ka.len();
        let mut i: usize = 0;
        while i < n
            invariant
                i <= n,
                n == self.ka@.len(),
                self.wf(),
                self == old(self),
                forall|j: int| 0 <= j < i ==> !(self.ka@[j] == a && self.kb@[j] == b),
            decreases n - i,
        {
            if self.ka[i] == a && self.kb[i] == b {
                self.ka.swap_remove(i);
                self.kb.swap_remove(i);
                self.vals.swap_remove(i);
                proof {
                    let oa = old(self).ka@;
                    let ob = old(self).kb@;
                    assert(self.ka@ == oa.update(i as int, oa[n - 1]).drop_last());
                    assert(self.kb@ == ob.update(i as int, ob[n - 1]).drop_last());
                    assert forall|p: int, q: int|
                        0 <= p < q < self.ka@.len() implies !(self.ka@[p] == self.ka@[q]
                        && self.kb@[p] == self.kb@[q]) by {
                        if p == i as int {
                            assert(self.ka@[p] == oa[n - 1] && self.kb@[p] == ob[n - 1]);
                        } else if q == i as int {
                            assert(self.ka@[q] == oa[n - 1] && self.kb@[q] == ob[n - 1]);
                        }
                    }
                    assert(self.wf());
                    assert forall|a2: u16, b2: u16|
                        self.spec_contains(a2, b2) implies !(a2 == a && b2 == b) && old(
                        self,
                    ).spec_contains(a2, b2) by {
                        let j = self.index_of(a2, b2);
                        if j == i as int {
                            assert(oa[n - 1] == a2 && ob[n - 1] == b2);
                        } else {
                            assert(oa[j] == a2 && ob[j] == b2);
                            assert(j != i as int);
                        }
                    }
                    assert forall|a2: u16, b2: u16|
                        !(a2 == a && b2 == b) && old(self).spec_contains(a2, b2) implies self
                        .spec_contains(a2, b2) && self.spec_get(a2, b2) == old(self).spec_get(
                        a2,
                        b2,
                    ) by {
                        let j = old(self).index_of(a2, b2);
                        old(self).lemma_index_at(j);
                        if j == n - 1 {
                            assert(self.ka@[i as int] == a2 && self.kb@[i as int] == b2);
                            self.lemma_index_at(i as int);
                        } else {
                            assert(j != i as int);
                            assert(self.ka@[j] == a2 && self.kb@[j] == b2);
                            self.lemma_index_at(j);
                        }
                    }
                }
                return ;
            }
            i += 1;
        }
    }

    /// Removes every entry whose first key equals `a`: the full-prefix sweep
    /// a subnetwork removal performs on its derived tables.
    pub fn clear_first(&mut self, a: u16)
        requires
            old(self).wf(),
        ensures
            final(self).wf(),
            !final(self).has_first(a),
            forall|a2: u16, b2: u16|
                final(self).spec_contains(a2, b2) == (old(self).spec_contains(a2, b2) && a2 != a),
            forall|a2: u16, b2: u16|
                a2 != a && old(self).spec_contains(a2, b2) ==> final(self).spec_get(a2, b2) == old(
                    self,
                ).spec_get(a2, b2),
    {
        let ghost oa = old(self).ka@;
        let ghost ob = old(self).kb@;
        let ghost ov = old(self).vals@;
        let ghost n = oa.len() as int;
        let mut out: PairTable<V> = PairTable::new();
        while self.ka.len() > 0
            invariant
                self.wf(),
                out.wf(),
                self.ka@ == oa.take(self.ka@.len() as int),
                self.kb@ == ob.take(self.ka@.len() as int),
                self.vals@ == ov.take(self.ka@.len() as int),
                self.ka@.len() <= n,
                oa.len() == n && ob.len() == n && ov.len() == n,
                forall|i: int, j: int| 0 <= i < j < n ==> !(oa[i] == oa[j] && ob[i] == ob[j]),
                forall|a2: u16, b2: u16|
                    out.spec_contains(a2, b2) == (a2 != a && exists|l: int|
                        self.ka@.len() <= l < n && oa[l] == a2 && ob[l] == b2),
                forall|a2: u16, b2: u16, l: int|
                    a2 != a && self.ka@.len() <= l < n && oa[l] == a2 && ob[l] == b2
                        ==> out.spec_get(a2, b2) == ov[l],
            decreases self.ka@.len(),
        {
            let ghost m = self.ka@.len() as int;
            let a2 = self.ka.pop().unwrap();
            let b2 = self.kb.pop().unwrap();
            let v = self.vals.pop().unwrap();
            proof {
                assert(a2 == oa[m - 1] && b2 == ob[m - 1] && v == ov[m - 1]);
                assert(self.ka@ =~= oa.take(m - 1));
                assert(self.kb@ =~= ob.take(m - 1));
                assert(self.vals@ =~= ov.take(m - 1));
            }
            if a2 != a {
                let ghost out0 = out;
                out.insert(a2, b2, v);
                proof {
                    assert forall|x: u16, y: u16|
                        out.spec_contains(x, y) == (x != a && exists|l: int|
                            m - 1 <= l < n && oa[l] == x && ob[l] == y) by {
                        if x == a2 && y == b2 {
                            assert(out.spec_contains(x, y));
                            assert(oa[m - 1] == x && ob[m - 1] == y);
                        } else {
                            if out0.spec_contains(x, y) {
                                let l = choose|l: int| m <= l < n && oa[l] == x && ob[l] == y;
                                assert(m - 1 <= l < n && oa[l] == x && ob[l] == y);
                            }
                            if x != a && exists|l: int| m - 1 <= l < n && oa[l] == x && ob[l]
                                == y {
                                let l = choose|l: int| m - 1 <= l < n && oa[l] == x && ob[l] == y;
                                if l == m - 1 {
                                    assert(x == a2 && y == b2);
                                } else {
                                    assert(out0.spec_contains(x, y));
                                }
                            }
                        }
                    }
                    assert forall|x: u16, y: u16, l: int|
                        x != a && m - 1 <= l < n && oa[l] == x && ob[l] == y implies out.spec_get(
                        x,
                        y,
                    ) == ov[l] by {
                        if l == m - 1 {
                            if !(x == a2 && y == b2) {
                                assert(false);
                            }
                        } else {
                            assert(!(oa[l] == a2 && ob[l] == b2));
                            assert(out0.spec_get(x, y) == ov[l]);
                        }
                    }
                }
            } else {
                proof {
                    assert forall|x: u16, y: u16|
                        out.spec_contains(x, y) == (x != a && exists|l: int|
                            m - 1 <= l < n && oa[l] == x && ob[l] == y) by {
                        if x != a && exists|l: int| m - 1 <= l < n && oa[l] == x && ob[l] == y {
                            let l = choose|l: int| m - 1 <= l < n && oa[l] == x && ob[l] == y;
                            assert(l != m - 1);
                            assert(m <= l < n && oa[l] == x && ob[l] == y);
                        }
                    }
                }
            }
        }
        *self = out;
        proof {
            assert forall|x: u16, y: u16|
                self.spec_contains(x, y) == (old(self).spec_contains(x, y) && x != a) by {
                if old(self).spec_contains(x, y) && x != a {
                    let l = old(self).index_of(x, y);
                    assert(0 <= l < n && oa[l] == x && ob[l] == y);
                }
                if self.spec_contains(x, y) {
                    let l = choose|l: int| 0 <= l < n && oa[l] == x && ob[l] == y;
                    assert(old(self).spec_contains(x, y));
                }
            }
            assert forall|x: u16, y: u16|
                x != a && old(self).spec_contains(x, y) implies self.spec_get(x, y) == old(
                self,
            ).spec_get(x, y) by {
                let l = old(self).index_of(x, y);
                old(self).lemma_index_at(l);
            }
        }
    }
}

} // verus!
verus! {

/// `post` is `pre` with `(a, b)` bound to `v` and nothing else changed.
pub open spec fn pairtable_set<V>(pre: PairTable<V>, post: PairTable<V>, a: u16, b: u16, v: V) -> bool {
    &&& post.spec_contains(a, b)
    &&& post.spec_get(a, b) == v
    &&& forall|x: u16, y: u16|
        !(x == a && y == b) ==> post.spec_contains(x, y) == pre.spec_contains(x, y)
    &&& forall|x: u16, y: u16|
        !(x == a && y == b) && pre.spec_contains(x, y) ==> post.spec_get(x, y) == pre.spec_get(
            x,
            y,
        )
}

/// `post` is `pre` without `(a, b)` and nothing else changed.
pub open spec fn pairtable_removed<V>(pre: PairTable<V>, post: PairTable<V>, a: u16, b: u16) -> bool {
    &&& !post.spec_contains(a, b)
    &&& forall|x: u16, y: u16|
        !(x == a && y == b) ==> post.spec_contains(x, y) == pre.spec_contains(x, y)
    &&& forall|x: u16, y: u16|
        !(x == a && y == b) && pre.spec_contains(x, y) ==> post.spec_get(x, y) == pre.spec_get(
            x,
            y,
        )
}

/// `post` is `pre` with every entry under first key `a` swept away.
pub open spec fn pairtable_cleared<V>(pre: PairTable<V>, post: PairTable<V>, a: u16) -> bool {
    &&& !post.has_first(a)
    &&& forall|x: u16, y: u16|
        post.spec_contains(x, y) == (pre.spec_contains(x, y) && x != a)
    &&& forall|x: u16, y: u16|
        x != a && pre.spec_contains(x, y) ==> post.spec_get(x, y) == pre.spec_get(x, y)
}

} // verus!
