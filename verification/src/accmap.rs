//! Account-keyed storage: an association map from account identifiers to
//! values, with distinct keys (compared byte for byte) and stable insertion
//! order, so that listings walk entries in the order they were added.
use vstd::prelude::*;
use crate::account::{AccountId, account_eq};

verus! {

/// A map from account identifier to a value, one entry per account.
pub struct AccountMap<V> {
    keys: Vec<AccountId>,
    vals: Vec<V>,
}

impl<V> AccountMap<V> {
    /// The keys are distinct byte strings and each key has exactly one value.
    pub closed spec fn wf(self) -> bool {
        &&& self.keys@.len() == self.vals@.len()
        &&& forall|i: int, j: int|
            0 <= i < j < self.keys@.len() ==> self.keys@[i]@ != self.keys@[j]@
    }

    pub closed spec fn spec_len(self) -> int {
        self.keys@.len() as int
    }

    pub closed spec fn spec_contains(self, h: Seq<u8>) -> bool {
        exists|i: int| 0 <= i < self.keys@.len() && self.keys@[i]@ == h
    }

    pub closed spec fn index_of(self, h: Seq<u8>) -> int {
        choose|i: int| 0 <= i < self.keys@.len() && self.keys@[i]@ == h
    }

    /// The value stored under the account with byte string `h`; meaningful
    /// only when `spec_contains(h)`.
    pub closed spec fn spec_get(self, h: Seq<u8>) -> V {
        self.vals@[self.index_of(h)]
    }

    /// The byte string of the key at position `i`, in insertion order.
    pub closed spec fn spec_key_at(self, i: int) -> Seq<u8> {
        self.keys@[i]@
    }

    /// The value at position `i`, in insertion order.
    pub closed spec fn spec_val_at(self, i: int) -> V {
        self.vals@[i]
    }

    pub proof fn lemma_index_at(self, i: int)
        requires
            self.wf(),
            0 <= i < self.spec_len(),
        ensures
            self.spec_contains(self.spec_key_at(i)),
            self.index_of(self.spec_key_at(i)) == i,
            self.spec_get(self.spec_key_at(i)) == self.spec_val_at(i),
    {
        assert(self.keys@[i]@ == self.spec_key_at(i));
        let j = self.index_of(self.spec_key_at(i));
        if j != i {
            assert(false);
        }
    }

    pub fn new() -> (r: AccountMap<V>)
        ensures
            r.wf(),
            r.spec_len() == 0,
            forall|h: Seq<u8>| !r.spec_contains(h),
    {
        AccountMap { keys: Vec::new(), vals: Vec::new() }
    }

    pub fn len(&self) -> (r: usize)
        requires
            self.wf(),
        ensures
            r == self.spec_len(),
    {
        self.keys.len()
    }

    pub fn key_at(&self, i: usize) -> (r: &AccountId)
        requires
            self.wf(),
            i < self.spec_len(),
        ensures
            r@ == self.spec_key_at(i as int),
    {
        &self.keys[i]
    }

    pub fn contains_key(&self, k: &AccountId) -> (r: bool)
        requires
            self.wf(),
        ensures
            r == self.spec_contains(k@),
    {
        let n = self.keys.len();
        let mut i: usize = 0;
        while i < n
            invariant
                i <= n,
                n == self.keys@.len(),
                self.wf(),
                forall|j: int| 0 <= j < i ==> self.keys@[j]@ != k@,
            decreases n - i,
        {
            if account_eq(&self.keys[i], k) {
                return true;
            }
            i += 1;
        }
        false
    }

    pub fn get(&self, k: &AccountId) -> (r: Option<&V>)
        requires
            self.wf(),
        ensures
            match r {
                Some(v) => self.spec_contains(k@) && *v == self.spec_get(k@),
                None => !self.spec_contains(k@),
            },
    {
        let n = self.keys.len();
        let mut i: usize = 0;
        while i < n
            invariant
                i <= n,
                n == self.keys@.len(),
                self.wf(),
                forall|j: int| 0 <= j < i ==> self.keys@[j]@ != k@,
            decreases n - i,
        {
            if account_eq(&self.keys[i], k) {
                proof {
                    self.lemma_index_at(i as int);
                }
                return Some(&self.vals[i]);
            }
            i += 1;
        }
        None
    }

    pub fn insert(&mut self, k: AccountId, v: V)
        requires
            old(self).wf(),
        ensures
            final(self).wf(),
            final(self).spec_contains(k@),
            final(self).spec_get(k@) == v,
            forall|h: Seq<u8>|
                h != k@ ==> final(self).spec_contains(h) == old(self).spec_contains(h),
            forall|h: Seq<u8>|
                h != k@ && old(self).spec_contains(h) ==> final(self).spec_get(h) == old(
                    self,
                ).spec_get(h),
            old(self).spec_contains(k@) ==> final(self).spec_len() == old(self).spec_len(),
            !old(self).spec_contains(k@) ==> final(self).spec_len() == old(self).spec_len() + 1
                && final(self).spec_key_at(old(self).spec_len()) == k@,
            forall|i: int|
                0 <= i < old(self).spec_len() ==> final(self).spec_key_at(i) == old(
                    self,
                ).spec_key_at(i),
    {
        let n = self.keys.len();
        let mut i: usize = 0;
        while i < n
            invariant
                i <= n,
                n == self.keys@.len(),
                self.wf(),
                self == old(self),
                forall|j: int| 0 <= j < i ==> self.keys@[j]@ != k@,
            decreases n - i,
        {
            if account_eq(&self.keys[i], &k) {
                proof {
                    self.lemma_index_at(i as int);
                }
                self.vals[i] = v;
                proof {
                    assert(self.keys@ == old(self).keys@);
                    self.lemma_index_at(i as int);
                    assert forall|h: Seq<u8>|
                        h != k@ && old(self).spec_contains(h) implies self.spec_get(h) == old(
                        self,
                    ).spec_get(h) by {
                        let j = old(self).index_of(h);
                        old(self).lemma_index_at(j);
                        self.lemma_index_at(j);
                        assert(j != i as int);
                    }
                }
                return ;
            }
            i += 1;
        }
        self.keys.push(k);
        self.vals.push(v);
        proof {
            let nk = self.keys@;
            let ok = old(self).keys@;
            assert(nk == ok.push(k));
            assert(nk[n as int]@ == k@);
            assert(forall|j: int| 0 <= j < n ==> nk[j] == ok[j]);
            assert(self.wf());
            self.lemma_index_at(n as int);
            assert(!old(self).spec_contains(k@));
            assert forall|h: Seq<u8>|
                h != k@ implies self.spec_contains(h) == old(self).spec_contains(h) by {
                if old(self).spec_contains(h) {
                    let j = old(self).index_of(h);
                    assert(nk[j]@ == h);
                }
                if self.spec_contains(h) {
                    let j = self.index_of(h);
                    assert(j != n as int);
                    assert(ok[j]@ == h);
                }
            }
            assert forall|h: Seq<u8>|
                h != k@ && old(self).spec_contains(h) implies self.spec_get(h) == old(
                self,
            ).spec_get(h) by {
                let j = old(self).index_of(h);
                old(self).lemma_index_at(j);
                self.lemma_index_at(j);
            }
        }
    }
}

} // verus!
