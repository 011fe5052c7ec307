//! The stake ledger: how much each coldkey account has staked toward each
//! hotkey account, one row per (hotkey, coldkey) pair, in insertion order.
use vstd::prelude::*;
use crate::account::{AccountId, account_eq};

verus! {

/// A table of (hotkey, coldkey, stake) rows, at most one row per pair.
pub struct StakeTable {
    hots: Vec<AccountId>,
    colds: Vec<AccountId>,
    amts: Vec<u64>,
}

impl StakeTable {
    /// The (hotkey, coldkey) pairs are distinct and each has one amount.
    pub closed spec fn wf(self) -> bool {
        &&& self.hots@.len() == self.colds@.len()
        &&& self.hots@.len() == self.amts@.len()
        &&& forall|i: int, j: int|
            0 <= i < j < self.hots@.len() ==> !(self.hots@[i]@ == self.hots@[j]@
                && self.colds@[i]@ == self.colds@[j]@)
    }

    pub closed spec fn spec_len(self) -> int {
        self.hots@.len() as int
    }

    pub closed spec fn spec_hot_at(self, i: int) -> Seq<u8> {
        self.hots@[i]@
    }

    pub closed spec fn spec_cold_at(self, i: int) -> Seq<u8> {
        self.colds@[i]@
    }

    pub closed spec fn spec_amt_at(self, i: int) -> u64 {
        self.amts@[i]
    }

    pub closed spec fn spec_contains(self, h: Seq<u8>, c: Seq<u8>) -> bool {
        exists|i: int|
            0 <= i < self.hots@.len() && self.hots@[i]@ == h && self.colds@[i]@ == c
    }

    pub closed spec fn index_of(self, h: Seq<u8>, c: Seq<u8>) -> int {
        choose|i: int|
            0 <= i < self.hots@.len() && self.hots@[i]@ == h && self.colds@[i]@ == c
    }

    /// The stake recorded for `(h, c)`, zero when no row exists.
    pub open spec fn spec_stake(self, h: Seq<u8>, c: Seq<u8>) -> u64 {
        if self.spec_contains(h, c) {
            self.spec_amt_at(self.index_of(h, c))
        } else {
            0
        }
    }

    pub proof fn lemma_row_at(self, i: int)
        requires
            self.wf(),
            0 <= i < self.spec_len(),
        ensures
            self.spec_contains(self.spec_hot_at(i), self.spec_cold_at(i)),
            self.index_of(self.spec_hot_at(i), self.spec_cold_at(i)) == i,
            self.spec_stake(self.spec_hot_at(i), self.spec_cold_at(i)) == self.spec_amt_at(i),
    {
        assert(self.hots@[i]@ == self.spec_hot_at(i) && self.colds@[i]@ == self.spec_cold_at(i));
        let j = self.index_of(self.spec_hot_at(i), self.spec_cold_at(i));
        if j != i {
            assert(false);
        }
    }

    pub fn new() -> (r: StakeTable)
        ensures
            r.wf(),
            r.spec_len() == 0,
            forall|h: Seq<u8>, c: Seq<u8>| !r.spec_contains(h, c),
    {
        StakeTable { hots: Vec::new(), colds: Vec::new(), amts: Vec::new() }
    }

    pub fn len(&self) -> (r: usize)
        requires
            self.wf(),
        ensures
            r == self.spec_len(),
    {
        self.hots.len()
    }

    pub fn hot_at(&self, i: usize) -> (r: &AccountId)
        requires
            self.wf(),
            i < self.spec_len(),
        ensures
            r@ == self.spec_hot_at(i as int),
    {
        &self.hots[i]
    }

    pub fn cold_at(&self, i: usize) -> (r: &AccountId)
        requires
            self.wf(),
            i < self.spec_len(),
        ensures
            r@ == self.spec_cold_at(i as int),
    {
        &self.colds[i]
    }

    pub fn amt_at(&self, i: usize) -> (r: u64)
        requires
            self.wf(),
            i < self.spec_len(),
        ensures
            r == self.spec_amt_at(i as int),
    {
        self.amts[i]
    }

    /// The stake `c` holds toward `h`, zero when none is recorded.
    pub fn get_stake(&self, h: &AccountId, c: &AccountId) -> (r: u64)
        requires
            self.wf(),
        ensures
            r == self.spec_stake(h@, c@),
    {
        let len = self.hots.len();
        let mut i: usize = 0;
        while i < len
            invariant
                i <= len,
                len == self.hots@.len(),
                self.wf(),
                forall|j: int| 0 <= j < i ==> !(self.hots@[j]@ == h@ && self.colds@[j]@ == c@),
            decreases len - i,
        {
            if account_eq(&self.hots[i], h) && account_eq(&self.colds[i], c) {
                proof {
                    self.lemma_row_at(i as int);
                }
                return self.amts[i];
            }
            i += 1;
        }
        0
    }

    /// Records `amt` as the stake of `c` toward `h`, replacing any prior row.
    pub fn set_stake(&mut self, h: AccountId, c: AccountId, amt: u64)
        requires
            old(self).wf(),
        ensures
            final(self).wf(),
            final(self).spec_contains(h@, c@),
            final(self).spec_stake(h@, c@) == amt,
            forall|h2: Seq<u8>, c2: Seq<u8>|
                !(h2 == h@ && c2 == c@) ==> final(self).spec_contains(h2, c2) == old(
                    self,
                ).spec_contains(h2, c2),
            forall|h2: Seq<u8>, c2: Seq<u8>|
                !(h2 == h@ && c2 == c@) ==> final(self).spec_stake(h2, c2) == old(self).spec_stake(
                    h2,
                    c2,
                ),
    {
        let len = self.hots.len();
        let mut i: usize = 0;
        while i < len
            invariant
                i <= len,
                len == self.hots@.len(),
                self.wf(),
                self == old(self),
                forall|j: int| 0 <= j < i ==> !(self.hots@[j]@ == h@ && self.colds@[j]@ == c@),
            decreases len - i,
        {
            if account_eq(&self.hots[i], &h) && account_eq(&self.colds[i], &c) {
                proof {
                    self.lemma_row_at(i as int);
                }
                self.amts[i] = amt;
                proof {
                    assert(self.hots@ == old(self).hots@);
                    assert(self.colds@ == old(self).colds@);
                    self.lemma_row_at(i as int);
                    assert forall|h2: Seq<u8>, c2: Seq<u8>|
                        !(h2 == h@ && c2 == c@) implies self.spec_stake(h2, c2) == old(
                        self,
                    ).spec_stake(h2, c2) by {
                        if old(self).spec_contains(h2, c2) {
                            let j = old(self).index_of(h2, c2);
                            old(self).lemma_row_at(j);
                            self.lemma_row_at(j);
                            assert(j != i as int);
                        }
                    }
                }
                return ;
            }
            i += 1;
        }
        self.hots.push(h);
        self.colds.push(c);
        self.amts.push(amt);
        proof {
            let ohs = old(self).hots@;
            let ocs = old(self).colds@;
            assert(self.hots@ == ohs.push(h));
            assert(self.colds@ == ocs.push(c));
            assert(self.wf());
            self.lemma_row_at(len as int);
            assert forall|h2: Seq<u8>, c2: Seq<u8>|
                !(h2 == h@ && c2 == c@) implies self.spec_contains(h2, c2) == old(
                self,
            ).spec_contains(h2, c2) by {
                if old(self).spec_contains(h2, c2) {
                    let j = old(self).index_of(h2, c2);
                    assert(self.hots@[j]@ == h2 && self.colds@[j]@ == c2);
                }
                if self.spec_contains(h2, c2) {
                    let j = self.index_of(h2, c2);
                    assert(j != len as int);
                    assert(ohs[j]@ == h2 && ocs[j]@ == c2);
                }
            }
            assert forall|h2: Seq<u8>, c2: Seq<u8>|
                !(h2 == h@ && c2 == c@) implies self.spec_stake(h2, c2) == old(self).spec_stake(
                h2,
                c2,
            ) by {
                if old(self).spec_contains(h2, c2) {
                    let j = old(self).index_of(h2, c2);
                    old(self).lemma_row_at(j);
                    self.lemma_row_at(j);
                }
            }
        }
    }
}

} // verus!
