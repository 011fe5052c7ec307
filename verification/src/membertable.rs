//! Subnetwork membership: which hotkey account holds which neuron slot on
//! which subnetwork. Rows are kept in insertion order; the list of
//! subnetworks a hotkey is registered on walks the rows in that order.
use vstd::prelude::*;
use crate::account::{AccountId, account_eq};

verus! {

/// A table of (subnetwork, hotkey, slot) rows, at most one row per
/// (subnetwork, hotkey) pair.
pub struct MemberTable {
    nets: Vec<u16>,
    hots: Vec<AccountId>,
    slots: Vec<u16>,
}

impl MemberTable {
    /// The (subnetwork, hotkey) pairs are distinct and each has one slot.
    pub closed spec fn wf(self) -> bool {
        &&& self.nets@.len() == self.hots@.len()
        &&& self.nets@.len() == self.slots@.len()
        &&& forall|i: int, j: int|
            0 <= i < j < self.nets@.len() ==> !(self.nets@[i] == self.nets@[j] && self.hots@[i]@
                == self.hots@[j]@)
    }

    pub closed spec fn spec_contains(self, n: u16, h: Seq<u8>) -> bool {
        exists|i: int| 0 <= i < self.nets@.len() && self.nets@[i] == n && self.hots@[i]@ == h
    }

    pub closed spec fn index_of(self, n: u16, h: Seq<u8>) -> int {
        choose|i: int| 0 <= i < self.nets@.len() && self.nets@[i] == n && self.hots@[i]@ == h
    }

    /// The slot stored for `(n, h)`; meaningful only when present.
    pub closed spec fn spec_slot(self, n: u16, h: Seq<u8>) -> u16 {
        self.slots@[self.index_of(n, h)]
    }

    /// Whether any row belongs to subnetwork `n`.
    pub open spec fn has_netuid(self, n: u16) -> bool {
        exists|h: Seq<u8>| self.spec_contains(n, h)
    }

    /// The subnetworks hotkey `h` is registered on, in row order.
    pub closed spec fn spec_regs(self, h: Seq<u8>) -> Seq<u16> {
        Self::regs_rec(self.nets@, self.hots@, h)
    }

    spec fn regs_rec(ns: Seq<u16>, hs: Seq<AccountId>, h: Seq<u8>) -> Seq<u16>
        decreases ns.len(),
    {
        if ns.len() == 0 || ns.len() != hs.len() {
            Seq::empty()
        } else {
            let prefix = Self::regs_rec(ns.drop_last(), hs.drop_last(), h);
            if hs.last()@ == h {
                prefix.push(ns.last())
            } else {
                prefix
            }
        }
    }

    pub fn new() -> (r: MemberTable)
        ensures
            r.wf(),
            forall|n: u16, h: Seq<u8>| !r.spec_contains(n, h),
            forall|h: Seq<u8>| r.spec_regs(h) == Seq::<u16>::empty(),
    {
        MemberTable { nets: Vec::new(), hots: Vec::new(), slots: Vec::new() }
    }

    pub fn get_slot(&self, n: u16, h: &AccountId) -> (r: Option<u16>)
        requires
            self.wf(),
        ensures
            match r {
                Some(u) => self.spec_contains(n, h@) && u == self.spec_slot(n, h@),
                None => !self.spec_contains(n, h@),
            },
    {
        let len = self.nets.len();
        let mut i: usize = 0;
        while i < len
            invariant
                i <= len,
                len == self.nets@.len(),
                self.wf(),
                forall|j: int| 0 <= j < i ==> !(self.nets@[j] == n && self.hots@[j]@ == h@),
            decreases len - i,
        {
            if self.nets[i] == n && account_eq(&self.hots[i], h) {
                proof {
                    assert(self.spec_contains(n, h@));
                    let j = self.index_of(n, h@);
                    if j != i as int {
                        assert(false);
                    }
                }
                return Some(self.slots[i]);
            }
            i += 1;
        }
        None
    }

    pub fn insert(&mut self, n: u16, h: AccountId, slot: u16)
        requires
            old(self).wf(),
        ensures
            final(self).wf(),
            final(self).spec_contains(n, h@),
            final(self).spec_slot(n, h@) == slot,
            forall|n2: u16, h2: Seq<u8>|
                !(n2 == n && h2 == h@) ==> final(self).spec_contains(n2, h2) == old(
                    self,
                ).spec_contains(n2, h2),
            forall|n2: u16, h2: Seq<u8>|
                !(n2 == n && h2 == h@) && old(self).spec_contains(n2, h2) ==> final(self).spec_slot(n2, h2) == old(self).spec_slot(n2, h2),
    {
        let len = self.nets.len();
        let mut i: usize = 0;
        while i < len
            invariant
                i <= len,
                len == self.nets@.len(),
                self.wf(),
                self == old(self),
                forall|j: int| 0 <= j < i ==> !(self.nets@[j] == n && self.hots@[j]@ == h@),
            decreases len - i,
        {
            if self.nets[i] == n && account_eq(&self.hots[i], &h) {
                self.slots[i] = slot;
                proof {
                    assert(self.nets@ == old(self).nets@);
                    assert(self.hots@ == old(self).hots@);
                    assert(self.spec_contains(n, h@));
                    let j0 = self.index_of(n, h@);
                    if j0 != i as int {
                        assert(false);
                    }
                    assert forall|n2: u16, h2: Seq<u8>|
                        !(n2 == n && h2 == h@) && old(self).spec_contains(n2, h2) implies self
                        .spec_slot(n2, h2) == old(self).spec_slot(n2, h2) by {
                        let j = old(self).index_of(n2, h2);
                        assert(0 <= j < self.nets@.len() && self.nets@[j] == n2 && self.hots@[j]@
                            == h2);
                        let j2 = self.index_of(n2, h2);
                        if j2 != j {
                            assert(false);
                        }
                        assert(j != i as int);
                    }
                }
                return ;
            }
            i += 1;
        }
        self.nets.push(n);
        self.hots.push(h);
        self.slots.push(slot);
        proof {
            let on = old(self).nets@;
            let oh = old(self).hots@;
            assert(self.nets@ == on.push(n));
            assert(self.hots@ == oh.push(h));
            assert(self.wf());
            assert(self.nets@[len as int] == n && self.hots@[len as int]@ == h@);
            assert(self.spec_contains(n, h@));
            let j0 = self.index_of(n, h@);
            if j0 != len as int {
                assert(false);
            }
            assert forall|n2: u16, h2: Seq<u8>|
                !(n2 == n && h2 == h@) implies self.spec_contains(n2, h2) == old(
                self,
            ).spec_contains(n2, h2) by {
                if old(self).spec_contains(n2, h2) {
                    let j = old(self).index_of(n2, h2);
                    assert(self.nets@[j] == n2 && self.hots@[j]@ == h2);
                }
                if self.spec_contains(n2, h2) {
                    let j = self.index_of(n2, h2);
                    assert(j != len as int);
                    assert(on[j] == n2 && oh[j]@ == h2);
                }
            }
            assert forall|n2: u16, h2: Seq<u8>|
                !(n2 == n && h2 == h@) && old(self).spec_contains(n2, h2) implies self.spec_slot(
                n2,
                h2,
            ) == old(self).spec_slot(n2, h2) by {
                let j = old(self).index_of(n2, h2);
                assert(self.nets@[j] == n2 && self.hots@[j]@ == h2);
                let j2 = self.index_of(n2, h2);
                if j2 != j {
                    assert(false);
                }
            }
        }
    }

    /// Removes every row of subnetwork `n`: the membership part of the
    /// full-prefix sweep a subnetwork removal performs.
    pub fn clear_netuid(&mut self, n: u16)
        requires
            old(self).wf(),
        ensures
            final(self).wf(),
            !final(self).has_netuid(n),
            forall|n2: u16, h2: Seq<u8>|
                final(self).spec_contains(n2, h2) == (old(self).spec_contains(n2, h2) && n2 != n),
            forall|n2: u16, h2: Seq<u8>|
                n2 != n && old(self).spec_contains(n2, h2) ==> final(self).spec_slot(n2, h2)
                    == old(self).spec_slot(n2, h2),
    {
        let ghost on = old(self).nets@;
        let ghost oh = old(self).hots@;
        let ghost os = old(self).slots@;
        let ghost total = on.len() as int;
        let mut out: MemberTable = MemberTable::new();
        while self.nets.len() > 0
            invariant
                self.wf(),
                out.wf(),
                self.nets@ == on.take(self.nets@.len() as int),
                self.hots@ == oh.take(self.nets@.len() as int),
                self.slots@ == os.take(self.nets@.len() as int),
                self.nets@.len() <= total,
                on.len() == total && oh.len() == total && os.len() == total,
                forall|i: int, j: int|
                    0 <= i < j < total ==> !(on[i] == on[j] && oh[i]@ == oh[j]@),
                forall|n2: u16, h2: Seq<u8>|
                    out.spec_contains(n2, h2) == (n2 != n && exists|l: int|
                        self.nets@.len() <= l < total && on[l] == n2 && oh[l]@ == h2),
                forall|n2: u16, h2: Seq<u8>, l: int|
                    n2 != n && self.nets@.len() <= l < total && on[l] == n2 && oh[l]@ == h2
                        ==> out.spec_slot(n2, h2) == os[l],
            decreases self.nets@.len(),
        {
            let ghost m = self.nets@.len() as int;
            let n2 = self.nets.pop().unwrap();
            let h2 = self.hots.pop().unwrap();
            let s2 = self.slots.pop().unwrap();
            proof {
                assert(n2 == on[m - 1] && h2 == oh[m - 1] && s2 == os[m - 1]);
                assert(self.nets@ =~= on.take(m - 1));
                assert(self.hots@ =~= oh.take(m - 1));
                assert(self.slots@ =~= os.take(m - 1));
            }
            if n2 != n {
                let ghost out0 = out;
                let ghost hv = h2@;
                out.insert(n2, h2, s2);
                proof {
                    assert forall|x: u16, y: Seq<u8>|
                        out.spec_contains(x, y) == (x != n && exists|l: int|
                            m - 1 <= l < total && on[l] == x && oh[l]@ == y) by {
                        if x == n2 && y == hv {
                            assert(out.spec_contains(x, y));
                            assert(on[m - 1] == x && oh[m - 1]@ == y);
                        } else {
                            if out0.spec_contains(x, y) {
                                let l = choose|l: int|
                                    m <= l < total && on[l] == x && oh[l]@ == y;
                                assert(m - 1 <= l < total && on[l] == x && oh[l]@ == y);
                            }
                            if x != n && exists|l: int|
                                m - 1 <= l < total && on[l] == x && oh[l]@ == y {
                                let l = choose|l: int|
                                    m - 1 <= l < total && on[l] == x && oh[l]@ == y;
                                if l == m - 1 {
                                    assert(x == n2 && y == hv);
                                } else {
                                    assert(out0.spec_contains(x, y));
                                }
                            }
                        }
                    }
                    assert forall|x: u16, y: Seq<u8>, l: int|
                        x != n && m - 1 <= l < total && on[l] == x && oh[l]@ == y implies out
                        .spec_slot(x, y) == os[l] by {
                        if l == m - 1 {
                            if !(x == n2 && y == hv) {
                                assert(false);
                            }
                        } else {
                            assert(!(on[l] == n2 && oh[l]@ == hv));
                            assert(out0.spec_slot(x, y) == os[l]);
                        }
                    }
                }
            } else {
                proof {
                    assert forall|x: u16, y: Seq<u8>|
                        out.spec_contains(x, y) == (x != n && exists|l: int|
                            m - 1 <= l < total && on[l] == x && oh[l]@ == y) by {
                        if x != n && exists|l: int| m - 1 <= l < total && on[l] == x && oh[l]@
                            == y {
                            let l = choose|l: int| m - 1 <= l < total && on[l] == x && oh[l]@ == y;
                            assert(l != m - 1);
                            assert(m <= l < total && on[l] == x && oh[l]@ == y);
                        }
                    }
                }
            }
        }
        *self = out;
        proof {
            assert forall|x: u16, y: Seq<u8>|
                self.spec_contains(x, y) == (old(self).spec_contains(x, y) && x != n) by {
                if old(self).spec_contains(x, y) && x != n {
                    let l = old(self).index_of(x, y);
                    assert(0 <= l < total && on[l] == x && oh[l]@ == y);
                }
                if self.spec_contains(x, y) {
                    let l = choose|l: int| 0 <= l < total && on[l] == x && oh[l]@ == y;
                    assert(old(self).spec_contains(x, y));
                }
            }
        }
    }

    /// The subnetworks `h` is registered on, in row order.
    pub fn registered_networks(&self, h: &AccountId) -> (r: Vec<u16>)
        requires
            self.wf(),
        ensures
            r@ == self.spec_regs(h@),
    {
        let len = self.nets.len();
        let mut out: Vec<u16> = Vec::new();
        let mut i: usize = 0;
        while i < len
            invariant
                i <= len,
                len == self.nets@.len(),
                self.wf(),
                out@ == Self::regs_rec(self.nets@.take(i as int), self.hots@.take(i as int), h@),
            decreases len - i,
        {
            proof {
                assert(self.nets@.take(i + 1).drop_last() =~= self.nets@.take(i as int));
                assert(self.hots@.take(i + 1).drop_last() =~= self.hots@.take(i as int));
                assert(self.nets@.take(i + 1).last() == self.nets@[i as int]);
                assert(self.hots@.take(i + 1).last() == self.hots@[i as int]);
            }
            if account_eq(&self.hots[i], h) {
                out.push(self.nets[i]);
            }
            i += 1;
        }
        proof {
            assert(self.nets@.take(len as int) =~= self.nets@);
            assert(self.hots@.take(len as int) =~= self.hots@);
        }
        out
    }
}

} // verus!
verus! {

/// `post` is `pre` with every row of subnetwork `n` swept away.
pub open spec fn member_cleared(pre: MemberTable, post: MemberTable, n: u16) -> bool {
    &&& !post.has_netuid(n)
    &&& forall|n2: u16, h2: Seq<u8>|
        post.spec_contains(n2, h2) == (pre.spec_contains(n2, h2) && n2 != n)
    &&& forall|n2: u16, h2: Seq<u8>|
        n2 != n && pre.spec_contains(n2, h2) ==> post.spec_slot(n2, h2) == pre.spec_slot(n2, h2)
}

} // verus!
