//! Delegate snapshots: one consistent view of a delegate assembled on
//! demand from the stake ledger, subnetwork membership, validator permits,
//! per-slot emission and tempo, with projected daily returns.
use vstd::prelude::*;
use crate::account::{AccountId, account_eq};
use crate::state::Pallet;
use crate::staketable::StakeTable;
use crate::fixed::{
    Fixed, fixed_mul, fixed_div, fixed_mul_spec, fixed_div_spec, fixed_add_spec,
    lemma_fixed_div_nonzero, sat_u64, FIXED_ONE, RETURN_FACTOR_BITS,
};
use crate::DAYS;

verus! {

/// A delegate's assembled view: identity, take, nominators with nonzero
/// stake, owner, registrations, validator permits, and projected returns.
pub struct DelegateInfo {
    pub delegate_ss58: AccountId,
    pub take: u16,
    pub nominators: Vec<(AccountId, u64)>,
    pub owner_ss58: AccountId,
    pub registrations: Vec<u16>,
    pub validator_permits: Vec<u16>,
    pub return_per_1000: u64,
    pub total_daily_return: u64,
}

/// The (nominator, stake) pairs staked toward delegate `d` among the first
/// `m` ledger rows, in row order, zero-stake rows dropped.
pub open spec fn nominators_upto(s: StakeTable, d: Seq<u8>, m: int) -> Seq<(Seq<u8>, u64)>
    decreases m,
{
    if m <= 0 {
        Seq::empty()
    } else {
        let prefix = nominators_upto(s, d, m - 1);
        if s.spec_hot_at(m - 1) == d && s.spec_amt_at(m - 1) != 0 {
            prefix.push((s.spec_cold_at(m - 1), s.spec_amt_at(m - 1)))
        } else {
            prefix
        }
    }
}

/// The full nominator list of delegate `d`.
pub open spec fn spec_nominators(s: StakeTable, d: Seq<u8>) -> Seq<(Seq<u8>, u64)> {
    nominators_upto(s, d, s.spec_len())
}

/// Zero-stake rows never appear in a nominator list.
pub proof fn lemma_nominators_nonzero(s: StakeTable, d: Seq<u8>, m: int, i: int)
    requires
        0 <= i < nominators_upto(s, d, m).len(),
    ensures
        nominators_upto(s, d, m)[i].1 != 0,
    decreases m,
{
    if m > 0 {
        let prefix = nominators_upto(s, d, m - 1);
        if i < prefix.len() {
            lemma_nominators_nonzero(s, d, m - 1, i);
        }
    }
}

/// One subnetwork's contribution to the projected daily emission, in 64.64
/// fixed-point bits: the slot's emission times the epochs per day, zero for
/// a zero tempo or a subnetwork the delegate holds no slot on.
pub open spec fn spec_daily_contrib(p: Pallet, d: Seq<u8>, n: u16) -> u128 {
    if p.uids.spec_contains(n, d) {
        let uid = p.uids.spec_slot(n, d);
        let t = p.spec_tempo(n);
        if t > 0 {
            fixed_mul_spec(
                ((p.spec_emission_for_uid(n, uid) as int) * (FIXED_ONE as int)) as u128,
                fixed_div_spec(
                    ((DAYS as int) * (FIXED_ONE as int)) as u128,
                    ((t as int) * (FIXED_ONE as int)) as u128,
                ),
            )
        } else {
            0
        }
    } else {
        0
    }
}

/// The projected daily emission over a list of registrations, accumulated
/// with saturating fixed-point addition in list order.
pub open spec fn spec_daily_bits(p: Pallet, d: Seq<u8>, regs: Seq<u16>) -> u128
    decreases regs.len(),
{
    if regs.len() == 0 {
        0
    } else {
        fixed_add_spec(
            spec_daily_bits(p, d, regs.drop_last()),
            spec_daily_contrib(p, d, regs.last()),
        )
    }
}

/// The registrations among `regs` whose slot carries a validator permit.
pub open spec fn spec_permits(p: Pallet, d: Seq<u8>, regs: Seq<u16>) -> Seq<u16>
    decreases regs.len(),
{
    if regs.len() == 0 {
        Seq::empty()
    } else {
        let prefix = spec_permits(p, d, regs.drop_last());
        let n = regs.last();
        if p.uids.spec_contains(n, d) && p.spec_permit_for_uid(n, p.uids.spec_slot(n, d)) {
            prefix.push(n)
        } else {
            prefix
        }
    }
}

/// The nominator return per thousand staked, in 64.64 fixed-point bits:
/// the daily emission scaled by the return factor, divided by the stake in
/// thousands; zero when nothing is staked.
pub open spec fn spec_return_per_1000_bits(daily: u128, total_stake: u64) -> u128 {
    if total_stake > 0 {
        fixed_div_spec(
            fixed_mul_spec(daily, RETURN_FACTOR_BITS),
            fixed_div_spec(
                ((total_stake as int) * (FIXED_ONE as int)) as u128,
                (1000 * (FIXED_ONE as int)) as u128,
            ),
        )
    } else {
        0
    }
}

/// `info` is the snapshot of delegate `d` against state `p`.
pub open spec fn snapshot_ok(p: Pallet, d: Seq<u8>, info: DelegateInfo) -> bool {
    let regs = p.uids.spec_regs(d);
    let daily = spec_daily_bits(p, d, regs);
    &&& info.delegate_ss58@ == d
    &&& info.take == p.spec_take(d)
    &&& info.owner_ss58@ == p.spec_owner_of_hotkey(d)
    &&& info.nominators@.map_values(|pr: (AccountId, u64)| (pr.0@, pr.1)) == spec_nominators(
        p.stake,
        d,
    )
    &&& forall|i: int| 0 <= i < info.nominators@.len() ==> info.nominators@[i].1 != 0
    &&& info.registrations@ == regs
    &&& info.validator_permits@ == spec_permits(p, d, regs)
    &&& info.total_daily_return == daily / FIXED_ONE
    &&& info.return_per_1000 == spec_return_per_1000_bits(daily, p.spec_total_stake(d))
        / FIXED_ONE
}

/// The (delegate, stake) pairs with nonzero stake from coldkey `c`, over
/// the first `m` known delegates in registration order.
pub open spec fn delegated_upto(p: Pallet, c: Seq<u8>, m: int) -> Seq<(Seq<u8>, u64)>
    decreases m,
{
    if m <= 0 {
        Seq::empty()
    } else {
        let prefix = delegated_upto(p, c, m - 1);
        let d = p.delegates.spec_key_at(m - 1);
        if p.stake.spec_stake(d, c) != 0 {
            prefix.push((d, p.stake.spec_stake(d, c)))
        } else {
            prefix
        }
    }
}

/// The full (delegate, stake) list for coldkey `c`.
pub open spec fn spec_delegated(p: Pallet, c: Seq<u8>) -> Seq<(Seq<u8>, u64)> {
    delegated_upto(p, c, p.delegates.spec_len())
}

/// The stake held toward a delegate by nominators other than `o`.
pub open spec fn spec_sum_excluding(noms: Seq<(Seq<u8>, u64)>, o: Seq<u8>) -> int
    decreases noms.len(),
{
    if noms.len() == 0 {
        0
    } else {
        spec_sum_excluding(noms.drop_last(), o) + if noms.last().0 != o {
            noms.last().1 as int
        } else {
            0
        }
    }
}

proof fn lemma_sum_excluding_nonneg(noms: Seq<(Seq<u8>, u64)>, o: Seq<u8>)
    ensures
        spec_sum_excluding(noms, o) >= 0,
    decreases noms.len(),
{
    if noms.len() > 0 {
        lemma_sum_excluding_nonneg(noms.drop_last(), o);
    }
}

impl Pallet {
    /// Assembles the snapshot of a delegate from the stake ledger,
    /// membership, permits, emission and tempo, as of this state.
    fn get_delegate_by_existing_account(&self, delegate: &AccountId) -> (r: DelegateInfo)
        requires
            self.wf(),
        ensures
            snapshot_ok(*self, delegate@, r),
    {
        let ghost d = delegate@;
        let mut nominators: Vec<(AccountId, u64)> = Vec::new();
        let rows = self.stake.len();
        let mut i: usize = 0;
        while i < rows
            invariant
                i <= rows,
                rows == self.stake.spec_len(),
                self.wf(),
                nominators@.map_values(|pr: (AccountId, u64)| (pr.0@, pr.1)) == nominators_upto(
                    self.stake,
                    d,
                    i as int,
                ),
                d == delegate@,
            decreases rows - i,
        {
            if account_eq(self.stake.hot_at(i), delegate) {
                let amt = self.stake.amt_at(i);
                if amt != 0 {
                    let cold = self.stake.cold_at(i).clone();
                    nominators.push((cold, amt));
                }
            }
            proof {
                assert(nominators@.map_values(|pr: (AccountId, u64)| (pr.0@, pr.1))
                    =~= nominators_upto(self.stake, d, i as int + 1));
            }
            i += 1;
        }
        let registrations = self.uids.registered_networks(delegate);
        let ghost regs = self.uids.spec_regs(d);
        let mut validator_permits: Vec<u16> = Vec::new();
        let mut emissions_per_day = Fixed { bits: 0 };
        let rlen = registrations.len();
        let mut k: usize = 0;
        while k < rlen
            invariant
                k <= rlen,
                self.wf(),
                regs == self.uids.spec_regs(d),
                registrations@ == regs,
                rlen == regs.len(),
                d == delegate@,
                validator_permits@ == spec_permits(*self, d, regs.take(k as int)),
                emissions_per_day.bits == spec_daily_bits(*self, d, regs.take(k as int)),
            decreases rlen - k,
        {
            proof {
                assert(regs.take(k as int + 1).drop_last() =~= regs.take(k as int));
                assert(regs.take(k as int + 1).last() == regs[k as int]);
            }
            let netuid = registrations[k];
            match self.uids.get_slot(netuid, delegate) {
                Some(uid) => {
                    let validator_permit = self.get_validator_permit_for_uid(netuid, uid);
                    if validator_permit {
                        validator_permits.push(netuid);
                    }
                    let tempo = self.get_tempo(netuid);
                    if tempo > 0 {
                        let emission_fixed = Fixed::from_u64(
                            self.get_emission_for_uid(netuid, uid),
                        );
                        let tempo_fixed = Fixed::from_u64(tempo as u64);
                        let days_fixed = Fixed::from_u64(DAYS);
                        proof {
                            assert((tempo as int) * (FIXED_ONE as int) >= FIXED_ONE as int)
                                by (nonlinear_arith)
                                requires
                                    tempo >= 1,
                            ;
                        }
                        let epochs_per_day = fixed_div(&days_fixed, &tempo_fixed);
                        let step = fixed_mul(&emission_fixed, &epochs_per_day);
                        emissions_per_day = emissions_per_day.saturating_add(&step);
                    }
                },
                None => {},
            }
            k += 1;
        }
        proof {
            assert(regs.take(rlen as int) =~= regs);
        }
        let owner = self.get_owning_coldkey_for_hotkey(delegate);
        let take: u16 = match self.delegates.get(delegate) {
            Some(t) => *t,
            None => 0,
        };
        let total_stake = self.get_total_stake_for_hotkey(delegate);
        let return_per_1000: Fixed = if total_stake > 0 {
            let stake_fixed = Fixed::from_u64(total_stake);
            let thousand = Fixed::from_u64(1000);
            proof {
                assert(thousand.bits == 1000 * FIXED_ONE);
            }
            let per_thousand_units = fixed_div(&stake_fixed, &thousand);
            proof {
                assert((stake_fixed.bits as int) == (total_stake as int) * (FIXED_ONE as int));
                assert((stake_fixed.bits as int) * (FIXED_ONE as int) >= (1000 * FIXED_ONE) as int)
                    by (nonlinear_arith)
                    requires
                        stake_fixed.bits as int >= FIXED_ONE as int,
                ;
                assert(stake_fixed.bits as int >= FIXED_ONE as int) by (nonlinear_arith)
                    requires
                        (stake_fixed.bits as int) == (total_stake as int) * (FIXED_ONE as int),
                        total_stake >= 1,
                ;
                lemma_fixed_div_nonzero(stake_fixed.bits, thousand.bits);
            }
            let scaled = fixed_mul(&emissions_per_day, &Fixed { bits: RETURN_FACTOR_BITS });
            fixed_div(&scaled, &per_thousand_units)
        } else {
            Fixed { bits: 0 }
        };
        let r = DelegateInfo {
            delegate_ss58: delegate.clone(),
            take,
            nominators,
            owner_ss58: owner,
            registrations,
            validator_permits,
            return_per_1000: return_per_1000.trunc(),
            total_daily_return: emissions_per_day.trunc(),
        };
        proof {
            assert forall|j: int| 0 <= j < r.nominators@.len() implies r.nominators@[j].1 != 0 by {
                let mapped = r.nominators@.map_values(|pr: (AccountId, u64)| (pr.0@, pr.1));
                assert(mapped[j] == (r.nominators@[j].0@, r.nominators@[j].1));
                lemma_nominators_nonzero(self.stake, d, self.stake.spec_len(), j);
            }
        }
        r
    }

    /// Resolves one delegate snapshot from a raw account byte string;
    /// absent for a malformed identifier or an unknown delegate.
    pub fn get_delegate(&self, delegate_account_vec: Vec<u8>) -> (r: Option<DelegateInfo>)
        requires
            self.wf(),
        ensures
            match r {
                Some(info) => delegate_account_vec@.len() == 32 && self.delegates.spec_contains(
                    delegate_account_vec@,
                ) && snapshot_ok(*self, delegate_account_vec@, info),
                None => delegate_account_vec@.len() != 32 || !self.delegates.spec_contains(
                    delegate_account_vec@,
                ),
            },
    {
        if delegate_account_vec.len() != 32 {
            return None;
        }
        let delegate = AccountId::from_bytes(delegate_account_vec);
        if !self.delegates.contains_key(&delegate) {
            return None;
        }
        Some(self.get_delegate_by_existing_account(&delegate))
    }

    /// One snapshot per known delegate, in registration order.
    pub fn get_delegates(&self) -> (r: Vec<DelegateInfo>)
        requires
            self.wf(),
        ensures
            r@.len() == self.delegates.spec_len(),
            forall|i: int|
                0 <= i < r@.len() ==> snapshot_ok(*self, self.delegates.spec_key_at(i), r@[i]),
    {
        let mut out: Vec<DelegateInfo> = Vec::new();
        let n = self.delegates.len();
        let mut i: usize = 0;
        while i < n
            invariant
                i <= n,
                n == self.delegates.spec_len(),
                self.wf(),
                out@.len() == i,
                forall|j: int|
                    0 <= j < i ==> snapshot_ok(*self, self.delegates.spec_key_at(j), out@[j]),
            decreases n - i,
        {
            let delegate = self.delegates.key_at(i);
            let info = self.get_delegate_by_existing_account(delegate);
            out.push(info);
            i += 1;
        }
        out
    }

    /// Every delegate the given coldkey holds nonzero stake with, each
    /// paired with that stake; empty for a malformed account byte string.
    pub fn get_delegated(&self, delegatee_account_vec: Vec<u8>) -> (r: Vec<(DelegateInfo, u64)>)
        requires
            self.wf(),
        ensures
            delegatee_account_vec@.len() != 32 ==> r@.len() == 0,
            delegatee_account_vec@.len() == 32 ==> {
                &&& r@.len() == spec_delegated(*self, delegatee_account_vec@).len()
                &&& forall|i: int|
                    0 <= i < r@.len() ==> snapshot_ok(
                        *self,
                        spec_delegated(*self, delegatee_account_vec@)[i].0,
                        r@[i].0,
                    ) && r@[i].1 == spec_delegated(*self, delegatee_account_vec@)[i].1
            },
    {
        if delegatee_account_vec.len() != 32 {
            return Vec::new();
        }
        let delegatee = AccountId::from_bytes(delegatee_account_vec);
        let ghost c = delegatee@;
        let mut out: Vec<(DelegateInfo, u64)> = Vec::new();
        let n = self.delegates.len();
        let mut i: usize = 0;
        while i < n
            invariant
                i <= n,
                n == self.delegates.spec_len(),
                self.wf(),
                c == delegatee@,
                out@.len() == delegated_upto(*self, c, i as int).len(),
                forall|j: int|
                    0 <= j < out@.len() ==> snapshot_ok(
                        *self,
                        delegated_upto(*self, c, i as int)[j].0,
                        out@[j].0,
                    ) && out@[j].1 == delegated_upto(*self, c, i as int)[j].1,
            decreases n - i,
        {
            let delegate = self.delegates.key_at(i);
            let staked_to_this_delegatee = self.get_stake_for_coldkey_and_hotkey(
                &delegatee,
                delegate,
            );
            if staked_to_this_delegatee != 0 {
                let info = self.get_delegate_by_existing_account(delegate);
                out.push((info, staked_to_this_delegatee));
            }
            proof {
                assert(forall|j: int|
                    0 <= j < delegated_upto(*self, c, i as int).len() ==> delegated_upto(
                        *self,
                        c,
                        i as int + 1,
                    )[j] == delegated_upto(*self, c, i as int)[j]);
            }
            i += 1;
        }
        out
    }

    /// The total stake delegated to `delegate` from everyone but its owner,
    /// clamped at the largest representable amount; zero for an account not
    /// registered as a delegate.
    pub fn get_total_delegated_stake(&self, delegate: &AccountId) -> (r: u64)
        requires
            self.wf(),
        ensures
            !self.delegates.spec_contains(delegate@) ==> r == 0,
            self.delegates.spec_contains(delegate@) ==> r == sat_u64(
                spec_sum_excluding(
                    spec_nominators(self.stake, delegate@),
                    self.spec_owner_of_hotkey(delegate@),
                ),
            ),
    {
        if !self.delegates.contains_key(delegate) {
            return 0;
        }
        let ghost d = delegate@;
        let info = self.get_delegate_by_existing_account(delegate);
        let owner = self.get_owning_coldkey_for_hotkey(delegate);
        let ghost noms = spec_nominators(self.stake, d);
        let mut acc: u64 = 0;
        let n = info.nominators.len();
        let mut i: usize = 0;
        while i < n
            invariant
                i <= n,
                n == info.nominators@.len(),
                n == noms.len(),
                noms == spec_nominators(self.stake, d),
                owner@ == self.spec_owner_of_hotkey(d),
                info.nominators@.map_values(|pr: (AccountId, u64)| (pr.0@, pr.1)) == noms,
                acc == sat_u64(spec_sum_excluding(noms.take(i as int), owner@)),
            decreases n - i,
        {
            proof {
                assert(noms.take(i as int + 1).drop_last() =~= noms.take(i as int));
                assert(noms.take(i as int + 1).last() == noms[i as int]);
                let mapped = info.nominators@.map_values(|pr: (AccountId, u64)| (pr.0@, pr.1));
                assert(mapped[i as int] == (info.nominators@[i as int].0@, info.nominators@[
                    i as int].1));
                lemma_sum_excluding_nonneg(noms.take(i as int), owner@);
            }
            let pr = &info.nominators[i];
            if !account_eq(&pr.0, &owner) {
                let amt = pr.1;
                acc = if acc <= u64::MAX - amt {
                    acc + amt
                } else {
                    u64::MAX
                };
            }
            i += 1;
        }
        proof {
            assert(noms.take(n as int) =~= noms);
        }
        acc
    }
}

} // verus!
