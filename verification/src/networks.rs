//! Subnetwork lifecycle: creation with explicit parameter defaults, removal
//! with refund and full per-subnetwork erasure, ownership transfer, pairwise
//! connection requirements, batched emission updates, registration pricing,
//! and the choice of which subnetwork to prune.
use vstd::prelude::*;
use crate::account::{AccountId, account_eq};
use crate::state::{Error, Origin, Pallet, ensure_root, ensure_signed};
use crate::netmap::{netmap_removed, netmap_set};
use crate::pairtable::{pairtable_cleared, pairtable_removed, pairtable_set};
use crate::membertable::member_cleared;
use crate::math::{checked_sum, sum_seq};
use crate::fixed::sat_u64;
use crate::DAYS;

verus! {

/// The parameter stores only reachable through extended initialization.
pub open spec fn same_hyperparams_ex(pre: Pallet, post: Pallet) -> bool {
    &&& post.serving_rate_limit == pre.serving_rate_limit
    &&& post.weights_set_rate_limit == pre.weights_set_rate_limit
    &&& post.weights_version_key == pre.weights_version_key
    &&& post.min_burn == pre.min_burn
    &&& post.max_burn == pre.max_burn
    &&& post.bonds_moving_average == pre.bonds_moving_average
    &&& post.max_allowed_validators == pre.max_allowed_validators
    &&& post.adjustment_interval == pre.adjustment_interval
    &&& post.adjustment_alpha == pre.adjustment_alpha
    &&& post.target_registrations_per_interval == pre.target_registrations_per_interval
    &&& post.max_registrations_per_block == pre.max_registrations_per_block
    &&& post.validator_prune_len == pre.validator_prune_len
    &&& post.scaling_law_power == pre.scaling_law_power
    &&& post.rho == pre.rho
    &&& post.network_registration_allowed == pre.network_registration_allowed
}

/// The per-subnetwork consensus vectors.
pub open spec fn same_vec_tables(pre: Pallet, post: Pallet) -> bool {
    &&& post.rank == pre.rank
    &&& post.trust == pre.trust
    &&& post.active == pre.active
    &&& post.emission == pre.emission
    &&& post.incentive == pre.incentive
    &&& post.consensus == pre.consensus
    &&& post.dividends == pre.dividends
    &&& post.pruning_scores == pre.pruning_scores
    &&& post.last_update == pre.last_update
    &&& post.validator_permit == pre.validator_permit
    &&& post.validator_trust == pre.validator_trust
}

/// The membership and per-(subnetwork, slot) row tables.
pub open spec fn same_row_tables(pre: Pallet, post: Pallet) -> bool {
    &&& post.uids == pre.uids
    &&& post.keys == pre.keys
    &&& post.weights == pre.weights
    &&& post.bonds == pre.bonds
}

/// The account-keyed ledgers other than balances.
pub open spec fn same_account_state_except_balances(pre: Pallet, post: Pallet) -> bool {
    &&& post.delegates == pre.delegates
    &&& post.owner == pre.owner
    &&& post.total_hotkey_stake == pre.total_hotkey_stake
    &&& post.stake == pre.stake
}

/// The account-keyed ledgers, balances included.
pub open spec fn same_account_state(pre: Pallet, post: Pallet) -> bool {
    &&& same_account_state_except_balances(pre, post)
    &&& post.balances == pre.balances
}

/// The process-wide values other than the network counter.
pub open spec fn same_globals_except_total(pre: Pallet, post: Pallet) -> bool {
    &&& post.network_immunity_period == pre.network_immunity_period
    &&& post.network_min_burn_cost == pre.network_min_burn_cost
    &&& post.network_last_burn_cost == pre.network_last_burn_cost
    &&& post.network_last_registered == pre.network_last_registered
    &&& post.block_emission == pre.block_emission
    &&& post.current_block == pre.current_block
    &&& post.defaults == pre.defaults
}

/// Registration metadata: registration block, owner and locked deposit.
pub open spec fn same_net_meta(pre: Pallet, post: Pallet) -> bool {
    &&& post.network_registered_at == pre.network_registered_at
    &&& post.subnet_owner == pre.subnet_owner
    &&& post.subnet_locked == pre.subnet_locked
}

/// Every per-subnetwork default parameter holds its stored value, or the
/// configured default where nothing was stored before.
pub open spec fn defaults_materialized(pre: Pallet, post: Pallet, netuid: u16) -> bool {
    &&& netmap_set(
        pre.kappa,
        post.kappa,
        netuid,
        if pre.kappa.spec_contains(netuid) {
            pre.kappa.spec_get(netuid)
        } else {
            pre.defaults.kappa
        },
    )
    &&& netmap_set(
        pre.difficulty,
        post.difficulty,
        netuid,
        if pre.difficulty.spec_contains(netuid) {
            pre.difficulty.spec_get(netuid)
        } else {
            pre.defaults.difficulty
        },
    )
    &&& netmap_set(
        pre.max_allowed_uids,
        post.max_allowed_uids,
        netuid,
        if pre.max_allowed_uids.spec_contains(netuid) {
            pre.max_allowed_uids.spec_get(netuid)
        } else {
            pre.defaults.max_allowed_uids
        },
    )
    &&& netmap_set(
        pre.immunity_period,
        post.immunity_period,
        netuid,
        if pre.immunity_period.spec_contains(netuid) {
            pre.immunity_period.spec_get(netuid)
        } else {
            pre.defaults.immunity_period
        },
    )
    &&& netmap_set(
        pre.activity_cutoff,
        post.activity_cutoff,
        netuid,
        if pre.activity_cutoff.spec_contains(netuid) {
            pre.activity_cutoff.spec_get(netuid)
        } else {
            pre.defaults.activity_cutoff
        },
    )
    &&& netmap_set(
        pre.emission_values,
        post.emission_values,
        netuid,
        if pre.emission_values.spec_contains(netuid) {
            pre.emission_values.spec_get(netuid)
        } else {
            pre.defaults.emission_value
        },
    )
    &&& netmap_set(
        pre.max_weights_limit,
        post.max_weights_limit,
        netuid,
        if pre.max_weights_limit.spec_contains(netuid) {
            pre.max_weights_limit.spec_get(netuid)
        } else {
            pre.defaults.max_weights_limit
        },
    )
    &&& netmap_set(
        pre.min_allowed_weights,
        post.min_allowed_weights,
        netuid,
        if pre.min_allowed_weights.spec_contains(netuid) {
            pre.min_allowed_weights.spec_get(netuid)
        } else {
            pre.defaults.min_allowed_weights
        },
    )
    &&& netmap_set(
        pre.registrations_this_interval,
        post.registrations_this_interval,
        netuid,
        if pre.registrations_this_interval.spec_contains(netuid) {
            pre.registrations_this_interval.spec_get(netuid)
        } else {
            pre.defaults.registrations_this_interval
        },
    )
    &&& netmap_set(
        pre.pow_registrations_this_interval,
        post.pow_registrations_this_interval,
        netuid,
        if pre.pow_registrations_this_interval.spec_contains(netuid) {
            pre.pow_registrations_this_interval.spec_get(netuid)
        } else {
            pre.defaults.pow_registrations_this_interval
        },
    )
    &&& netmap_set(
        pre.burn_registrations_this_interval,
        post.burn_registrations_this_interval,
        netuid,
        if pre.burn_registrations_this_interval.spec_contains(netuid) {
            pre.burn_registrations_this_interval.spec_get(netuid)
        } else {
            pre.defaults.burn_registrations_this_interval
        },
    )
}

/// What creating a subnetwork does: mark it live with an empty neuron table,
/// store tempo and modality, raise the counter by one, and write every
/// default parameter explicitly. Nothing else changes.
pub open spec fn network_initialized(
    pre: Pallet,
    post: Pallet,
    netuid: u16,
    tempo: u16,
    modality: u16,
) -> bool {
    &&& post.wf()
    &&& netmap_set(pre.subnetwork_n, post.subnetwork_n, netuid, 0u16)
    &&& netmap_set(pre.networks_added, post.networks_added, netuid, true)
    &&& netmap_set(pre.tempo, post.tempo, netuid, tempo)
    &&& netmap_set(pre.network_modality, post.network_modality, netuid, modality)
    &&& post.total_networks == pre.total_networks + 1
    &&& defaults_materialized(pre, post, netuid)
    &&& same_hyperparams_ex(pre, post)
    &&& same_vec_tables(pre, post)
    &&& same_row_tables(pre, post)
    &&& post.network_connect == pre.network_connect
    &&& same_account_state(pre, post)
    &&& same_globals_except_total(pre, post)
    &&& same_net_meta(pre, post)
}

/// What removing a subnetwork does: refund the locked deposit to the owner,
/// delete existence, modality and counters, erase every derived table and
/// default parameter under the identifier, and lower the counter by one.
pub open spec fn network_removed(pre: Pallet, post: Pallet, netuid: u16) -> bool {
    &&& post.wf()
    &&& netmap_removed(pre.subnetwork_n, post.subnetwork_n, netuid)
    &&& netmap_removed(pre.network_modality, post.network_modality, netuid)
    &&& netmap_removed(pre.networks_added, post.networks_added, netuid)
    &&& netmap_removed(pre.network_registered_at, post.network_registered_at, netuid)
    &&& netmap_removed(pre.subnet_owner, post.subnet_owner, netuid)
    &&& netmap_removed(pre.subnet_locked, post.subnet_locked, netuid)
    &&& netmap_removed(pre.tempo, post.tempo, netuid)
    &&& netmap_removed(pre.kappa, post.kappa, netuid)
    &&& netmap_removed(pre.difficulty, post.difficulty, netuid)
    &&& netmap_removed(pre.max_allowed_uids, post.max_allowed_uids, netuid)
    &&& netmap_removed(pre.immunity_period, post.immunity_period, netuid)
    &&& netmap_removed(pre.activity_cutoff, post.activity_cutoff, netuid)
    &&& netmap_removed(pre.emission_values, post.emission_values, netuid)
    &&& netmap_removed(pre.max_weights_limit, post.max_weights_limit, netuid)
    &&& netmap_removed(pre.min_allowed_weights, post.min_allowed_weights, netuid)
    &&& netmap_removed(
        pre.registrations_this_interval,
        post.registrations_this_interval,
        netuid,
    )
    &&& netmap_removed(
        pre.pow_registrations_this_interval,
        post.pow_registrations_this_interval,
        netuid,
    )
    &&& netmap_removed(
        pre.burn_registrations_this_interval,
        post.burn_registrations_this_interval,
        netuid,
    )
    &&& netmap_removed(pre.rank, post.rank, netuid)
    &&& netmap_removed(pre.trust, post.trust, netuid)
    &&& netmap_removed(pre.active, post.active, netuid)
    &&& netmap_removed(pre.emission, post.emission, netuid)
    &&& netmap_removed(pre.incentive, post.incentive, netuid)
    &&& netmap_removed(pre.consensus, post.consensus, netuid)
    &&& netmap_removed(pre.dividends, post.dividends, netuid)
    &&& netmap_removed(pre.pruning_scores, post.pruning_scores, netuid)
    &&& netmap_removed(pre.last_update, post.last_update, netuid)
    &&& netmap_removed(pre.validator_permit, post.validator_permit, netuid)
    &&& netmap_removed(pre.validator_trust, post.validator_trust, netuid)
    &&& member_cleared(pre.uids, post.uids, netuid)
    &&& pairtable_cleared(pre.keys, post.keys, netuid)
    &&& pairtable_cleared(pre.bonds, post.bonds, netuid)
    &&& pairtable_cleared(pre.weights, post.weights, netuid)
    &&& post.total_networks == (if pre.total_networks > 0 {
        (pre.total_networks - 1) as u16
    } else {
        0u16
    })
    &&& post.spec_balance(pre.spec_owner_of_subnet(netuid)) == sat_u64(
        pre.spec_balance(pre.spec_owner_of_subnet(netuid)) + pre.spec_locked(netuid),
    )
    &&& forall|h: Seq<u8>|
        h != pre.spec_owner_of_subnet(netuid) ==> post.spec_balance(h) == pre.spec_balance(h)
    &&& forall|h: Seq<u8>|
        h != pre.spec_owner_of_subnet(netuid) ==> post.balances.spec_contains(h)
            == pre.balances.spec_contains(h)
    &&& same_hyperparams_ex(pre, post)
    &&& post.network_connect == pre.network_connect
    &&& same_account_state_except_balances(pre, post)
    &&& same_globals_except_total(pre, post)
}

/// No stored entry remains under a subnetwork identifier in any store that
/// creation writes or removal sweeps.
pub open spec fn no_subnet_entries(s: Pallet, netuid: u16) -> bool {
    &&& !s.subnetwork_n.spec_contains(netuid)
    &&& !s.networks_added.spec_contains(netuid)
    &&& !s.network_modality.spec_contains(netuid)
    &&& !s.network_registered_at.spec_contains(netuid)
    &&& !s.subnet_owner.spec_contains(netuid)
    &&& !s.subnet_locked.spec_contains(netuid)
    &&& !s.tempo.spec_contains(netuid)
    &&& !s.kappa.spec_contains(netuid)
    &&& !s.difficulty.spec_contains(netuid)
    &&& !s.max_allowed_uids.spec_contains(netuid)
    &&& !s.immunity_period.spec_contains(netuid)
    &&& !s.activity_cutoff.spec_contains(netuid)
    &&& !s.emission_values.spec_contains(netuid)
    &&& !s.max_weights_limit.spec_contains(netuid)
    &&& !s.min_allowed_weights.spec_contains(netuid)
    &&& !s.registrations_this_interval.spec_contains(netuid)
    &&& !s.pow_registrations_this_interval.spec_contains(netuid)
    &&& !s.burn_registrations_this_interval.spec_contains(netuid)
    &&& !s.rank.spec_contains(netuid)
    &&& !s.trust.spec_contains(netuid)
    &&& !s.active.spec_contains(netuid)
    &&& !s.emission.spec_contains(netuid)
    &&& !s.incentive.spec_contains(netuid)
    &&& !s.consensus.spec_contains(netuid)
    &&& !s.dividends.spec_contains(netuid)
    &&& !s.pruning_scores.spec_contains(netuid)
    &&& !s.last_update.spec_contains(netuid)
    &&& !s.validator_permit.spec_contains(netuid)
    &&& !s.validator_trust.spec_contains(netuid)
    &&& !s.uids.has_netuid(netuid)
    &&& !s.keys.has_first(netuid)
    &&& !s.weights.has_first(netuid)
    &&& !s.bonds.has_first(netuid)
}

impl Pallet {
    /// Writes every default parameter explicitly, keeping any stored value.
    #[verifier::rlimit(100)]
    pub fn set_default_values_for_all_parameters(&mut self, netuid: u16)
        requires
            old(self).wf(),
        ensures
            final(self).wf(),
            netmap_set(
                old(self).tempo,
                final(self).tempo,
                netuid,
                if old(self).tempo.spec_contains(netuid) {
                    old(self).tempo.spec_get(netuid)
                } else {
                    old(self).defaults.tempo
                },
            ),
            defaults_materialized(*old(self), *final(self), netuid),
            final(self).subnetwork_n == old(self).subnetwork_n,
            final(self).networks_added == old(self).networks_added,
            final(self).network_modality == old(self).network_modality,
            same_net_meta(*old(self), *final(self)),
            same_hyperparams_ex(*old(self), *final(self)),
            same_vec_tables(*old(self), *final(self)),
            same_row_tables(*old(self), *final(self)),
            final(self).network_connect == old(self).network_connect,
            same_account_state(*old(self), *final(self)),
            final(self).total_networks == old(self).total_networks,
            same_globals_except_total(*old(self), *final(self)),
    {
        if !self.tempo.contains_key(netuid) {
            let d = self.defaults.tempo;
            self.tempo.insert(netuid, d);
        }
        if !self.kappa.contains_key(netuid) {
            let d = self.defaults.kappa;
            self.kappa.insert(netuid, d);
        }
        if !self.difficulty.contains_key(netuid) {
            let d = self.defaults.difficulty;
            self.difficulty.insert(netuid, d);
        }
        if !self.max_allowed_uids.contains_key(netuid) {
            let d = self.defaults.max_allowed_uids;
            self.max_allowed_uids.insert(netuid, d);
        }
        if !self.immunity_period.contains_key(netuid) {
            let d = self.defaults.immunity_period;
            self.immunity_period.insert(netuid, d);
        }
        if !self.activity_cutoff.contains_key(netuid) {
            let d = self.defaults.activity_cutoff;
            self.activity_cutoff.insert(netuid, d);
        }
        if !self.emission_values.contains_key(netuid) {
            let d = self.defaults.emission_value;
            self.emission_values.insert(netuid, d);
        }
        if !self.max_weights_limit.contains_key(netuid) {
            let d = self.defaults.max_weights_limit;
            self.max_weights_limit.insert(netuid, d);
        }
        if !self.min_allowed_weights.contains_key(netuid) {
            let d = self.defaults.min_allowed_weights;
            self.min_allowed_weights.insert(netuid, d);
        }
        if !self.registrations_this_interval.contains_key(netuid) {
            let d = self.defaults.registrations_this_interval;
            self.registrations_this_interval.insert(netuid, d);
        }
        if !self.pow_registrations_this_interval.contains_key(netuid) {
            let d = self.defaults.pow_registrations_this_interval;
            self.pow_registrations_this_interval.insert(netuid, d);
        }
        if !self.burn_registrations_this_interval.contains_key(netuid) {
            let d = self.defaults.burn_registrations_this_interval;
            self.burn_registrations_this_interval.insert(netuid, d);
        }
    }

    /// Creates a subnetwork: existence, empty neuron table, tempo, modality,
    /// counter, and explicit parameter defaults.
    #[verifier::rlimit(100)]
    pub fn init_new_network(&mut self, netuid: u16, tempo: u16, modality: u16)
        requires
            old(self).wf(),
            old(self).total_networks < u16::MAX,
        ensures
            network_initialized(*old(self), *final(self), netuid, tempo, modality),
    {
        self.subnetwork_n.insert(netuid, 0);
        self.networks_added.insert(netuid, true);
        self.tempo.insert(netuid, tempo);
        self.network_modality.insert(netuid, modality);
        self.total_networks = self.total_networks + 1;
        self.set_default_values_for_all_parameters(netuid);
    }

    /// Erases every derived table and default parameter of a subnetwork.
    #[verifier::rlimit(100)]
    pub fn erase_all_network_data(&mut self, netuid: u16)
        requires
            old(self).wf(),
        ensures
            final(self).wf(),
            member_cleared(old(self).uids, final(self).uids, netuid),
            pairtable_cleared(old(self).keys, final(self).keys, netuid),
            pairtable_cleared(old(self).bonds, final(self).bonds, netuid),
            pairtable_cleared(old(self).weights, final(self).weights, netuid),
            netmap_removed(old(self).rank, final(self).rank, netuid),
            netmap_removed(old(self).trust, final(self).trust, netuid),
            netmap_removed(old(self).active, final(self).active, netuid),
            netmap_removed(old(self).emission, final(self).emission, netuid),
            netmap_removed(old(self).incentive, final(self).incentive, netuid),
            netmap_removed(old(self).consensus, final(self).consensus, netuid),
            netmap_removed(old(self).dividends, final(self).dividends, netuid),
            netmap_removed(old(self).pruning_scores, final(self).pruning_scores, netuid),
            netmap_removed(old(self).last_update, final(self).last_update, netuid),
            netmap_removed(old(self).validator_permit, final(self).validator_permit, netuid),
            netmap_removed(old(self).validator_trust, final(self).validator_trust, netuid),
            netmap_removed(old(self).tempo, final(self).tempo, netuid),
            netmap_removed(old(self).kappa, final(self).kappa, netuid),
            netmap_removed(old(self).difficulty, final(self).difficulty, netuid),
            netmap_removed(old(self).max_allowed_uids, final(self).max_allowed_uids, netuid),
            netmap_removed(old(self).immunity_period, final(self).immunity_period, netuid),
            netmap_removed(old(self).activity_cutoff, final(self).activity_cutoff, netuid),
            netmap_removed(old(self).emission_values, final(self).emission_values, netuid),
            netmap_removed(old(self).max_weights_limit, final(self).max_weights_limit, netuid),
            netmap_removed(old(self).min_allowed_weights, final(self).min_allowed_weights, netuid),
            netmap_removed(
                old(self).registrations_this_interval,
                final(self).registrations_this_interval,
                netuid,
            ),
            netmap_removed(
                old(self).pow_registrations_this_interval,
                final(self).pow_registrations_this_interval,
                netuid,
            ),
            netmap_removed(
                old(self).burn_registrations_this_interval,
                final(self).burn_registrations_this_interval,
                netuid,
            ),
            final(self).subnetwork_n == old(self).subnetwork_n,
            final(self).networks_added == old(self).networks_added,
            final(self).network_modality == old(self).network_modality,
            same_net_meta(*old(self), *final(self)),
            same_hyperparams_ex(*old(self), *final(self)),
            final(self).network_connect == old(self).network_connect,
            same_account_state(*old(self), *final(self)),
            final(self).total_networks == old(self).total_networks,
            same_globals_except_total(*old(self), *final(self)),
    {
        self.uids.clear_netuid(netuid);
        self.keys.clear_first(netuid);
        self.bonds.clear_first(netuid);
        self.weights.clear_first(netuid);
        self.rank.remove(netuid);
        self.trust.remove(netuid);
        self.active.remove(netuid);
        self.emission.remove(netuid);
        self.incentive.remove(netuid);
        self.consensus.remove(netuid);
        self.dividends.remove(netuid);
        self.pruning_scores.remove(netuid);
        self.last_update.remove(netuid);
        self.validator_permit.remove(netuid);
        self.validator_trust.remove(netuid);
        self.tempo.remove(netuid);
        self.kappa.remove(netuid);
        self.difficulty.remove(netuid);
        self.max_allowed_uids.remove(netuid);
        self.immunity_period.remove(netuid);
        self.activity_cutoff.remove(netuid);
        self.emission_values.remove(netuid);
        self.max_weights_limit.remove(netuid);
        self.min_allowed_weights.remove(netuid);
        self.registrations_this_interval.remove(netuid);
        self.pow_registrations_this_interval.remove(netuid);
        self.burn_registrations_this_interval.remove(netuid);
    }

    /// Removes a subnetwork and all of its state, refunding the locked
    /// deposit to the stored owner.
    #[verifier::rlimit(100)]
    pub fn remove_network(&mut self, netuid: u16)
        requires
            old(self).wf(),
        ensures
            network_removed(*old(self), *final(self), netuid),
    {
        let owner_coldkey = self.get_subnet_owner(netuid);
        let reserved_amount = self.get_subnet_locked_balance(netuid);
        let reserved_amount_as_bal = Pallet::u64_to_balance(reserved_amount);
        if reserved_amount_as_bal.is_none() {
            return ;
        }
        self.subnetwork_n.remove(netuid);
        self.network_modality.remove(netuid);
        self.networks_added.remove(netuid);
        self.erase_all_network_data(netuid);
        self.total_networks = if self.total_networks > 0 {
            self.total_networks - 1
        } else {
            0
        };
        self.network_registered_at.remove(netuid);
        self.subnet_owner.remove(netuid);
        self.subnet_locked.remove(netuid);
        let refund = match reserved_amount_as_bal {
            Some(v) => v,
            None => 0,
        };
        self.add_balance_to_coldkey_account(&owner_coldkey, refund);
    }
}

} // verus!

verus! {

/// Some identifier occurs twice in the list.
pub open spec fn spec_has_dup(s: Seq<u16>) -> bool {
    exists|p: int, q: int| 0 <= p < q < s.len() && s[p] == s[q]
}

/// No later position in `s` before `end` repeats the identifier at `j`.
pub open spec fn no_dup_after(s: Seq<u16>, j: int, end: int) -> bool {
    forall|l: int| j < l < end ==> s[l] != s[j]
}

/// Every listed identifier names an existing subnetwork.
pub open spec fn spec_all_exist(st: Pallet, s: Seq<u16>) -> bool {
    forall|i: int| 0 <= i < s.len() ==> st.spec_subnet_exists(s[i])
}

/// The registration price given the pricing state: twice the last burn when
/// a registration has happened (face value for the first ever), lowered
/// linearly by an eight-day decay since that registration, never below the
/// configured floor.
pub open spec fn spec_burn_cost(last_burn: u64, min_burn: u64, last_block: u64, current: u64) -> u64 {
    let mult: int = if last_block == 0 {
        1
    } else {
        2
    };
    let base: int = sat_u64(last_burn * mult) as int;
    let rate: int = last_burn as int / (8 * DAYS as int);
    let elapsed: int = if current >= last_block {
        current - last_block
    } else {
        0
    };
    let decay: int = sat_u64(rate * elapsed) as int;
    let cost: int = if base >= decay {
        base - decay
    } else {
        0
    };
    if cost < min_burn {
        min_burn
    } else {
        cost as u64
    }
}

impl Pallet {
    /// A subnetwork is immune while fewer blocks have passed since its
    /// registration than the immunity period.
    pub open spec fn spec_immune(self, netuid: u16) -> bool {
        ({
            let reg = self.spec_registered_at(netuid);
            let elapsed: int = if self.current_block >= reg {
                self.current_block - reg
            } else {
                0
            };
            elapsed < self.network_immunity_period
        })
    }

    /// Removes a subnetwork on behalf of its owner.
    pub fn user_remove_network(&mut self, origin: &Origin, netuid: u16) -> (r: Result<(), Error>)
        requires
            old(self).wf(),
        ensures
            final(self).wf(),
            match r {
                Ok(u) => origin.spec_is_signed() && old(self).spec_subnet_exists(netuid) && old(
                    self,
                ).spec_owner_of_subnet(netuid) == origin.spec_signer() && network_removed(
                    *old(self),
                    *final(self),
                    netuid,
                ),
                Err(e) => *final(self) == *old(self) && {
                    ||| (e == Error::BadOrigin && !origin.spec_is_signed())
                    ||| (e == Error::NetworkDoesNotExist && origin.spec_is_signed() && !old(
                        self,
                    ).spec_subnet_exists(netuid))
                    ||| (e == Error::NotSubnetOwner && origin.spec_is_signed() && old(
                        self,
                    ).spec_subnet_exists(netuid) && old(self).spec_owner_of_subnet(netuid)
                        != origin.spec_signer())
                },
            },
    {
        let coldkey = match ensure_signed(origin) {
            Ok(a) => a,
            Err(e) => {
                return Err(e);
            },
        };
        if !self.if_subnet_exist(netuid) {
            return Err(Error::NetworkDoesNotExist);
        }
        let stored_owner = self.get_subnet_owner(netuid);
        if !account_eq(&stored_owner, &coldkey) {
            return Err(Error::NotSubnetOwner);
        }
        self.remove_network(netuid);
        Ok(())
    }

    /// Hands a subnetwork to a new owner; only metadata moves.
    pub fn network_transfer_ownership(
        &mut self,
        origin: &Origin,
        netuid: u16,
        dest: AccountId,
    ) -> (r: Result<(), Error>)
        requires
            old(self).wf(),
        ensures
            final(self).wf(),
            match r {
                Ok(u) => origin.spec_is_signed() && old(self).spec_subnet_exists(netuid) && old(
                    self,
                ).spec_owner_of_subnet(netuid) == origin.spec_signer() && netmap_set(
                    old(self).subnet_owner,
                    final(self).subnet_owner,
                    netuid,
                    dest,
                ) && *final(self) == (Pallet {
                    subnet_owner: final(self).subnet_owner,
                    ..*old(self)
                }),
                Err(e) => *final(self) == *old(self) && {
                    ||| (e == Error::BadOrigin && !origin.spec_is_signed())
                    ||| (e == Error::NetworkDoesNotExist && origin.spec_is_signed() && !old(
                        self,
                    ).spec_subnet_exists(netuid))
                    ||| (e == Error::NotSubnetOwner && origin.spec_is_signed() && old(
                        self,
                    ).spec_subnet_exists(netuid) && old(self).spec_owner_of_subnet(netuid)
                        != origin.spec_signer())
                },
            },
    {
        let coldkey = match ensure_signed(origin) {
            Ok(a) => a,
            Err(e) => {
                return Err(e);
            },
        };
        if !self.if_subnet_exist(netuid) {
            return Err(Error::NetworkDoesNotExist);
        }
        let stored_owner = self.get_subnet_owner(netuid);
        if !account_eq(&stored_owner, &coldkey) {
            return Err(Error::NotSubnetOwner);
        }
        self.subnet_owner.insert(netuid, dest);
        Ok(())
    }

    /// Creates a subnetwork for the root authority, validating identifier,
    /// modality and tempo first; nothing is written on failure.
    pub fn do_add_network(
        &mut self,
        origin: &Origin,
        netuid: u16,
        tempo: u16,
        modality: u16,
    ) -> (r: Result<(), Error>)
        requires
            old(self).wf(),
            old(self).total_networks < u16::MAX,
        ensures
            final(self).wf(),
            match r {
                Ok(u) => origin.spec_is_root() && !old(self).spec_subnet_exists(netuid) && (
                modality == 0 || modality == 1 || modality == 2) && tempo < u16::MAX
                    && network_initialized(*old(self), *final(self), netuid, tempo, modality),
                Err(e) => *final(self) == *old(self) && {
                    ||| (e == Error::BadOrigin && !origin.spec_is_root())
                    ||| (e == Error::NetworkExist && origin.spec_is_root() && old(
                        self,
                    ).spec_subnet_exists(netuid))
                    ||| (e == Error::InvalidModality && origin.spec_is_root() && !old(
                        self,
                    ).spec_subnet_exists(netuid) && !(modality == 0 || modality == 1 || modality
                        == 2))
                    ||| (e == Error::InvalidTempo && origin.spec_is_root() && !old(
                        self,
                    ).spec_subnet_exists(netuid) && (modality == 0 || modality == 1 || modality
                        == 2) && tempo == u16::MAX)
                },
            },
    {
        match ensure_root(origin) {
            Ok(u) => {},
            Err(e) => {
                return Err(e);
            },
        }
        if self.if_subnet_exist(netuid) {
            return Err(Error::NetworkExist);
        }
        if !Pallet::if_modality_is_valid(modality) {
            return Err(Error::InvalidModality);
        }
        if !Pallet::if_tempo_is_valid(tempo) {
            return Err(Error::InvalidTempo);
        }
        self.init_new_network(netuid, tempo, modality);
        Ok(())
    }

    /// Removes a subnetwork for the root authority.
    pub fn do_remove_network(&mut self, origin: &Origin, netuid: u16) -> (r: Result<(), Error>)
        requires
            old(self).wf(),
        ensures
            final(self).wf(),
            match r {
                Ok(u) => origin.spec_is_root() && old(self).spec_subnet_exists(netuid)
                    && network_removed(*old(self), *final(self), netuid),
                Err(e) => *final(self) == *old(self) && {
                    ||| (e == Error::BadOrigin && !origin.spec_is_root())
                    ||| (e == Error::NetworkDoesNotExist && origin.spec_is_root() && !old(
                        self,
                    ).spec_subnet_exists(netuid))
                },
            },
    {
        match ensure_root(origin) {
            Ok(u) => {},
            Err(e) => {
                return Err(e);
            },
        }
        if !self.if_subnet_exist(netuid) {
            return Err(Error::NetworkDoesNotExist);
        }
        self.remove_network(netuid);
        Ok(())
    }

    pub fn network_connection_requirement_exists(&self, netuid_a: u16, netuid_b: u16) -> (r: bool)
        requires
            self.wf(),
        ensures
            r == self.network_connect.spec_contains(netuid_a, netuid_b),
    {
        self.network_connect.contains_key(netuid_a, netuid_b)
    }

    /// The stored requirement, or the 16-bit maximum when none is stored.
    pub fn get_network_connection_requirement(&self, netuid_a: u16, netuid_b: u16) -> (r: u16)
        requires
            self.wf(),
        ensures
            r == if self.network_connect.spec_contains(netuid_a, netuid_b) {
                self.network_connect.spec_get(netuid_a, netuid_b)
            } else {
                u16::MAX
            },
    {
        match self.network_connect.get(netuid_a, netuid_b) {
            Some(v) => *v,
            None => u16::MAX,
        }
    }

    pub fn add_connection_requirement(&mut self, netuid_a: u16, netuid_b: u16, requirement: u16)
        requires
            old(self).wf(),
        ensures
            final(self).wf(),
            pairtable_set(
                old(self).network_connect,
                final(self).network_connect,
                netuid_a,
                netuid_b,
                requirement,
            ),
            *final(self) == (Pallet { network_connect: final(self).network_connect, ..*old(self) }),
    {
        self.network_connect.insert(netuid_a, netuid_b, requirement);
    }

    /// Idempotent: absent entries are left alone.
    pub fn remove_connection_requirment(&mut self, netuid_a: u16, netuid_b: u16)
        requires
            old(self).wf(),
        ensures
            final(self).wf(),
            pairtable_removed(
                old(self).network_connect,
                final(self).network_connect,
                netuid_a,
                netuid_b,
            ),
            *final(self) == (Pallet { network_connect: final(self).network_connect, ..*old(self) }),
    {
        if self.network_connection_requirement_exists(netuid_a, netuid_b) {
            self.network_connect.remove(netuid_a, netuid_b);
        }
    }

    /// Adds a pairwise connection requirement for the root authority.
    pub fn do_sudo_add_network_connection_requirement(
        &mut self,
        origin: &Origin,
        netuid_a: u16,
        netuid_b: u16,
        requirement: u16,
    ) -> (r: Result<(), Error>)
        requires
            old(self).wf(),
        ensures
            final(self).wf(),
            match r {
                Ok(u) => origin.spec_is_root() && netuid_a != netuid_b && old(
                    self,
                ).spec_subnet_exists(netuid_a) && old(self).spec_subnet_exists(netuid_b)
                    && pairtable_set(
                    old(self).network_connect,
                    final(self).network_connect,
                    netuid_a,
                    netuid_b,
                    requirement,
                ) && *final(self) == (Pallet {
                    network_connect: final(self).network_connect,
                    ..*old(self)
                }),
                Err(e) => *final(self) == *old(self) && {
                    ||| (e == Error::BadOrigin && !origin.spec_is_root())
                    ||| (e == Error::InvalidConnectionRequirement && origin.spec_is_root()
                        && netuid_a == netuid_b)
                    ||| (e == Error::NetworkDoesNotExist && origin.spec_is_root() && netuid_a
                        != netuid_b && !(old(self).spec_subnet_exists(netuid_a) && old(
                        self,
                    ).spec_subnet_exists(netuid_b)))
                },
            },
    {
        match ensure_root(origin) {
            Ok(u) => {},
            Err(e) => {
                return Err(e);
            },
        }
        if netuid_a == netuid_b {
            return Err(Error::InvalidConnectionRequirement);
        }
        if !self.if_subnet_exist(netuid_a) {
            return Err(Error::NetworkDoesNotExist);
        }
        if !self.if_subnet_exist(netuid_b) {
            return Err(Error::NetworkDoesNotExist);
        }
        self.add_connection_requirement(netuid_a, netuid_b, requirement);
        Ok(())
    }

    /// Removes a pairwise connection requirement for the root authority.
    pub fn do_sudo_remove_network_connection_requirement(
        &mut self,
        origin: &Origin,
        netuid_a: u16,
        netuid_b: u16,
    ) -> (r: Result<(), Error>)
        requires
            old(self).wf(),
        ensures
            final(self).wf(),
            match r {
                Ok(u) => origin.spec_is_root() && old(self).spec_subnet_exists(netuid_a) && old(
                    self,
                ).spec_subnet_exists(netuid_b) && pairtable_removed(
                    old(self).network_connect,
                    final(self).network_connect,
                    netuid_a,
                    netuid_b,
                ) && *final(self) == (Pallet {
                    network_connect: final(self).network_connect,
                    ..*old(self)
                }),
                Err(e) => *final(self) == *old(self) && {
                    ||| (e == Error::BadOrigin && !origin.spec_is_root())
                    ||| (e == Error::NetworkDoesNotExist && origin.spec_is_root() && !(old(
                        self,
                    ).spec_subnet_exists(netuid_a) && old(self).spec_subnet_exists(netuid_b)))
                },
            },
    {
        match ensure_root(origin) {
            Ok(u) => {},
            Err(e) => {
                return Err(e);
            },
        }
        if !self.if_subnet_exist(netuid_a) {
            return Err(Error::NetworkDoesNotExist);
        }
        if !self.if_subnet_exist(netuid_b) {
            return Err(Error::NetworkDoesNotExist);
        }
        self.remove_connection_requirment(netuid_a, netuid_b);
        Ok(())
    }
}

} // verus!

verus! {

impl Pallet {
    /// Whether the list names some identifier twice.
    fn has_duplicate_netuids(netuids: &Vec<u16>) -> (r: bool)
        ensures
            r == spec_has_dup(netuids@),
    {
        let n = netuids.len();
        let mut i: usize = 0;
        while i < n
            invariant
                i <= n,
                n == netuids@.len(),
                forall|p: int, q: int| 0 <= p < q < i ==> netuids@[p] != netuids@[q],
            decreases n - i,
        {
            let mut j: usize = 0;
            while j < i
                invariant
                    j <= i,
                    i < n,
                    n == netuids@.len(),
                    forall|q: int| 0 <= q < j ==> netuids@[q] != netuids@[i as int],
                decreases i - j,
            {
                if netuids[j] == netuids[i] {
                    return true;
                }
                j += 1;
            }
            i += 1;
        }
        false
    }

    /// Whether some listed identifier names no existing subnetwork.
    pub fn contains_invalid_netuids(&self, netuids: &Vec<u16>) -> (r: bool)
        requires
            self.wf(),
        ensures
            r == !spec_all_exist(*self, netuids@),
    {
        let n = netuids.len();
        let mut i: usize = 0;
        while i < n
            invariant
                i <= n,
                n == netuids@.len(),
                self.wf(),
                forall|j: int| 0 <= j < i ==> self.spec_subnet_exists(netuids@[j]),
            decreases n - i,
        {
            if !self.if_subnet_exist(netuids[i]) {
                return true;
            }
            i += 1;
        }
        false
    }

    /// Stores one subnetwork's emission value.
    pub fn set_emission_for_network(&mut self, netuid: u16, emission: u64)
        requires
            old(self).wf(),
        ensures
            final(self).wf(),
            netmap_set(old(self).emission_values, final(self).emission_values, netuid, emission),
            *final(self) == (Pallet { emission_values: final(self).emission_values, ..*old(self) }),
    {
        self.emission_values.insert(netuid, emission);
    }

    /// Stores the listed emission values pairwise; with a repeated
    /// identifier the last listed value stands.
    pub fn set_emission_values(&mut self, netuids: &Vec<u16>, emission: &Vec<u64>)
        requires
            old(self).wf(),
            netuids@.len() == emission@.len(),
        ensures
            final(self).wf(),
            forall|j: int|
                #![trigger netuids@[j]]
                0 <= j < netuids@.len() && no_dup_after(netuids@, j, netuids@.len() as int)
                    ==> final(self).emission_values.spec_contains(netuids@[j]) && final(self).emission_values.spec_get(netuids@[j]) == emission@[j],
            forall|k: u16|
                !netuids@.contains(k) ==> final(self).emission_values.spec_contains(k) == old(
                    self,
                ).emission_values.spec_contains(k),
            forall|k: u16|
                !netuids@.contains(k) && old(self).emission_values.spec_contains(k) ==> final(self).emission_values.spec_get(k) == old(self).emission_values.spec_get(k),
            *final(self) == (Pallet { emission_values: final(self).emission_values, ..*old(self) }),
    {
        let n = netuids.len();
        let mut i: usize = 0;
        while i < n
            invariant
                i <= n,
                n == netuids@.len(),
                netuids@.len() == emission@.len(),
                self.wf(),
                forall|j: int|
                    #![trigger netuids@[j]]
                    0 <= j < i && no_dup_after(netuids@, j, netuids@.len() as int)
                        ==> self.emission_values.spec_contains(netuids@[j])
                        && self.emission_values.spec_get(netuids@[j]) == emission@[j],
                forall|k: u16|
                    !netuids@.take(i as int).contains(k) ==> self.emission_values.spec_contains(k)
                        == old(self).emission_values.spec_contains(k),
                forall|k: u16|
                    !netuids@.take(i as int).contains(k) && old(
                        self,
                    ).emission_values.spec_contains(k) ==> self.emission_values.spec_get(k) == old(
                        self,
                    ).emission_values.spec_get(k),
                *self == (Pallet { emission_values: self.emission_values, ..*old(self) }),
            decreases n - i,
        {
            let ghost mid = *self;
            self.set_emission_for_network(netuids[i], emission[i]);
            proof {
                let ns = netuids@;
                let es = emission@;
                let iv = i as int;
                assert forall|j: int|
                    0 <= j < iv + 1 && no_dup_after(ns, j, ns.len() as int) implies
                    self.emission_values.spec_contains(ns[j]) && self.emission_values.spec_get(
                    ns[j],
                ) == es[j] by {
                    if j == iv {
                    } else {
                        assert(ns[iv] != ns[j]);
                        assert(mid.emission_values.spec_contains(ns[j])
                            && mid.emission_values.spec_get(ns[j]) == es[j]);
                        assert(self.emission_values.spec_get(ns[j]) == es[j]);
                    }
                }
                assert forall|k: u16|
                    !ns.take(iv + 1).contains(k) implies self.emission_values.spec_contains(k)
                    == old(self).emission_values.spec_contains(k) && (old(
                    self,
                ).emission_values.spec_contains(k) ==> self.emission_values.spec_get(k) == old(
                    self,
                ).emission_values.spec_get(k)) by {
                    assert(ns.take(iv + 1)[iv] == ns[iv]);
                    assert(k != ns[iv]);
                    assert forall|m: int| 0 <= m < iv && ns.take(iv)[m] == k implies false by {
                        assert(ns.take(iv + 1)[m] == k);
                    }
                    assert(!ns.take(iv).contains(k));
                }
            }
            i += 1;
        }
        proof {
            assert(netuids@.take(n as int) =~= netuids@);
        }
    }

    /// Replaces the emission of every subnetwork in one batch for the root
    /// authority: the list must cover exactly the current subnetworks, carry
    /// no duplicate or unknown identifier, and sum to the block emission.
    pub fn do_set_emission_values(
        &mut self,
        origin: &Origin,
        netuids: Vec<u16>,
        emission: Vec<u64>,
    ) -> (r: Result<(), Error>)
        requires
            old(self).wf(),
        ensures
            final(self).wf(),
            match r {
                Ok(u) => {
                    &&& origin.spec_is_root()
                    &&& netuids@.len() == emission@.len()
                    &&& netuids@.len() == old(self).total_networks as int
                    &&& !spec_has_dup(netuids@)
                    &&& spec_all_exist(*old(self), netuids@)
                    &&& sum_seq(emission@) == old(self).block_emission
                    &&& forall|j: int|
                        0 <= j < netuids@.len() ==> final(self).emission_values.spec_contains(
                            netuids@[j],
                        ) && final(self).emission_values.spec_get(netuids@[j]) == emission@[j]
                    &&& forall|k: u16|
                        !netuids@.contains(k) ==> final(self).emission_values.spec_contains(k)
                            == old(self).emission_values.spec_contains(k)
                    &&& forall|k: u16|
                        !netuids@.contains(k) && old(self).emission_values.spec_contains(k)
                            ==> final(self).emission_values.spec_get(k) == old(
                            self,
                        ).emission_values.spec_get(k)
                    &&& *final(self) == (Pallet {
                        emission_values: final(self).emission_values,
                        ..*old(self)
                    })
                },
                Err(e) => *final(self) == *old(self) && {
                    ||| (e == Error::BadOrigin && !origin.spec_is_root())
                    ||| (e == Error::WeightVecNotEqualSize && origin.spec_is_root()
                        && netuids@.len() != emission@.len())
                    ||| (e == Error::IncorrectNetuidsLength && origin.spec_is_root()
                        && netuids@.len() == emission@.len() && netuids@.len() != old(
                        self,
                    ).total_networks as int)
                    ||| (e == Error::DuplicateUids && origin.spec_is_root() && netuids@.len()
                        == emission@.len() && netuids@.len() == old(self).total_networks as int
                        && spec_has_dup(netuids@))
                    ||| (e == Error::InvalidUid && origin.spec_is_root() && netuids@.len()
                        == emission@.len() && netuids@.len() == old(self).total_networks as int
                        && !spec_has_dup(netuids@) && !spec_all_exist(*old(self), netuids@))
                    ||| (e == Error::InvalidEmissionValues && origin.spec_is_root()
                        && netuids@.len() == emission@.len() && netuids@.len() == old(
                        self,
                    ).total_networks as int && !spec_has_dup(netuids@) && spec_all_exist(
                        *old(self),
                        netuids@,
                    ) && (sum_seq(emission@) > u64::MAX || sum_seq(emission@) != old(
                        self,
                    ).block_emission))
                },
            },
    {
        match ensure_root(origin) {
            Ok(u) => {},
            Err(e) => {
                return Err(e);
            },
        }
        if netuids.len() != emission.len() {
            return Err(Error::WeightVecNotEqualSize);
        }
        if netuids.len() != self.total_networks as usize {
            return Err(Error::IncorrectNetuidsLength);
        }
        if Pallet::has_duplicate_netuids(&netuids) {
            return Err(Error::DuplicateUids);
        }
        if self.contains_invalid_netuids(&netuids) {
            return Err(Error::InvalidUid);
        }
        let emission_sum: Option<u64> = checked_sum(&emission);
        let total = match emission_sum {
            Some(t) => t,
            None => {
                return Err(Error::InvalidEmissionValues);
            },
        };
        if total != self.get_block_emission() {
            return Err(Error::InvalidEmissionValues);
        }
        self.set_emission_values(&netuids, &emission);
        proof {
            assert forall|j: int|
                0 <= j < netuids@.len() implies self.emission_values.spec_contains(netuids@[j])
                && self.emission_values.spec_get(netuids@[j]) == emission@[j] by {
                assert(no_dup_after(netuids@, j, netuids@.len() as int));
            }
        }
        Ok(())
    }

    /// The current registration price, never below the configured floor.
    pub fn get_network_burn_cost(&self) -> (r: u64)
        ensures
            r == spec_burn_cost(
                self.network_last_burn_cost,
                self.network_min_burn_cost,
                self.network_last_registered,
                self.current_block,
            ),
            r >= self.network_min_burn_cost,
    {
        let last_burn = self.get_network_last_burn();
        let min_burn = self.get_network_min_burn();
        let last_burn_block = self.get_network_last_burn_block();
        let current_block = self.get_current_block_as_u64();

        let base: u64 = if last_burn_block == 0 {
            last_burn
        } else {
            if last_burn <= u64::MAX / 2 {
                last_burn * 2
            } else {
                u64::MAX
            }
        };
        let rate: u64 = last_burn / (8 * DAYS);
        let elapsed: u64 = if current_block >= last_burn_block {
            current_block - last_burn_block
        } else {
            0
        };
        proof {
            assert((rate as int) * (elapsed as int) <= (u64::MAX as int) * (u64::MAX as int))
                by (nonlinear_arith)
                requires
                    0 <= rate as int <= u64::MAX as int,
                    0 <= elapsed as int <= u64::MAX as int,
            ;
        }
        let decay_wide: u128 = (rate as u128) * (elapsed as u128);
        let decay: u64 = if decay_wide > u64::MAX as u128 {
            u64::MAX
        } else {
            decay_wide as u64
        };
        let burn_cost: u64 = if base >= decay {
            base - decay
        } else {
            0
        };
        if burn_cost < min_burn {
            return min_burn;
        }
        burn_cost
    }

    /// Chooses which subnetwork to evict: the first-seen minimum emission
    /// among those out of their immunity window, falling back to the
    /// first-seen minimum among immune ones only when every live subnetwork
    /// is immune, and to identifier 1 when none exists at all.
    pub fn get_subnet_to_prune(&self) -> (r: u16)
        requires
            self.wf(),
        ensures
            ({
                let t = self.total_networks;
                if exists|n: u16| n < t && !self.spec_immune(n) {
                    &&& r < t
                    &&& !self.spec_immune(r)
                    &&& forall|n: u16|
                        n < t && !self.spec_immune(n) ==> self.spec_emission(r)
                            <= self.spec_emission(n)
                    &&& forall|n: u16|
                        n < r && !self.spec_immune(n) ==> self.spec_emission(n)
                            > self.spec_emission(r)
                } else if t > 0 {
                    &&& r < t
                    &&& self.spec_immune(r)
                    &&& forall|n: u16| n < t ==> self.spec_emission(r) <= self.spec_emission(n)
                    &&& forall|n: u16| n < r ==> self.spec_emission(n) > self.spec_emission(r)
                } else {
                    r == 1
                }
            }),
    {
        let total = self.total_networks;
        let mut have_best: bool = false;
        let mut best_uid: u16 = 0;
        let mut best_e: u64 = 0;
        let mut have_immune: bool = false;
        let mut immune_uid: u16 = 1;
        let mut immune_e: u64 = 0;
        let mut netuid: u16 = 0;
        while netuid < total
            invariant
                netuid <= total,
                self.wf(),
                have_best ==> best_uid < netuid && !self.spec_immune(best_uid)
                    && self.spec_emission(best_uid) == best_e,
                have_best ==> forall|n: u16|
                    n < netuid && !self.spec_immune(n) ==> best_e <= self.spec_emission(n),
                have_best ==> forall|n: u16|
                    n < best_uid && !self.spec_immune(n) ==> self.spec_emission(n) > best_e,
                !have_best ==> forall|n: u16| n < netuid ==> self.spec_immune(n),
                have_immune ==> immune_uid < netuid && self.spec_immune(immune_uid)
                    && self.spec_emission(immune_uid) == immune_e,
                have_immune ==> forall|n: u16|
                    n < netuid && self.spec_immune(n) ==> immune_e <= self.spec_emission(n),
                have_immune ==> forall|n: u16|
                    n < immune_uid && self.spec_immune(n) ==> self.spec_emission(n) > immune_e,
                !have_immune ==> forall|n: u16| n < netuid ==> !self.spec_immune(n),
            decreases total - netuid,
        {
            let emission_value = self.get_emission_value(netuid);
            let block_at_registration = self.get_network_registered_block(netuid);
            let current_block = self.get_current_block_as_u64();
            let immunity_period = self.get_network_immunity_period();
            let elapsed: u64 = if current_block >= block_at_registration {
                current_block - block_at_registration
            } else {
                0
            };
            let in_immunity = elapsed < immunity_period;
            if in_immunity {
                if !have_immune || immune_e > emission_value {
                    have_immune = true;
                    immune_uid = netuid;
                    immune_e = emission_value;
                }
            } else {
                if !have_best || best_e > emission_value {
                    have_best = true;
                    best_uid = netuid;
                    best_e = emission_value;
                }
            }
            netuid += 1;
        }
        proof {
            let t = self.total_networks;
            if exists|n: u16| n < t && !self.spec_immune(n) {
                let n0 = choose|n: u16| n < t && !self.spec_immune(n);
                assert(have_best);
            } else {
                assert(forall|n: u16| n < t ==> self.spec_immune(n));
                if have_best {
                    assert(best_uid < t && !self.spec_immune(best_uid));
                    assert(false);
                }
                if t > 0 {
                    if !have_immune {
                        assert(self.spec_immune(0u16));
                        assert(!self.spec_immune(0u16));
                        assert(false);
                    }
                    assert forall|n: u16| n < t implies immune_e <= self.spec_emission(n) by {
                        assert(self.spec_immune(n));
                    }
                    assert forall|n: u16|
                        n < immune_uid implies self.spec_emission(n) > immune_e by {
                        assert(self.spec_immune(n));
                    }
                }
            }
        }
        if have_best {
            best_uid
        } else if have_immune {
            immune_uid
        } else {
            1
        }
    }
}

/// Creating a subnetwork and then removing it restores the subnetwork count
/// and leaves no stored entry under its identifier.
pub proof fn lemma_create_then_remove_restores(
    s0: Pallet,
    s1: Pallet,
    s2: Pallet,
    netuid: u16,
    tempo: u16,
    modality: u16,
)
    requires
        network_initialized(s0, s1, netuid, tempo, modality),
        network_removed(s1, s2, netuid),
    ensures
        s2.total_networks == s0.total_networks,
        no_subnet_entries(s2, netuid),
{
}

/// Removing a subnetwork credits its owner with exactly the locked deposit
/// and leaves the locked balance at zero. Sums beyond the largest
/// representable balance are out of scope: the credit clamps there.
pub proof fn lemma_remove_refunds_owner(s1: Pallet, s2: Pallet, netuid: u16)
    requires
        network_removed(s1, s2, netuid),
        s1.spec_balance(s1.spec_owner_of_subnet(netuid)) + s1.spec_locked(netuid) <= u64::MAX,
    ensures
        s2.spec_balance(s1.spec_owner_of_subnet(netuid)) == s1.spec_balance(
            s1.spec_owner_of_subnet(netuid),
        ) + s1.spec_locked(netuid),
        s2.spec_locked(netuid) == 0,
{
}

/// With no new registration, the burn cost never rises as the block height
/// advances, and it never falls below the configured floor.
pub proof fn lemma_burn_cost_monotone(
    last_burn: u64,
    min_burn: u64,
    last_block: u64,
    b1: u64,
    b2: u64,
)
    requires
        b1 <= b2,
    ensures
        spec_burn_cost(last_burn, min_burn, last_block, b2) <= spec_burn_cost(
            last_burn,
            min_burn,
            last_block,
            b1,
        ),
        spec_burn_cost(last_burn, min_burn, last_block, b2) >= min_burn,
{
    let rate: int = last_burn as int / (8 * DAYS as int);
    let e1: int = if b1 >= last_block {
        b1 - last_block
    } else {
        0
    };
    let e2: int = if b2 >= last_block {
        b2 - last_block
    } else {
        0
    };
    assert(e1 <= e2);
    assert(rate >= 0);
    assert(rate * e1 <= rate * e2) by (nonlinear_arith)
        requires
            rate >= 0,
            0 <= e1 <= e2,
    ;
}

} // verus!

verus! {

impl Pallet {
    /// Creates a subnetwork and sets every hyperparameter explicitly in one
    /// call; parameters without an argument here keep their default.
    #[verifier::rlimit(100)]
    pub fn init_new_network_ex(
        &mut self,
        netuid: u16,
        tempo: u16,
        modality: u16,
        serving_limit: u64,
        weights_limit: u64,
        weights_version: u64,
        weights_min: u16,
        weights_max: u16,
        min_burn: u64,
        max_burn: u64,
        bonds_moving_avg: u64,
        max_allowed_validators: u16,
        max_allowed_uids: u16,
        adjustment_interval: u16,
        adjustment_alpha: u64,
        target_reg_per_interval: u16,
        max_reg_per_block: u16,
        activity_cutoff: u16,
        rho: u16,
        kappa: u16,
        validator_prune_len: u64,
        scaling_law_power: u16,
        immunity_period: u16,
        reg_allowed: bool,
    )
        requires
            old(self).wf(),
            old(self).total_networks < u16::MAX,
        ensures
            final(self).wf(),
            netmap_set(old(self).subnetwork_n, final(self).subnetwork_n, netuid, 0u16),
            netmap_set(old(self).networks_added, final(self).networks_added, netuid, true),
            netmap_set(old(self).tempo, final(self).tempo, netuid, tempo),
            netmap_set(old(self).network_modality, final(self).network_modality, netuid, modality),
            final(self).total_networks == old(self).total_networks + 1,
            netmap_set(
                old(self).serving_rate_limit,
                final(self).serving_rate_limit,
                netuid,
                serving_limit,
            ),
            netmap_set(
                old(self).weights_set_rate_limit,
                final(self).weights_set_rate_limit,
                netuid,
                weights_limit,
            ),
            netmap_set(
                old(self).weights_version_key,
                final(self).weights_version_key,
                netuid,
                weights_version,
            ),
            netmap_set(
                old(self).min_allowed_weights,
                final(self).min_allowed_weights,
                netuid,
                weights_min,
            ),
            netmap_set(
                old(self).max_weights_limit,
                final(self).max_weights_limit,
                netuid,
                weights_max,
            ),
            netmap_set(old(self).min_burn, final(self).min_burn, netuid, min_burn),
            netmap_set(old(self).max_burn, final(self).max_burn, netuid, max_burn),
            netmap_set(
                old(self).bonds_moving_average,
                final(self).bonds_moving_average,
                netuid,
                bonds_moving_avg,
            ),
            netmap_set(
                old(self).max_allowed_validators,
                final(self).max_allowed_validators,
                netuid,
                max_allowed_validators,
            ),
            netmap_set(
                old(self).max_allowed_uids,
                final(self).max_allowed_uids,
                netuid,
                max_allowed_uids,
            ),
            netmap_set(
                old(self).adjustment_interval,
                final(self).adjustment_interval,
                netuid,
                adjustment_interval,
            ),
            netmap_set(
                old(self).adjustment_alpha,
                final(self).adjustment_alpha,
                netuid,
                adjustment_alpha,
            ),
            netmap_set(
                old(self).target_registrations_per_interval,
                final(self).target_registrations_per_interval,
                netuid,
                target_reg_per_interval,
            ),
            netmap_set(
                old(self).max_registrations_per_block,
                final(self).max_registrations_per_block,
                netuid,
                max_reg_per_block,
            ),
            netmap_set(
                old(self).activity_cutoff,
                final(self).activity_cutoff,
                netuid,
                activity_cutoff,
            ),
            netmap_set(old(self).rho, final(self).rho, netuid, rho),
            netmap_set(old(self).kappa, final(self).kappa, netuid, kappa),
            netmap_set(
                old(self).validator_prune_len,
                final(self).validator_prune_len,
                netuid,
                validator_prune_len,
            ),
            netmap_set(
                old(self).scaling_law_power,
                final(self).scaling_law_power,
                netuid,
                scaling_law_power,
            ),
            netmap_set(
                old(self).immunity_period,
                final(self).immunity_period,
                netuid,
                immunity_period,
            ),
            netmap_set(
                old(self).network_registration_allowed,
                final(self).network_registration_allowed,
                netuid,
                reg_allowed,
            ),
            netmap_set(
                old(self).difficulty,
                final(self).difficulty,
                netuid,
                if old(self).difficulty.spec_contains(netuid) {
                    old(self).difficulty.spec_get(netuid)
                } else {
                    old(self).defaults.difficulty
                },
            ),
            netmap_set(
                old(self).emission_values,
                final(self).emission_values,
                netuid,
                if old(self).emission_values.spec_contains(netuid) {
                    old(self).emission_values.spec_get(netuid)
                } else {
                    old(self).defaults.emission_value
                },
            ),
            netmap_set(
                old(self).registrations_this_interval,
                final(self).registrations_this_interval,
                netuid,
                if old(self).registrations_this_interval.spec_contains(netuid) {
                    old(self).registrations_this_interval.spec_get(netuid)
                } else {
                    old(self).defaults.registrations_this_interval
                },
            ),
            netmap_set(
                old(self).pow_registrations_this_interval,
                final(self).pow_registrations_this_interval,
                netuid,
                if old(self).pow_registrations_this_interval.spec_contains(netuid) {
                    old(self).pow_registrations_this_interval.spec_get(netuid)
                } else {
                    old(self).defaults.pow_registrations_this_interval
                },
            ),
            netmap_set(
                old(self).burn_registrations_this_interval,
                final(self).burn_registrations_this_interval,
                netuid,
                if old(self).burn_registrations_this_interval.spec_contains(netuid) {
                    old(self).burn_registrations_this_interval.spec_get(netuid)
                } else {
                    old(self).defaults.burn_registrations_this_interval
                },
            ),
            same_vec_tables(*old(self), *final(self)),
            same_row_tables(*old(self), *final(self)),
            final(self).network_connect == old(self).network_connect,
            same_account_state(*old(self), *final(self)),
            same_globals_except_total(*old(self), *final(self)),
            same_net_meta(*old(self), *final(self)),
    {
        self.init_new_network(netuid, tempo, modality);

        self.serving_rate_limit.insert(netuid, serving_limit);
        self.weights_set_rate_limit.insert(netuid, weights_limit);
        self.weights_version_key.insert(netuid, weights_version);
        self.min_allowed_weights.insert(netuid, weights_min);
        self.max_weights_limit.insert(netuid, weights_max);

        self.min_burn.insert(netuid, min_burn);
        self.max_burn.insert(netuid, max_burn);

        self.bonds_moving_average.insert(netuid, bonds_moving_avg);

        self.max_allowed_validators.insert(netuid, max_allowed_validators);
        self.max_allowed_uids.insert(netuid, max_allowed_uids);

        self.adjustment_interval.insert(netuid, adjustment_interval);
        self.adjustment_alpha.insert(netuid, adjustment_alpha);

        self.target_registrations_per_interval.insert(netuid, target_reg_per_interval);
        self.max_registrations_per_block.insert(netuid, max_reg_per_block);

        self.activity_cutoff.insert(netuid, activity_cutoff);

        self.rho.insert(netuid, rho);
        self.kappa.insert(netuid, kappa);

        self.validator_prune_len.insert(netuid, validator_prune_len);

        self.scaling_law_power.insert(netuid, scaling_law_power);

        self.immunity_period.insert(netuid, immunity_period);

        self.network_registration_allowed.insert(netuid, reg_allowed);
    }
}

} // verus!
