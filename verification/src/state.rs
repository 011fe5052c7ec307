//! The ledger state this pallet governs: per-subnetwork parameters and
//! derived tables, the stake and delegate ledgers, account balances, and the
//! process-wide pricing configuration, all held as one explicit value.
use vstd::prelude::*;
use crate::account::AccountId;
use crate::netmap::NetMap;
use crate::pairtable::PairTable;
use crate::accmap::AccountMap;
use crate::membertable::MemberTable;
use crate::staketable::StakeTable;

verus! {

/// Everything a call can fail with; validation happens before any mutation.
#[derive(Clone, Copy, PartialEq, Eq, Structural, Debug)]
pub enum Error {
    BadOrigin,
    NetworkDoesNotExist,
    NotSubnetOwner,
    NetworkExist,
    InvalidModality,
    InvalidTempo,
    InvalidConnectionRequirement,
    WeightVecNotEqualSize,
    IncorrectNetuidsLength,
    DuplicateUids,
    InvalidUid,
    InvalidEmissionValues,
}

/// The provenance of a call: the root authority or a signed account.
pub enum Origin {
    Root,
    Signed(AccountId),
}

impl Origin {
    pub open spec fn spec_is_root(self) -> bool {
        self is Root
    }

    pub open spec fn spec_is_signed(self) -> bool {
        self is Signed
    }

    /// The signer's byte string; meaningful only for signed origins.
    pub open spec fn spec_signer(self) -> Seq<u8> {
        match self {
            Origin::Root => Seq::empty(),
            Origin::Signed(a) => a@,
        }
    }
}

/// Fails with `BadOrigin` unless the caller is the root authority.
pub fn ensure_root(origin: &Origin) -> (r: Result<(), Error>)
    ensures
        r is Ok <==> origin.spec_is_root(),
        r matches Err(e) ==> e == Error::BadOrigin,
{
    match origin {
        Origin::Root => Ok(()),
        Origin::Signed(_) => Err(Error::BadOrigin),
    }
}

/// Fails with `BadOrigin` unless the caller is a signed account; returns it.
pub fn ensure_signed(origin: &Origin) -> (r: Result<AccountId, Error>)
    ensures
        r is Ok <==> origin.spec_is_signed(),
        r matches Ok(a) ==> a@ == origin.spec_signer(),
        r matches Err(e) ==> e == Error::BadOrigin,
{
    match origin {
        Origin::Root => Err(Error::BadOrigin),
        Origin::Signed(a) => Ok(a.clone()),
    }
}

/// The configured default value of every per-subnetwork parameter that
/// creation writes explicitly, so reads never fall back to implicit zeros.
pub struct Defaults {
    pub tempo: u16,
    pub kappa: u16,
    pub difficulty: u64,
    pub max_allowed_uids: u16,
    pub immunity_period: u16,
    pub activity_cutoff: u16,
    pub emission_value: u64,
    pub max_weights_limit: u16,
    pub min_allowed_weights: u16,
    pub registrations_this_interval: u16,
    pub pow_registrations_this_interval: u16,
    pub burn_registrations_this_interval: u16,
}

/// The whole governed state.
pub struct Pallet {
    // per-subnetwork scalar parameters
    pub subnetwork_n: NetMap<u16>,
    pub networks_added: NetMap<bool>,
    pub tempo: NetMap<u16>,
    pub network_modality: NetMap<u16>,
    pub emission_values: NetMap<u64>,
    pub kappa: NetMap<u16>,
    pub difficulty: NetMap<u64>,
    pub max_allowed_uids: NetMap<u16>,
    pub immunity_period: NetMap<u16>,
    pub activity_cutoff: NetMap<u16>,
    pub max_weights_limit: NetMap<u16>,
    pub min_allowed_weights: NetMap<u16>,
    pub registrations_this_interval: NetMap<u16>,
    pub pow_registrations_this_interval: NetMap<u16>,
    pub burn_registrations_this_interval: NetMap<u16>,
    pub serving_rate_limit: NetMap<u64>,
    pub weights_set_rate_limit: NetMap<u64>,
    pub weights_version_key: NetMap<u64>,
    pub min_burn: NetMap<u64>,
    pub max_burn: NetMap<u64>,
    pub bonds_moving_average: NetMap<u64>,
    pub max_allowed_validators: NetMap<u16>,
    pub adjustment_interval: NetMap<u16>,
    pub adjustment_alpha: NetMap<u64>,
    pub target_registrations_per_interval: NetMap<u16>,
    pub max_registrations_per_block: NetMap<u16>,
    pub validator_prune_len: NetMap<u64>,
    pub scaling_law_power: NetMap<u16>,
    pub rho: NetMap<u16>,
    pub network_registration_allowed: NetMap<bool>,
    pub network_registered_at: NetMap<u64>,
    pub subnet_owner: NetMap<AccountId>,
    pub subnet_locked: NetMap<u64>,
    // per-subnetwork consensus vectors, one slot per neuron
    pub rank: NetMap<Vec<u16>>,
    pub trust: NetMap<Vec<u16>>,
    pub active: NetMap<Vec<bool>>,
    pub emission: NetMap<Vec<u64>>,
    pub incentive: NetMap<Vec<u16>>,
    pub consensus: NetMap<Vec<u16>>,
    pub dividends: NetMap<Vec<u16>>,
    pub pruning_scores: NetMap<Vec<u16>>,
    pub last_update: NetMap<Vec<u64>>,
    pub validator_permit: NetMap<Vec<bool>>,
    pub validator_trust: NetMap<Vec<u16>>,
    // membership and per-(subnetwork, slot) tables
    pub uids: MemberTable,
    pub keys: PairTable<AccountId>,
    pub weights: PairTable<Vec<(u16, u16)>>,
    pub bonds: PairTable<Vec<(u16, u16)>>,
    pub network_connect: PairTable<u16>,
    // account-keyed ledgers
    pub delegates: AccountMap<u16>,
    pub owner: AccountMap<AccountId>,
    pub total_hotkey_stake: AccountMap<u64>,
    pub balances: AccountMap<u64>,
    pub stake: StakeTable,
    // process-wide values
    pub total_networks: u16,
    pub network_immunity_period: u64,
    pub network_min_burn_cost: u64,
    pub network_last_burn_cost: u64,
    pub network_last_registered: u64,
    pub block_emission: u64,
    pub current_block: u64,
    pub defaults: Defaults,
}

impl Pallet {
    /// Every keyed store keeps its keys distinct.
    pub open spec fn wf(self) -> bool {
        &&& self.subnetwork_n.wf()
        &&& self.networks_added.wf()
        &&& self.tempo.wf()
        &&& self.network_modality.wf()
        &&& self.emission_values.wf()
        &&& self.kappa.wf()
        &&& self.difficulty.wf()
        &&& self.max_allowed_uids.wf()
        &&& self.immunity_period.wf()
        &&& self.activity_cutoff.wf()
        &&& self.max_weights_limit.wf()
        &&& self.min_allowed_weights.wf()
        &&& self.registrations_this_interval.wf()
        &&& self.pow_registrations_this_interval.wf()
        &&& self.burn_registrations_this_interval.wf()
        &&& self.serving_rate_limit.wf()
        &&& self.weights_set_rate_limit.wf()
        &&& self.weights_version_key.wf()
        &&& self.min_burn.wf()
        &&& self.max_burn.wf()
        &&& self.bonds_moving_average.wf()
        &&& self.max_allowed_validators.wf()
        &&& self.adjustment_interval.wf()
        &&& self.adjustment_alpha.wf()
        &&& self.target_registrations_per_interval.wf()
        &&& self.max_registrations_per_block.wf()
        &&& self.validator_prune_len.wf()
        &&& self.scaling_law_power.wf()
        &&& self.rho.wf()
        &&& self.network_registration_allowed.wf()
        &&& self.network_registered_at.wf()
        &&& self.subnet_owner.wf()
        &&& self.subnet_locked.wf()
        &&& self.rank.wf()
        &&& self.trust.wf()
        &&& self.active.wf()
        &&& self.emission.wf()
        &&& self.incentive.wf()
        &&& self.consensus.wf()
        &&& self.dividends.wf()
        &&& self.pruning_scores.wf()
        &&& self.last_update.wf()
        &&& self.validator_permit.wf()
        &&& self.validator_trust.wf()
        &&& self.uids.wf()
        &&& self.keys.wf()
        &&& self.weights.wf()
        &&& self.bonds.wf()
        &&& self.network_connect.wf()
        &&& self.delegates.wf()
        &&& self.owner.wf()
        &&& self.total_hotkey_stake.wf()
        &&& self.balances.wf()
        &&& self.stake.wf()
    }

    pub fn new() -> (r: Pallet)
        ensures
            r.wf(),
            r.total_networks == 0,
            forall|n: u16| !r.networks_added.spec_contains(n),
            r.network_last_registered == 0,
            r.network_last_burn_cost == 0,
            r.network_min_burn_cost == 0,
            r.network_immunity_period == 0,
            r.block_emission == 0,
            r.current_block == 0,
    {
        Pallet {
            subnetwork_n: NetMap::new(),
            networks_added: NetMap::new(),
            tempo: NetMap::new(),
            network_modality: NetMap::new(),
            emission_values: NetMap::new(),
            kappa: NetMap::new(),
            difficulty: NetMap::new(),
            max_allowed_uids: NetMap::new(),
            immunity_period: NetMap::new(),
            activity_cutoff: NetMap::new(),
            max_weights_limit: NetMap::new(),
            min_allowed_weights: NetMap::new(),
            registrations_this_interval: NetMap::new(),
            pow_registrations_this_interval: NetMap::new(),
            burn_registrations_this_interval: NetMap::new(),
            serving_rate_limit: NetMap::new(),
            weights_set_rate_limit: NetMap::new(),
            weights_version_key: NetMap::new(),
            min_burn: NetMap::new(),
            max_burn: NetMap::new(),
            bonds_moving_average: NetMap::new(),
            max_allowed_validators: NetMap::new(),
            adjustment_interval: NetMap::new(),
            adjustment_alpha: NetMap::new(),
            target_registrations_per_interval: NetMap::new(),
            max_registrations_per_block: NetMap::new(),
            validator_prune_len: NetMap::new(),
            scaling_law_power: NetMap::new(),
            rho: NetMap::new(),
            network_registration_allowed: NetMap::new(),
            network_registered_at: NetMap::new(),
            subnet_owner: NetMap::new(),
            subnet_locked: NetMap::new(),
            rank: NetMap::new(),
            trust: NetMap::new(),
            active: NetMap::new(),
            emission: NetMap::new(),
            incentive: NetMap::new(),
            consensus: NetMap::new(),
            dividends: NetMap::new(),
            pruning_scores: NetMap::new(),
            last_update: NetMap::new(),
            validator_permit: NetMap::new(),
            validator_trust: NetMap::new(),
            uids: MemberTable::new(),
            keys: PairTable::new(),
            weights: PairTable::new(),
            bonds: PairTable::new(),
            network_connect: PairTable::new(),
            delegates: AccountMap::new(),
            owner: AccountMap::new(),
            total_hotkey_stake: AccountMap::new(),
            balances: AccountMap::new(),
            stake: StakeTable::new(),
            total_networks: 0,
            network_immunity_period: 0,
            network_min_burn_cost: 0,
            network_last_burn_cost: 0,
            network_last_registered: 0,
            block_emission: 0,
            current_block: 0,
            defaults: Defaults {
                tempo: 0,
                kappa: 0,
                difficulty: 0,
                max_allowed_uids: 0,
                immunity_period: 0,
                activity_cutoff: 0,
                emission_value: 0,
                max_weights_limit: 0,
                min_allowed_weights: 0,
                registrations_this_interval: 0,
                pow_registrations_this_interval: 0,
                burn_registrations_this_interval: 0,
            },
        }
    }

    /// A subnetwork exists when its existence flag is stored and set.
    pub open spec fn spec_subnet_exists(self, netuid: u16) -> bool {
        self.networks_added.spec_contains(netuid) && self.networks_added.spec_get(netuid)
    }

    pub open spec fn spec_registration_allowed(self, netuid: u16) -> bool {
        self.network_registration_allowed.spec_contains(netuid)
            && self.network_registration_allowed.spec_get(netuid)
    }

    /// The stored per-subnetwork emission, zero when unset.
    pub open spec fn spec_emission(self, netuid: u16) -> u64 {
        if self.emission_values.spec_contains(netuid) {
            self.emission_values.spec_get(netuid)
        } else {
            0
        }
    }

    /// The block a subnetwork registered at, zero when unset.
    pub open spec fn spec_registered_at(self, netuid: u16) -> u64 {
        if self.network_registered_at.spec_contains(netuid) {
            self.network_registered_at.spec_get(netuid)
        } else {
            0
        }
    }

    /// The subnetwork's tempo, the configured default when unset.
    pub open spec fn spec_tempo(self, netuid: u16) -> u16 {
        if self.tempo.spec_contains(netuid) {
            self.tempo.spec_get(netuid)
        } else {
            self.defaults.tempo
        }
    }

    /// The refundable deposit locked for a subnetwork, zero when unset.
    pub open spec fn spec_locked(self, netuid: u16) -> u64 {
        if self.subnet_locked.spec_contains(netuid) {
            self.subnet_locked.spec_get(netuid)
        } else {
            0
        }
    }

    /// The subnetwork owner's byte string, empty when unset.
    pub open spec fn spec_owner_of_subnet(self, netuid: u16) -> Seq<u8> {
        if self.subnet_owner.spec_contains(netuid) {
            self.subnet_owner.spec_get(netuid)@
        } else {
            Seq::empty()
        }
    }

    /// An account's free balance, zero when unset.
    pub open spec fn spec_balance(self, h: Seq<u8>) -> u64 {
        if self.balances.spec_contains(h) {
            self.balances.spec_get(h)
        } else {
            0
        }
    }

    /// A delegate's take rate, zero when unset.
    pub open spec fn spec_take(self, h: Seq<u8>) -> u16 {
        if self.delegates.spec_contains(h) {
            self.delegates.spec_get(h)
        } else {
            0
        }
    }

    /// The total stake recorded for a hotkey, zero when unset.
    pub open spec fn spec_total_stake(self, h: Seq<u8>) -> u64 {
        if self.total_hotkey_stake.spec_contains(h) {
            self.total_hotkey_stake.spec_get(h)
        } else {
            0
        }
    }

    /// The coldkey owning a hotkey, the empty byte string when unset.
    pub open spec fn spec_owner_of_hotkey(self, h: Seq<u8>) -> Seq<u8> {
        if self.owner.spec_contains(h) {
            self.owner.spec_get(h)@
        } else {
            Seq::empty()
        }
    }

    /// The validator-permit flag of a neuron slot, false when out of range.
    pub open spec fn spec_permit_for_uid(self, netuid: u16, uid: u16) -> bool {
        if self.validator_permit.spec_contains(netuid) {
            let row = self.validator_permit.spec_get(netuid);
            uid < row@.len() && row@[uid as int]
        } else {
            false
        }
    }

    /// The emission of a neuron slot, zero when out of range.
    pub open spec fn spec_emission_for_uid(self, netuid: u16, uid: u16) -> u64 {
        if self.emission.spec_contains(netuid) {
            let row = self.emission.spec_get(netuid);
            if uid < row@.len() {
                row@[uid as int]
            } else {
                0
            }
        } else {
            0
        }
    }

    pub fn if_subnet_exist(&self, netuid: u16) -> (r: bool)
        requires
            self.wf(),
        ensures
            r == self.spec_subnet_exists(netuid),
    {
        match self.networks_added.get(netuid) {
            Some(b) => *b,
            None => false,
        }
    }

    pub fn if_subnet_allows_registration(&self, netuid: u16) -> (r: bool)
        requires
            self.wf(),
        ensures
            r == self.spec_registration_allowed(netuid),
    {
        match self.network_registration_allowed.get(netuid) {
            Some(b) => *b,
            None => false,
        }
    }

    /// The allowed modalities form a small fixed set.
    pub fn if_modality_is_valid(modality: u16) -> (r: bool)
        ensures
            r == (modality == 0 || modality == 1 || modality == 2),
    {
        modality == 0 || modality == 1 || modality == 2
    }

    /// Every tempo below the 16-bit sentinel is allowed.
    pub fn if_tempo_is_valid(tempo: u16) -> (r: bool)
        ensures
            r == (tempo < u16::MAX),
    {
        tempo < u16::MAX
    }

    pub fn get_emission_value(&self, netuid: u16) -> (r: u64)
        requires
            self.wf(),
        ensures
            r == self.spec_emission(netuid),
    {
        match self.emission_values.get(netuid) {
            Some(v) => *v,
            None => 0,
        }
    }

    pub fn get_network_registered_block(&self, netuid: u16) -> (r: u64)
        requires
            self.wf(),
        ensures
            r == self.spec_registered_at(netuid),
    {
        match self.network_registered_at.get(netuid) {
            Some(v) => *v,
            None => 0,
        }
    }

    pub fn get_network_immunity_period(&self) -> (r: u64)
        ensures
            r == self.network_immunity_period,
    {
        self.network_immunity_period
    }

    pub fn get_network_min_burn(&self) -> (r: u64)
        ensures
            r == self.network_min_burn_cost,
    {
        self.network_min_burn_cost
    }

    pub fn set_network_last_burn(&mut self, amount: u64)
        ensures
            *final(self) == (Pallet { network_last_burn_cost: amount, ..*old(self) }),
    {
        self.network_last_burn_cost = amount;
    }

    pub fn get_network_last_burn(&self) -> (r: u64)
        ensures
            r == self.network_last_burn_cost,
    {
        self.network_last_burn_cost
    }

    pub fn get_network_last_burn_block(&self) -> (r: u64)
        ensures
            r == self.network_last_registered,
    {
        self.network_last_registered
    }

    pub fn get_current_block_as_u64(&self) -> (r: u64)
        ensures
            r == self.current_block,
    {
        self.current_block
    }

    pub fn get_block_emission(&self) -> (r: u64)
        ensures
            r == self.block_emission,
    {
        self.block_emission
    }

    pub fn get_subnet_locked_balance(&self, netuid: u16) -> (r: u64)
        requires
            self.wf(),
        ensures
            r == self.spec_locked(netuid),
    {
        match self.subnet_locked.get(netuid) {
            Some(v) => *v,
            None => 0,
        }
    }

    /// In this ledger the balance type is the 64-bit amount itself, so the
    /// conversion a removal guards on always succeeds.
    pub fn get_subnet_owner(&self, netuid: u16) -> (r: AccountId)
        requires
            self.wf(),
        ensures
            r@ == self.spec_owner_of_subnet(netuid),
    {
        match self.subnet_owner.get(netuid) {
            Some(a) => a.clone(),
            None => AccountId { bytes: Vec::new() },
        }
    }

    pub fn u64_to_balance(amount: u64) -> (r: Option<u64>)
        ensures
            r == Some(amount),
    {
        Some(amount)
    }

    /// Credits an account, clamping at the largest representable balance.
    pub fn add_balance_to_coldkey_account(&mut self, coldkey: &AccountId, amount: u64)
        requires
            old(self).wf(),
        ensures
            final(self).wf(),
            final(self).spec_balance(coldkey@) == crate::fixed::sat_u64(
                old(self).spec_balance(coldkey@) + amount,
            ),
            forall|h: Seq<u8>|
                h != coldkey@ ==> final(self).balances.spec_contains(h) == old(
                    self,
                ).balances.spec_contains(h),
            forall|h: Seq<u8>| h != coldkey@ ==> final(self).spec_balance(h) == old(
                self,
            ).spec_balance(h),
            *final(self) == (Pallet { balances: final(self).balances, ..*old(self) }),
    {
        let cur = match self.balances.get(coldkey) {
            Some(v) => *v,
            None => 0,
        };
        let newbal = if cur <= u64::MAX - amount {
            cur + amount
        } else {
            u64::MAX
        };
        self.balances.insert(coldkey.clone(), newbal);
    }

    pub fn get_owning_coldkey_for_hotkey(&self, hotkey: &AccountId) -> (r: AccountId)
        requires
            self.wf(),
        ensures
            r@ == self.spec_owner_of_hotkey(hotkey@),
    {
        match self.owner.get(hotkey) {
            Some(a) => a.clone(),
            None => AccountId { bytes: Vec::new() },
        }
    }

    pub fn get_total_stake_for_hotkey(&self, hotkey: &AccountId) -> (r: u64)
        requires
            self.wf(),
        ensures
            r == self.spec_total_stake(hotkey@),
    {
        match self.total_hotkey_stake.get(hotkey) {
            Some(v) => *v,
            None => 0,
        }
    }

    pub fn get_stake_for_coldkey_and_hotkey(&self, coldkey: &AccountId, hotkey: &AccountId) -> (r:
        u64)
        requires
            self.wf(),
        ensures
            r == self.stake.spec_stake(hotkey@, coldkey@),
    {
        self.stake.get_stake(hotkey, coldkey)
    }

    pub fn get_tempo(&self, netuid: u16) -> (r: u16)
        requires
            self.wf(),
        ensures
            r == self.spec_tempo(netuid),
    {
        match self.tempo.get(netuid) {
            Some(v) => *v,
            None => self.defaults.tempo,
        }
    }

    pub fn get_validator_permit_for_uid(&self, netuid: u16, uid: u16) -> (r: bool)
        requires
            self.wf(),
        ensures
            r == self.spec_permit_for_uid(netuid, uid),
    {
        match self.validator_permit.get(netuid) {
            Some(row) => {
                if (uid as usize) < row.len() {
                    row[uid as usize]
                } else {
                    false
                }
            },
            None => false,
        }
    }

    pub fn get_emission_for_uid(&self, netuid: u16, uid: u16) -> (r: u64)
        requires
            self.wf(),
        ensures
            r == self.spec_emission_for_uid(netuid, uid),
    {
        match self.emission.get(netuid) {
            Some(row) => {
                if (uid as usize) < row.len() {
                    row[uid as usize]
                } else {
                    0
                }
            },
            None => 0,
        }
    }
}

} // verus!
