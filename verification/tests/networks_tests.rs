use subtensor::account::AccountId;
use subtensor::state::{Error, Origin, Pallet};

fn acct(tag: u8) -> AccountId {
    AccountId::from_bytes(vec![tag; 32])
}

#[test]
fn modality_validity() {
    assert!(Pallet::if_modality_is_valid(0));
    assert!(Pallet::if_modality_is_valid(1));
    assert!(Pallet::if_modality_is_valid(2));
    assert!(!Pallet::if_modality_is_valid(3));
    assert!(!Pallet::if_modality_is_valid(u16::MAX));
}

#[test]
fn tempo_validity() {
    assert!(Pallet::if_tempo_is_valid(0));
    assert!(Pallet::if_tempo_is_valid(u16::MAX - 1));
    assert!(!Pallet::if_tempo_is_valid(u16::MAX));
}

#[test]
fn add_network_validates_and_creates() {
    let mut p = Pallet::new();
    assert_eq!(
        p.do_add_network(&Origin::Signed(acct(1)), 5, 10, 0),
        Err(Error::BadOrigin)
    );
    assert_eq!(
        p.do_add_network(&Origin::Root, 5, 10, 3),
        Err(Error::InvalidModality)
    );
    assert_eq!(
        p.do_add_network(&Origin::Root, 5, u16::MAX, 0),
        Err(Error::InvalidTempo)
    );
    assert_eq!(p.do_add_network(&Origin::Root, 5, 10, 0), Ok(()));
    assert!(p.if_subnet_exist(5));
    assert_eq!(p.total_networks, 1);
    assert_eq!(p.get_tempo(5), 10);
    assert_eq!(
        p.do_add_network(&Origin::Root, 5, 10, 0),
        Err(Error::NetworkExist)
    );
}

#[test]
fn create_then_remove_restores_count_and_leaves_no_keys() {
    let mut p = Pallet::new();
    assert_eq!(p.do_add_network(&Origin::Root, 7, 25, 1), Ok(()));
    assert_eq!(p.total_networks, 1);
    // plant derived rows the way the consensus engine would
    p.uids.insert(7, acct(9), 0);
    p.keys.insert(7, 0, acct(9));
    p.weights.insert(7, 0, vec![(0, 100)]);
    p.bonds.insert(7, 0, vec![(0, 50)]);
    p.rank.insert(7, vec![1, 2]);
    p.emission.insert(7, vec![3]);
    assert_eq!(p.do_remove_network(&Origin::Root, 7), Ok(()));
    assert_eq!(p.total_networks, 0);
    assert!(!p.if_subnet_exist(7));
    assert!(!p.subnetwork_n.contains_key(7));
    assert!(!p.networks_added.contains_key(7));
    assert!(!p.tempo.contains_key(7));
    assert!(!p.network_modality.contains_key(7));
    assert!(!p.emission_values.contains_key(7));
    assert!(!p.kappa.contains_key(7));
    assert!(!p.difficulty.contains_key(7));
    assert!(!p.max_allowed_uids.contains_key(7));
    assert!(!p.immunity_period.contains_key(7));
    assert!(!p.activity_cutoff.contains_key(7));
    assert!(!p.max_weights_limit.contains_key(7));
    assert!(!p.min_allowed_weights.contains_key(7));
    assert!(!p.registrations_this_interval.contains_key(7));
    assert!(!p.pow_registrations_this_interval.contains_key(7));
    assert!(!p.burn_registrations_this_interval.contains_key(7));
    assert!(!p.network_registered_at.contains_key(7));
    assert!(!p.subnet_owner.contains_key(7));
    assert!(!p.subnet_locked.contains_key(7));
    assert!(!p.rank.contains_key(7));
    assert!(!p.emission.contains_key(7));
    assert!(p.uids.get_slot(7, &acct(9)).is_none());
    assert!(!p.keys.contains_key(7, 0));
    assert!(!p.weights.contains_key(7, 0));
    assert!(!p.bonds.contains_key(7, 0));
    assert_eq!(
        p.do_remove_network(&Origin::Root, 7),
        Err(Error::NetworkDoesNotExist)
    );
}

#[test]
fn remove_network_refunds_owner_exactly_locked() {
    let mut p = Pallet::new();
    let owner = acct(2);
    assert_eq!(p.do_add_network(&Origin::Root, 3, 100, 0), Ok(()));
    p.subnet_owner.insert(3, owner.clone());
    p.subnet_locked.insert(3, 500);
    p.balances.insert(owner.clone(), 100);
    p.remove_network(3);
    assert_eq!(p.balances.get(&owner).copied(), Some(600));
    assert_eq!(p.get_subnet_locked_balance(3), 0);
}

#[test]
fn user_remove_network_requires_owner() {
    let mut p = Pallet::new();
    let owner = acct(4);
    let stranger = acct(5);
    assert_eq!(p.do_add_network(&Origin::Root, 2, 10, 0), Ok(()));
    p.subnet_owner.insert(2, owner.clone());
    assert_eq!(
        p.user_remove_network(&Origin::Root, 2),
        Err(Error::BadOrigin)
    );
    assert_eq!(
        p.user_remove_network(&Origin::Signed(stranger), 2),
        Err(Error::NotSubnetOwner)
    );
    assert_eq!(
        p.user_remove_network(&Origin::Signed(owner.clone()), 9),
        Err(Error::NetworkDoesNotExist)
    );
    assert_eq!(p.user_remove_network(&Origin::Signed(owner), 2), Ok(()));
    assert!(!p.if_subnet_exist(2));
}

#[test]
fn transfer_ownership_moves_metadata_only() {
    let mut p = Pallet::new();
    let owner = acct(6);
    let dest = acct(7);
    assert_eq!(p.do_add_network(&Origin::Root, 1, 10, 0), Ok(()));
    p.subnet_owner.insert(1, owner.clone());
    assert_eq!(
        p.network_transfer_ownership(&Origin::Signed(acct(8)), 1, dest.clone()),
        Err(Error::NotSubnetOwner)
    );
    assert_eq!(
        p.network_transfer_ownership(&Origin::Signed(owner.clone()), 4, dest.clone()),
        Err(Error::NetworkDoesNotExist)
    );
    assert_eq!(
        p.network_transfer_ownership(&Origin::Signed(owner), 1, dest.clone()),
        Ok(())
    );
    assert_eq!(p.get_subnet_owner(1).bytes, dest.bytes);
    assert_eq!(p.total_networks, 1);
}

#[test]
fn connection_requirements_lifecycle() {
    let mut p = Pallet::new();
    assert_eq!(p.do_add_network(&Origin::Root, 1, 10, 0), Ok(()));
    assert_eq!(p.do_add_network(&Origin::Root, 2, 10, 0), Ok(()));
    assert_eq!(
        p.do_sudo_add_network_connection_requirement(&Origin::Root, 1, 1, 30),
        Err(Error::InvalidConnectionRequirement)
    );
    assert_eq!(
        p.do_sudo_add_network_connection_requirement(&Origin::Root, 1, 9, 30),
        Err(Error::NetworkDoesNotExist)
    );
    assert_eq!(p.get_network_connection_requirement(1, 2), u16::MAX);
    assert_eq!(
        p.do_sudo_add_network_connection_requirement(&Origin::Root, 1, 2, 30),
        Ok(())
    );
    assert!(p.network_connection_requirement_exists(1, 2));
    assert_eq!(p.get_network_connection_requirement(1, 2), 30);
    assert_eq!(
        p.do_sudo_remove_network_connection_requirement(&Origin::Root, 1, 2),
        Ok(())
    );
    assert!(!p.network_connection_requirement_exists(1, 2));
    // idempotent removal of an absent requirement
    p.remove_connection_requirment(1, 2);
    assert!(!p.network_connection_requirement_exists(1, 2));
}

#[test]
fn set_emission_values_rejects_bad_batches() {
    let mut p = Pallet::new();
    assert_eq!(p.do_add_network(&Origin::Root, 0, 10, 0), Ok(()));
    assert_eq!(p.do_add_network(&Origin::Root, 1, 10, 0), Ok(()));
    p.block_emission = 100;
    assert_eq!(
        p.do_set_emission_values(&Origin::Signed(acct(1)), vec![0, 1], vec![40, 60]),
        Err(Error::BadOrigin)
    );
    assert_eq!(
        p.do_set_emission_values(&Origin::Root, vec![0, 1], vec![40]),
        Err(Error::WeightVecNotEqualSize)
    );
    assert_eq!(
        p.do_set_emission_values(&Origin::Root, vec![0], vec![100]),
        Err(Error::IncorrectNetuidsLength)
    );
    assert_eq!(
        p.do_set_emission_values(&Origin::Root, vec![0, 0], vec![40, 60]),
        Err(Error::DuplicateUids)
    );
    assert_eq!(
        p.do_set_emission_values(&Origin::Root, vec![0, 9], vec![40, 60]),
        Err(Error::InvalidUid)
    );
    assert_eq!(
        p.do_set_emission_values(&Origin::Root, vec![0, 1], vec![40, 61]),
        Err(Error::InvalidEmissionValues)
    );
    assert_eq!(
        p.do_set_emission_values(&Origin::Root, vec![0, 1], vec![u64::MAX, 1]),
        Err(Error::InvalidEmissionValues)
    );
    assert_eq!(p.get_emission_value(0), 0);
    assert_eq!(
        p.do_set_emission_values(&Origin::Root, vec![0, 1], vec![40, 60]),
        Ok(())
    );
    assert_eq!(p.get_emission_value(0), 40);
    assert_eq!(p.get_emission_value(1), 60);
}

#[test]
fn checked_sum_reports_overflow() {
    assert_eq!(subtensor::math::checked_sum(&vec![1, 2, 3]), Some(6));
    assert_eq!(subtensor::math::checked_sum(&Vec::new()), Some(0));
    assert_eq!(subtensor::math::checked_sum(&vec![u64::MAX, 1]), None);
}

#[test]
fn burn_cost_steps_up_then_decays_to_floor() {
    let mut p = Pallet::new();
    p.network_min_burn_cost = 1_000;
    p.network_last_burn_cost = 576_000;
    // first-ever registration: no step-up
    p.network_last_registered = 0;
    p.current_block = 0;
    assert_eq!(p.get_network_burn_cost(), 576_000);
    // after a registration at block 100: doubled, then linear decay
    p.network_last_registered = 100;
    p.current_block = 100;
    assert_eq!(p.get_network_burn_cost(), 1_152_000);
    // rate is 576000 / 57600 = 10 per block
    p.current_block = 100 + 5_000;
    assert_eq!(p.get_network_burn_cost(), 1_152_000 - 50_000);
    // far in the future the cost is clamped at the floor
    p.current_block = 100 + 1_000_000;
    assert_eq!(p.get_network_burn_cost(), 1_000);
}

#[test]
fn burn_cost_monotone_in_block_height() {
    let mut p = Pallet::new();
    p.network_min_burn_cost = 50;
    p.network_last_burn_cost = 2_000_000;
    p.network_last_registered = 10;
    let mut prev = u64::MAX;
    for b in [10u64, 1_000, 20_000, 100_000, 10_000_000] {
        p.current_block = b;
        let cost = p.get_network_burn_cost();
        assert!(cost <= prev);
        assert!(cost >= p.network_min_burn_cost);
        prev = cost;
    }
}

#[test]
fn prune_prefers_non_immune_minimum() {
    let mut p = Pallet::new();
    for n in 0u16..3 {
        assert_eq!(p.do_add_network(&Origin::Root, n, 10, 0), Ok(()));
    }
    p.network_immunity_period = 20;
    p.current_block = 50;
    // net 0 is immune; nets 1 and 2 are out of their window
    p.network_registered_at.insert(0, 45);
    p.network_registered_at.insert(1, 0);
    p.network_registered_at.insert(2, 10);
    p.emission_values.insert(0, 1);
    p.emission_values.insert(1, 7);
    p.emission_values.insert(2, 3);
    // the immune subnetwork has the lowest emission but is spared
    assert_eq!(p.get_subnet_to_prune(), 2);
}

#[test]
fn prune_falls_back_to_immune_minimum() {
    let mut p = Pallet::new();
    for n in 0u16..3 {
        assert_eq!(p.do_add_network(&Origin::Root, n, 10, 0), Ok(()));
    }
    p.network_immunity_period = 100;
    p.current_block = 50;
    p.emission_values.insert(0, 5);
    p.emission_values.insert(1, 2);
    p.emission_values.insert(2, 2);
    // all immune: the first-seen minimum wins
    assert_eq!(p.get_subnet_to_prune(), 1);
    // no subnetworks at all
    let empty = Pallet::new();
    assert_eq!(empty.get_subnet_to_prune(), 1);
}

#[test]
fn init_new_network_ex_sets_every_parameter() {
    let mut p = Pallet::new();
    p.init_new_network_ex(
        4, 360, 1, 50, 100, 3, 8, 455, 1_000, 100_000, 900_000, 64, 4_096, 112, 0, 2, 3, 5_000,
        10, 32_767, 1_000, 50, 7_200, true,
    );
    assert_eq!(p.total_networks, 1);
    assert!(p.if_subnet_exist(4));
    assert_eq!(p.get_tempo(4), 360);
    assert_eq!(p.serving_rate_limit.get(4).copied(), Some(50));
    assert_eq!(p.weights_set_rate_limit.get(4).copied(), Some(100));
    assert_eq!(p.weights_version_key.get(4).copied(), Some(3));
    assert_eq!(p.min_allowed_weights.get(4).copied(), Some(8));
    assert_eq!(p.max_weights_limit.get(4).copied(), Some(455));
    assert_eq!(p.min_burn.get(4).copied(), Some(1_000));
    assert_eq!(p.max_burn.get(4).copied(), Some(100_000));
    assert_eq!(p.bonds_moving_average.get(4).copied(), Some(900_000));
    assert_eq!(p.max_allowed_validators.get(4).copied(), Some(64));
    assert_eq!(p.max_allowed_uids.get(4).copied(), Some(4_096));
    assert_eq!(p.adjustment_interval.get(4).copied(), Some(112));
    assert_eq!(p.adjustment_alpha.get(4).copied(), Some(0));
    assert_eq!(p.target_registrations_per_interval.get(4).copied(), Some(2));
    assert_eq!(p.max_registrations_per_block.get(4).copied(), Some(3));
    assert_eq!(p.activity_cutoff.get(4).copied(), Some(5_000));
    assert_eq!(p.rho.get(4).copied(), Some(10));
    assert_eq!(p.kappa.get(4).copied(), Some(32_767));
    assert_eq!(p.validator_prune_len.get(4).copied(), Some(1_000));
    assert_eq!(p.scaling_law_power.get(4).copied(), Some(50));
    assert_eq!(p.immunity_period.get(4).copied(), Some(7_200));
    assert!(p.if_subnet_allows_registration(4));
}

#[test]
fn defaults_are_written_explicitly_at_creation() {
    let mut p = Pallet::new();
    p.defaults.kappa = 32_767;
    p.defaults.difficulty = 10_000;
    assert_eq!(p.do_add_network(&Origin::Root, 6, 10, 0), Ok(()));
    assert_eq!(p.kappa.get(6).copied(), Some(32_767));
    assert_eq!(p.difficulty.get(6).copied(), Some(10_000));
    assert_eq!(p.emission_values.get(6).copied(), Some(0));
    assert!(p.registrations_this_interval.contains_key(6));
}
