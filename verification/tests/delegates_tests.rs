use subtensor::account::AccountId;
use subtensor::state::{Origin, Pallet};

fn acct(tag: u8) -> AccountId {
    AccountId::from_bytes(vec![tag; 32])
}

#[test]
fn get_delegate_rejects_malformed_and_unknown_accounts() {
    let p = Pallet::new();
    assert!(p.get_delegate(vec![1; 31]).is_none());
    assert!(p.get_delegate(vec![1; 33]).is_none());
    assert!(p.get_delegate(vec![1; 32]).is_none());
}

#[test]
fn snapshot_drops_zero_stake_nominators() {
    let mut p = Pallet::new();
    let delegate = acct(1);
    let nominator_a = acct(2);
    let nominator_b = acct(3);
    p.delegates.insert(delegate.clone(), 10);
    p.stake.set_stake(delegate.clone(), nominator_a.clone(), 50);
    p.stake.set_stake(delegate.clone(), nominator_b.clone(), 0);
    let info = p.get_delegate(delegate.bytes.clone()).unwrap();
    assert_eq!(info.nominators.len(), 1);
    assert_eq!(info.nominators[0].0.bytes, nominator_a.bytes);
    assert_eq!(info.nominators[0].1, 50);
    for (_, stake) in info.nominators.iter() {
        assert!(*stake != 0);
    }
    assert_eq!(info.take, 10);
    assert_eq!(info.delegate_ss58.bytes, delegate.bytes);
}

#[test]
fn total_delegated_stake_excludes_owner() {
    let mut p = Pallet::new();
    let delegate = acct(1);
    let owner = acct(2);
    let nominator = acct(3);
    p.delegates.insert(delegate.clone(), 0);
    p.owner.insert(delegate.clone(), owner.clone());
    p.stake.set_stake(delegate.clone(), owner.clone(), 100);
    p.stake.set_stake(delegate.clone(), nominator, 50);
    assert_eq!(p.get_total_delegated_stake(&delegate), 50);
    // an account that is no delegate reports zero
    assert_eq!(p.get_total_delegated_stake(&acct(9)), 0);
}

#[test]
fn projected_returns_for_single_neuron() {
    let mut p = Pallet::new();
    let delegate = acct(1);
    assert_eq!(p.do_add_network(&Origin::Root, 5, 100, 0), Ok(()));
    p.uids.insert(5, delegate.clone(), 0);
    p.emission.insert(5, vec![10]);
    p.validator_permit.insert(5, vec![true]);
    p.delegates.insert(delegate.clone(), 11);
    p.total_hotkey_stake.insert(delegate.clone(), 1000);
    let info = p.get_delegate(delegate.bytes.clone()).unwrap();
    assert_eq!(info.registrations, vec![5]);
    assert_eq!(info.validator_permits, vec![5]);
    // 10 emission per epoch, 7200 / 100 epochs a day
    assert_eq!(info.total_daily_return, 720);
    // 720 * 0.82 / (1000 / 1000), truncated
    assert_eq!(info.return_per_1000, 590);
}

#[test]
fn zero_tempo_contributes_nothing() {
    let mut p = Pallet::new();
    let delegate = acct(1);
    assert_eq!(p.do_add_network(&Origin::Root, 2, 0, 0), Ok(()));
    p.uids.insert(2, delegate.clone(), 0);
    p.emission.insert(2, vec![10]);
    p.delegates.insert(delegate.clone(), 0);
    let info = p.get_delegate(delegate.bytes.clone()).unwrap();
    assert_eq!(info.total_daily_return, 0);
    assert_eq!(info.return_per_1000, 0);
}

#[test]
fn no_validator_permit_for_missing_slot() {
    let mut p = Pallet::new();
    let delegate = acct(1);
    assert_eq!(p.do_add_network(&Origin::Root, 3, 50, 0), Ok(()));
    p.uids.insert(3, delegate.clone(), 1);
    // the permit row has only one slot, so slot 1 is out of range
    p.validator_permit.insert(3, vec![true]);
    p.emission.insert(3, vec![4, 9]);
    p.delegates.insert(delegate.clone(), 0);
    let info = p.get_delegate(delegate.bytes.clone()).unwrap();
    assert_eq!(info.registrations, vec![3]);
    assert!(info.validator_permits.is_empty());
    // slot 1's emission still projects: 9 * (7200 / 50) = 1296
    assert_eq!(info.total_daily_return, 1296);
}

#[test]
fn get_delegates_lists_every_delegate() {
    let mut p = Pallet::new();
    let d1 = acct(1);
    let d2 = acct(2);
    p.delegates.insert(d1.clone(), 5);
    p.delegates.insert(d2.clone(), 6);
    p.stake.set_stake(d1.clone(), acct(3), 40);
    let all = p.get_delegates();
    assert_eq!(all.len(), 2);
    assert_eq!(all[0].delegate_ss58.bytes, d1.bytes);
    assert_eq!(all[0].take, 5);
    assert_eq!(all[0].nominators.len(), 1);
    assert_eq!(all[1].delegate_ss58.bytes, d2.bytes);
    assert_eq!(all[1].nominators.len(), 0);
}

#[test]
fn get_delegated_keeps_only_nonzero_stakes() {
    let mut p = Pallet::new();
    let d1 = acct(1);
    let d2 = acct(2);
    let staker = acct(7);
    p.delegates.insert(d1.clone(), 0);
    p.delegates.insert(d2.clone(), 0);
    p.stake.set_stake(d1.clone(), staker.clone(), 300);
    p.stake.set_stake(d2.clone(), staker.clone(), 0);
    let listed = p.get_delegated(staker.bytes.clone());
    assert_eq!(listed.len(), 1);
    assert_eq!(listed[0].0.delegate_ss58.bytes, d1.bytes);
    assert_eq!(listed[0].1, 300);
    // a malformed account byte string yields nothing
    assert!(p.get_delegated(vec![7; 16]).is_empty());
}

#[test]
fn owner_and_take_default_when_unset() {
    let mut p = Pallet::new();
    let delegate = acct(1);
    p.delegates.insert(delegate.clone(), 0);
    let info = p.get_delegate(delegate.bytes.clone()).unwrap();
    assert!(info.owner_ss58.bytes.is_empty());
    assert_eq!(info.take, 0);
    assert_eq!(info.total_daily_return, 0);
}
