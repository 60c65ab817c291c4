use marginfi::account::{
    account_not_frozen_for_authority, get_remaining_accounts_per_asset_tag, is_signer_authorized,
};
use marginfi::emode::reconcile_emode_configs;
use marginfi::state::{
    Balance, EmodeConfig, EmodeEntry, IndexerFlags, LendingAccount, MarginfiAccount, MarginfiError,
    OracleSetup, Pubkey,
};

fn key(n: u64) -> Pubkey {
    Pubkey { w0: n, w1: 0, w2: 0, w3: 0 }
}

fn balance(bank: u64, tag: u16, active: bool) -> Balance {
    Balance {
        active: if active { 1 } else { 0 },
        bank_pk: key(bank),
        bank_asset_tag: 0,
        tag,
        asset_shares: 0,
        liability_shares: 0,
        emissions_outstanding: bank as i128,
        last_update: 0,
    }
}

fn lending(balances: Vec<Balance>, last_tag_used: u16) -> LendingAccount {
    let mut all = balances;
    while all.len() < 16 {
        all.push(Balance::empty_deactivated());
    }
    LendingAccount { balances: all, last_tag_used }
}

fn account(flags: u64) -> MarginfiAccount {
    MarginfiAccount {
        group: key(1),
        authority: key(2),
        lending_account: lending(vec![], 0),
        account_flags: flags,
        emissions_destination_account: key(0),
        migrated_from: key(0),
        migrated_to: key(0),
        last_update: 0,
        indexer_flags: IndexerFlags { is_empty: 0, was_active_30d: 0, was_active_60d: 0, has_isolated: 0 },
        active_orders: 0,
        liquidation_record: key(0),
    }
}

#[test]
fn reserve_tags_skips_used_and_zero() {
    let mut la = lending(vec![balance(1, 1, true), balance(2, 3, true), balance(3, 2, false)], 0);
    let tags = la.reserve_n_tags(2);
    assert_eq!(tags, [2, 4]);
    assert_eq!(la.last_tag_used, 4);
    let one = la.reserve_n_tags(1);
    assert_eq!(one, [5, 0]);
    let none = la.reserve_n_tags(0);
    assert_eq!(none, [0, 0]);
    assert_eq!(la.last_tag_used, 5);
}

#[test]
fn reserve_tags_wraps_past_the_largest_tag() {
    let mut la = lending(vec![balance(1, 1, true)], u16::MAX);
    assert_eq!(la.reserve_n_tags(2), [2, 3]);
    let mut lb = lending(vec![balance(1, u16::MAX, true)], u16::MAX - 1);
    assert_eq!(lb.reserve_n_tags(2), [1, 2]);
}

#[test]
fn sort_is_descending_and_stable_and_lookup_finds() {
    let mut la = lending(
        vec![balance(5, 0, true), balance(9, 0, true), balance(5, 0, false), balance(7, 0, true)],
        0,
    );
    la.balances.truncate(4);
    la.balances[2].emissions_outstanding = 55;
    la.sort_balances();
    let keys: Vec<u64> = la.balances.iter().map(|b| b.bank_pk.w0).collect();
    assert_eq!(keys, vec![9, 7, 5, 5]);
    assert_eq!(la.balances[2].emissions_outstanding, 5);
    assert_eq!(la.balances[3].emissions_outstanding, 55);
    assert_eq!(la.get_balance_index(&key(7)), Ok(1));
    assert_eq!(la.get_balance_index(&key(9)), Ok(0));
    assert_eq!(la.get_balance_index(&key(6)), Err(MarginfiError::LendingAccountBalanceNotFound));
}

#[test]
fn first_empty_balance() {
    let la = lending(vec![balance(1, 0, true), balance(2, 0, false)], 0);
    assert_eq!(la.get_first_empty_balance(), Some(1));
}

#[test]
fn flags_and_orders() {
    let mut a = account(0);
    a.set_flag(64, false);
    assert!(a.get_flag(64));
    a.set_flag(2, false);
    a.unset_flag(64, false);
    assert!(!a.get_flag(64));
    assert!(a.get_flag(2));
    assert_eq!(a.decrement_active_orders(), Err(MarginfiError::IllegalAction));
    assert_eq!(a.increment_active_orders(), Ok(()));
    assert_eq!(a.active_orders, 1);
    assert_eq!(a.decrement_active_orders(), Ok(()));
    a.active_orders = u8::MAX;
    assert_eq!(a.increment_active_orders(), Err(MarginfiError::IllegalAction));
}

#[test]
fn closing_and_initializing() {
    let mut a = account(0);
    assert!(a.can_be_closed());
    a.lending_account.balances[0].asset_shares = 1 << 50;
    assert!(!a.can_be_closed());
    let mut frozen = account(64);
    assert!(!frozen.can_be_closed());
    frozen.initialize(key(10), key(11), 99);
    assert_eq!(frozen.authority, key(11));
    assert_eq!(frozen.last_update, 99);
    assert_eq!(frozen.indexer_flags.was_active_30d, 1);
    assert_eq!(frozen.account_flags, 64);
}

#[test]
fn signer_authorization() {
    let admin = key(1);
    let plain = account(0);
    assert!(is_signer_authorized(&plain, admin, key(2), false, false));
    assert!(!is_signer_authorized(&plain, admin, key(3), false, false));
    let frozen = account(64);
    assert!(is_signer_authorized(&frozen, admin, admin, false, false));
    assert!(!is_signer_authorized(&frozen, admin, key(2), false, false));
    assert!(!account_not_frozen_for_authority(&frozen, key(2)));
    let receivership = account(16);
    assert!(is_signer_authorized(&receivership, admin, key(3), true, false));
    assert!(!is_signer_authorized(&receivership, admin, key(2), true, false));
    let ordering = account(128);
    assert!(is_signer_authorized(&ordering, admin, key(3), false, true));
}

#[test]
fn remaining_accounts_per_tag() {
    assert_eq!(get_remaining_accounts_per_asset_tag(0), Ok(2));
    assert_eq!(get_remaining_accounts_per_asset_tag(3), Ok(3));
    assert_eq!(get_remaining_accounts_per_asset_tag(2), Ok(4));
    assert_eq!(get_remaining_accounts_per_asset_tag(7), Err(MarginfiError::AssetTagMismatch));
}

#[test]
fn oracle_setup_codes() {
    assert_eq!(OracleSetup::from_u8(0), Some(OracleSetup::NoOracle));
    assert_eq!(OracleSetup::from_u8(5), Some(OracleSetup::StakedWithPythPush));
    assert_eq!(OracleSetup::from_u8(17), Some(OracleSetup::FixedJuplend));
    assert_eq!(OracleSetup::from_u8(18), None);
}

fn entry(tag: u16, init: i128, maint: i128) -> EmodeEntry {
    EmodeEntry { collateral_bank_emode_tag: tag, asset_weight_init: init, asset_weight_maint: maint }
}

#[test]
fn emode_reconciliation_keeps_common_tags_with_lowest_weights() {
    let a = EmodeConfig { entries: vec![entry(1, 90, 95), entry(2, 80, 85)] };
    let b = EmodeConfig { entries: vec![entry(2, 70, 90), entry(3, 60, 60)] };
    let r = reconcile_emode_configs(&vec![a.clone(), b]);
    assert_eq!(r.find_with_tag(2), Some(entry(2, 70, 85)));
    assert_eq!(r.find_with_tag(1), None);
    assert_eq!(r.find_with_tag(3), None);
    assert_eq!(reconcile_emode_configs(&vec![]).entries.len(), 0);
    let single = reconcile_emode_configs(&vec![a]);
    assert_eq!(single.find_with_tag(1), Some(entry(1, 90, 95)));
}
