use fixed::types::I80F48;
use marginfi::price::{calc_amount, calc_value, exp_10_i80f48};
use marginfi::state::{
    Balance, BalanceSide, Bank, BankCache, BankConfig, BankOperationalState, EmodeConfig,
    EmodeSettings, LendingAccount, MarginfiError, OracleSetup, Pubkey, RiskTier,
};
use marginfi::wrapper::{
    is_positive_with_tolerance, is_zero_with_tolerance, BankAccountWrapper,
};

fn fx(n: i64) -> i128 {
    I80F48::from_num(n).to_bits()
}

fn key(n: u64) -> Pubkey {
    Pubkey { w0: n, w1: 0, w2: 0, w3: 0 }
}

fn bank(share_value: i128) -> Bank {
    Bank {
        mint: key(1000),
        mint_decimals: 6,
        group: key(2000),
        asset_share_value: share_value,
        liability_share_value: share_value,
        collected_insurance_fees_outstanding: 0,
        collected_group_fees_outstanding: 0,
        total_liability_shares: 0,
        total_asset_shares: 0,
        config: BankConfig {
            asset_weight_init: fx(1),
            asset_weight_maint: fx(1),
            liability_weight_init: fx(1),
            liability_weight_maint: fx(1),
            deposit_limit: u64::MAX,
            borrow_limit: u64::MAX,
            operational_state: BankOperationalState::Operational,
            risk_tier: RiskTier::Collateral,
            asset_tag: 0,
            oracle_setup: OracleSetup::PythPushOracle,
            oracle_keys: vec![key(3000)],
            total_asset_value_init_limit: 0,
        },
        flags: 0,
        emode: EmodeSettings { emode_tag: 0, emode_config: EmodeConfig { entries: vec![] } },
        cache: BankCache {
            liquidation_price_rt: 0,
            liquidation_price_rt_confidence: 0,
            liquidation_price_twap: 0,
            liquidation_price_twap_confidence: 0,
            liquidation_price_cache_locked: true,
        },
        lending_position_count: 0,
        borrowing_position_count: 0,
        integration_acc_1: Pubkey::default_key(),
        bank_seed: 0,
    }
}

fn empty_account() -> LendingAccount {
    LendingAccount { balances: vec![Balance::empty_deactivated(); 16], last_tag_used: 0 }
}

fn wrapper_for(bank_value: Bank) -> BankAccountWrapper {
    let mut account = empty_account();
    BankAccountWrapper::find_or_create(&key(7), bank_value, &mut account, 1_700_000_000).unwrap()
}

#[test]
fn test_calc_asset_value() {
    assert_eq!(
        calc_value(
            I80F48::from_num(10_000_000).to_bits(),
            I80F48::from_num(1_000_000).to_bits(),
            6,
            None
        )
        .unwrap(),
        I80F48::from_num(10_000_000).to_bits()
    );

    assert_eq!(
        calc_value(
            I80F48::from_num(1_000_000_000).to_bits(),
            I80F48::from_num(10_000_000).to_bits(),
            9,
            None
        )
        .unwrap(),
        I80F48::from_num(10_000_000).to_bits()
    );

    assert_eq!(
        calc_value(
            I80F48::from_num(1_000_000_000).to_bits(),
            I80F48::from_num(10_000_000).to_bits(),
            9,
            None
        )
        .unwrap(),
        I80F48::from_num(10_000_000).to_bits()
    );
}

#[test]
fn calc_value_applies_weight_and_zero_amount_is_zero() {
    let half = I80F48::from_num(0.5).to_bits();
    assert_eq!(calc_value(fx(2_000_000), fx(3), 6, Some(half)).unwrap(), fx(3));
    assert_eq!(calc_value(0, fx(3), 30, None).unwrap(), 0);
}

#[test]
fn calc_amount_inverts_calc_value() {
    let value = calc_value(fx(5_000_000), fx(2), 6, None).unwrap();
    assert_eq!(value, fx(10));
    assert_eq!(calc_amount(value, fx(2), 6).unwrap(), fx(5_000_000));
}

#[test]
fn exp_10_table() {
    assert_eq!(exp_10_i80f48(0), fx(1));
    assert_eq!(exp_10_i80f48(6), fx(1_000_000));
}

#[test]
fn tolerance_helpers() {
    assert!(is_positive_with_tolerance(28_147_497_672));
    assert!(!is_positive_with_tolerance(28_147_497_671));
    assert!(is_zero_with_tolerance(-28_147_497_670));
    assert!(!is_zero_with_tolerance(-28_147_497_671));
}

#[test]
fn find_or_create_opens_a_slot_and_find_sees_it() {
    let mut account = empty_account();
    let w = BankAccountWrapper::find_or_create(&key(7), bank(fx(1)), &mut account, 42).unwrap();
    assert_eq!(w.balance_index, 0);
    assert!(account.balances[0].is_active());
    assert_eq!(account.balances[0].bank_pk, key(7));
    assert_eq!(account.balances[0].last_update, 42);
    let found = BankAccountWrapper::find(&key(7), bank(fx(1)), &account).unwrap();
    assert_eq!(found.balance_index, 0);
    assert_eq!(
        BankAccountWrapper::find(&key(8), bank(fx(1)), &account).err(),
        Some(MarginfiError::BankAccountNotFound)
    );
}

#[test]
fn find_or_create_full_account() {
    let mut account = empty_account();
    for i in 0..16u64 {
        BankAccountWrapper::find_or_create(&key(100 + i), bank(fx(1)), &mut account, 1).unwrap();
    }
    assert_eq!(
        BankAccountWrapper::find_or_create(&key(999), bank(fx(1)), &mut account, 1).err(),
        Some(MarginfiError::LendingAccountBalanceSlotsFull)
    );
}

#[test]
fn find_or_create_integration_limit() {
    let mut account = empty_account();
    let mut kamino = bank(fx(1));
    kamino.config.asset_tag = 3;
    for i in 0..8u64 {
        BankAccountWrapper::find_or_create(&key(100 + i), kamino.clone(), &mut account, 1).unwrap();
    }
    assert_eq!(
        BankAccountWrapper::find_or_create(&key(999), kamino, &mut account, 1).err(),
        Some(MarginfiError::IntegrationPositionLimitExceeded)
    );
}

#[test]
fn deposit_then_withdraw_all() {
    let mut w = wrapper_for(bank(fx(1)));
    w.deposit(I80F48::from_num(100.5).to_bits()).unwrap();
    assert_eq!(w.balance.asset_shares, I80F48::from_num(100.5).to_bits());
    assert_eq!(w.bank.total_asset_shares, I80F48::from_num(100.5).to_bits());
    assert_eq!(w.bank.lending_position_count, 1);
    let paid = w.withdraw_all(true).unwrap();
    assert_eq!(paid, 100);
    assert!(!w.balance.is_active());
    assert_eq!(w.bank.total_asset_shares, 0);
    assert_eq!(w.bank.lending_position_count, 0);
    assert_eq!(w.bank.collected_insurance_fees_outstanding, I80F48::from_num(0.5).to_bits());
    assert!(!w.bank.cache.liquidation_price_cache_locked);
}

#[test]
fn deposit_with_share_value_two_gives_half_the_shares() {
    let mut w = wrapper_for(bank(fx(2)));
    w.deposit(fx(10)).unwrap();
    assert_eq!(w.balance.asset_shares, fx(5));
}

#[test]
fn deposit_refuses_to_repay() {
    let mut w = wrapper_for(bank(fx(1)));
    w.borrow_setup();
    assert_eq!(w.deposit(fx(1)), Err(MarginfiError::OperationDepositOnly));
}

trait BorrowSetup {
    fn borrow_setup(&mut self);
}

impl BorrowSetup for BankAccountWrapper {
    fn borrow_setup(&mut self) {
        self.bank.total_asset_shares = fx(1_000);
        self.borrow(fx(10)).unwrap();
    }
}

#[test]
fn borrow_then_repay_all_rounds_up() {
    let mut w = wrapper_for(bank(fx(1)));
    w.bank.total_asset_shares = fx(1_000);
    w.borrow(I80F48::from_num(10.25).to_bits()).unwrap();
    assert_eq!(w.bank.borrowing_position_count, 1);
    assert_eq!(w.balance.liability_shares, I80F48::from_num(10.25).to_bits());
    let paid = w.repay_all(false).unwrap();
    assert_eq!(paid, 11);
    assert_eq!(w.bank.total_liability_shares, 0);
    assert_eq!(w.bank.borrowing_position_count, 0);
    assert_eq!(w.bank.collected_insurance_fees_outstanding, I80F48::from_num(0.75).to_bits());
    assert!(w.bank.cache.liquidation_price_cache_locked);
}

#[test]
fn repay_refuses_to_deposit() {
    let mut w = wrapper_for(bank(fx(1)));
    w.borrow_setup();
    assert_eq!(w.repay(fx(11)), Err(MarginfiError::OperationRepayOnly));
    assert_eq!(w.repay(fx(10)), Ok(()));
    assert_eq!(w.balance.liability_shares, 0);
}

#[test]
fn withdraw_refuses_to_borrow_and_borrow_refuses_to_withdraw() {
    let mut w = wrapper_for(bank(fx(1)));
    w.deposit(fx(5)).unwrap();
    assert_eq!(w.withdraw(fx(6)), Err(MarginfiError::OperationWithdrawOnly));
    assert_eq!(w.borrow(fx(1)), Err(MarginfiError::OperationBorrowOnly));
    assert_eq!(w.withdraw(fx(5)), Ok(()));
    assert_eq!(w.bank.lending_position_count, 0);
}

#[test]
fn borrow_checks_utilization() {
    let mut w = wrapper_for(bank(fx(1)));
    assert_eq!(w.borrow(fx(1)), Err(MarginfiError::IllegalUtilizationRatio));
}

#[test]
fn bypass_borrow_limit_flips_deposit_into_debt() {
    let mut w = wrapper_for(bank(fx(1)));
    w.deposit(fx(5)).unwrap();
    w.withdraw_ignore_borrow_cap(fx(8)).unwrap();
    assert_eq!(w.balance.asset_shares, 0);
    assert_eq!(w.balance.liability_shares, fx(3));
    assert_eq!(w.bank.lending_position_count, 0);
    assert_eq!(w.bank.borrowing_position_count, 1);
    w.deposit_ignore_deposit_cap(fx(4)).unwrap();
    assert_eq!(w.balance.liability_shares, 0);
    assert_eq!(w.balance.asset_shares, fx(1));
}

#[test]
fn deposit_limit_is_enforced() {
    let mut b = bank(fx(1));
    b.config.deposit_limit = 10;
    let mut w = wrapper_for(b);
    assert_eq!(w.deposit(fx(10)), Err(MarginfiError::BankAssetCapacityExceeded));
    // The refused step has already moved the shares; the transaction is expected to revert.
    assert_eq!(w.balance.asset_shares, fx(10));
    assert_eq!(w.bank.total_asset_shares, fx(10));
    assert_eq!(w.bank.lending_position_count, 0);
    let mut b = bank(fx(1));
    b.config.deposit_limit = 10;
    let mut w = wrapper_for(b);
    assert_eq!(w.deposit(fx(9)), Ok(()));
    assert_eq!(w.deposit_ignore_deposit_cap(fx(5)), Ok(()));
}

#[test]
fn withdraw_all_without_deposit() {
    let mut w = wrapper_for(bank(fx(1)));
    assert_eq!(w.withdraw_all(false), Err(MarginfiError::NoAssetFound));
    assert_eq!(w.repay_all(false), Err(MarginfiError::NoLiabilityFound));
}

#[test]
fn close_balance_requires_empty_sides() {
    let mut w = wrapper_for(bank(fx(1)));
    w.deposit(fx(1)).unwrap();
    assert_eq!(w.close_balance(false), Err(MarginfiError::IllegalBalanceState));
    let mut w = wrapper_for(bank(fx(1)));
    assert_eq!(w.close_balance(true), Ok(()));
    assert!(!w.balance.is_active());
    assert!(!w.bank.cache.liquidation_price_cache_locked);
}

#[test]
fn balance_sides() {
    let mut b = Balance::empty_deactivated();
    assert!(b.is_empty(BalanceSide::Assets));
    b.change_asset_shares(fx(2)).unwrap();
    assert_eq!(b.get_side(), Some(BalanceSide::Assets));
    assert_eq!(b.change_asset_shares(i128::MAX), Err(MarginfiError::MathError));
    assert_eq!(b.asset_shares, fx(2));
}

#[test]
fn shares_bought_are_worth_at_most_the_deposit() {
    let b = bank(fx(3));
    for amount in [fx(10), fx(1), 7, I80F48::from_num(0.3).to_bits()] {
        let shares = b.get_asset_shares(amount).unwrap();
        let worth = b.get_asset_amount(shares).unwrap();
        assert!(0 <= worth && worth <= amount);
    }
}
