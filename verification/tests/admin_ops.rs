use anchor_lang::prelude::Pubkey as ChainKey;
use fixed::types::I80F48;
use marginfi::admin::{
    bank_address, copy_fee_state_to_v2, derive_single_pool_keys_from_vote_and_validate_owner,
    init_bank_metadata, initialize_fee_state_v2, lending_pool_backfill_bank_is_t22_flag,
    lending_pool_backfill_staked_bank_validator_vote_account, write_bank_metadata, BankMetadata,
    FeeState, FeeStateV2, PanicState,
};
use marginfi::cache::{
    clear_liquidation_price_cache_locks, write_liquidation_price_cache_from, BankAccountWithCache,
    LiquidationPriceCache,
};
use marginfi::emode::RemainingAccount;
use marginfi::output::{account_balances, bank_totals, bank_unclaimed_fees, safe_decimals};
use marginfi::price::{OraclePriceWithConfidence, PriceFeed};
use marginfi::state::{
    Balance, BalanceSide, Bank, BankCache, BankConfig, BankOperationalState, EmodeConfig,
    EmodeSettings, IndexerFlags, LendingAccount, MarginfiAccount, MarginfiError, OracleSetup,
    Pubkey, RiskTier,
};

fn fx(n: i64) -> i128 {
    I80F48::from_num(n).to_bits()
}

fn key(n: u64) -> Pubkey {
    Pubkey { w0: n, w1: n, w2: n, w3: n }
}

fn from_bytes(bytes: [u8; 32]) -> Pubkey {
    let word = |i: usize| {
        let mut w = [0u8; 8];
        w.copy_from_slice(&bytes[8 * i..8 * i + 8]);
        u64::from_be_bytes(w)
    };
    Pubkey { w0: word(0), w1: word(1), w2: word(2), w3: word(3) }
}

fn bank() -> Bank {
    Bank {
        mint: key(1000),
        mint_decimals: 6,
        group: key(2000),
        asset_share_value: fx(1),
        liability_share_value: fx(1),
        collected_insurance_fees_outstanding: 0,
        collected_group_fees_outstanding: 0,
        total_liability_shares: 0,
        total_asset_shares: fx(3_000_000),
        config: BankConfig {
            asset_weight_init: fx(1),
            asset_weight_maint: fx(1),
            liability_weight_init: fx(1),
            liability_weight_maint: fx(1),
            deposit_limit: u64::MAX,
            borrow_limit: u64::MAX,
            operational_state: BankOperationalState::Operational,
            risk_tier: RiskTier::Collateral,
            asset_tag: 0,
            oracle_setup: OracleSetup::PythPushOracle,
            oracle_keys: vec![key(3000), key(3001), key(3002), key(0), key(0)],
            total_asset_value_init_limit: 0,
        },
        flags: 0,
        emode: EmodeSettings { emode_tag: 0, emode_config: EmodeConfig { entries: vec![] } },
        cache: BankCache {
            liquidation_price_rt: 0,
            liquidation_price_rt_confidence: 0,
            liquidation_price_twap: 0,
            liquidation_price_twap_confidence: 0,
            liquidation_price_cache_locked: true,
        },
        lending_position_count: 0,
        borrowing_position_count: 0,
        integration_acc_1: Pubkey::default_key(),
        bank_seed: 0,
    }
}

fn chain_bank_address(group: &Pubkey, mint: &Pubkey, seed: u64, program: &Pubkey) -> [u8; 32] {
    let program = ChainKey::new_from_array(program.to_bytes());
    let (address, _) = ChainKey::find_program_address(
        &[&group.to_bytes()[..], &mint.to_bytes()[..], &seed.to_le_bytes()[..]],
        &program,
    );
    address.to_bytes()
}

fn empty_metadata() -> BankMetadata {
    BankMetadata {
        bank: key(1),
        bump: 3,
        ticker: [7u8; 64],
        description: [7u8; 256],
        end_ticker_byte: 9,
        end_description_byte: 9,
    }
}

fn account(balances: Vec<Balance>) -> MarginfiAccount {
    MarginfiAccount {
        group: key(2000),
        authority: key(1),
        lending_account: LendingAccount { balances, last_tag_used: 0 },
        account_flags: 0,
        emissions_destination_account: Pubkey::default_key(),
        migrated_from: Pubkey::default_key(),
        migrated_to: Pubkey::default_key(),
        last_update: 0,
        indexer_flags: IndexerFlags { is_empty: 0, was_active_30d: 0, was_active_60d: 0, has_isolated: 0 },
        active_orders: 0,
        liquidation_record: Pubkey::default_key(),
    }
}

fn active_balance(bank_pk: Pubkey, asset_shares: i128, liability_shares: i128) -> Balance {
    Balance {
        active: 1,
        bank_pk,
        bank_asset_tag: 0,
        tag: 0,
        asset_shares,
        liability_shares,
        emissions_outstanding: 0,
        last_update: 0,
    }
}

#[test]
fn key_bytes_are_big_endian_words() {
    let k = Pubkey { w0: 0x0102030405060708, w1: 0, w2: 0, w3: 0xff };
    let b = k.to_bytes();
    assert_eq!(&b[0..8], &[1, 2, 3, 4, 5, 6, 7, 8]);
    assert_eq!(b[31], 0xff);
    assert!(k.has_bytes(&b));
    assert!(!key(1).has_bytes(&b));
}

#[test]
fn bank_address_is_the_program_derived_address() {
    let program = key(42);
    let derived = bank_address(&key(5), &key(6), 7, &program).unwrap();
    assert_eq!(derived, chain_bank_address(&key(5), &key(6), 7, &program));
    assert_ne!(derived, program.to_bytes());
    assert_ne!(derived, bank_address(&key(5), &key(6), 8, &program).unwrap());
}

#[test]
fn write_bank_metadata_pads_and_records_last_byte() {
    let mut m = empty_metadata();
    write_bank_metadata(&mut m, Some(b"USDC".to_vec()), Some(vec![])).unwrap();
    assert_eq!(&m.ticker[..5], b"USDC\0");
    assert!(m.ticker[4..].iter().all(|b| *b == 0));
    assert_eq!(m.end_ticker_byte, 3);
    assert!(m.description.iter().all(|b| *b == 0));
    assert_eq!(m.end_description_byte, 0);
    assert_eq!(m.bank, key(1));
}

#[test]
fn write_bank_metadata_refuses_long_values() {
    let mut m = empty_metadata();
    assert_eq!(
        write_bank_metadata(&mut m, Some(vec![1u8; 65]), None),
        Err(MarginfiError::MetadataTooLong)
    );
    assert_eq!(m, empty_metadata());
    assert_eq!(
        write_bank_metadata(&mut m, Some(vec![1u8; 64]), Some(vec![2u8; 257])),
        Err(MarginfiError::MetadataTooLong)
    );
    assert_eq!(m.end_ticker_byte, 63);
    assert_eq!(m.description, [7u8; 256]);
}

#[test]
fn init_bank_metadata_checks_seeded_banks() {
    let program = key(42);
    let mut b = bank();
    b.bank_seed = 11;
    b.flags = 256;
    let good = from_bytes(chain_bank_address(&b.group, &b.mint, 11, &program));
    let m = init_bank_metadata(&good, Some(&b), &program, 254).unwrap();
    assert_eq!(m.bank, good);
    assert_eq!(m.bump, 254);
    assert_eq!(m.ticker, [0u8; 64]);
    assert_eq!(
        init_bank_metadata(&key(9), Some(&b), &program, 254).err(),
        Some(MarginfiError::InvalidBankAccount)
    );
    b.flags = 0;
    assert!(init_bank_metadata(&key(9), Some(&b), &program, 254).is_ok());
    assert!(init_bank_metadata(&key(9), None, &program, 254).is_ok());
}

#[test]
fn backfill_t22_and_seed() {
    let mainnet = key(50);
    let staging = key(51);
    let token_2022 = key(52);
    let mut b = bank();
    let derived = from_bytes(chain_bank_address(&key(2000), &key(1000), 4, &staging));
    let r = lending_pool_backfill_bank_is_t22_flag(
        &mut b, &derived, &key(2000), &key(1000), &token_2022, Some(4), &staging, &mainnet,
        &staging, &mainnet, &token_2022,
    );
    assert_eq!(r, Ok(()));
    assert_eq!(b.bank_seed, 4);
    assert_eq!(b.flags, 256 | 128);

    let mut c = bank();
    let r = lending_pool_backfill_bank_is_t22_flag(
        &mut c, &derived, &key(2000), &key(1000), &key(1), Some(4), &mainnet, &mainnet, &staging,
        &mainnet, &token_2022,
    );
    assert_eq!(r, Err(MarginfiError::InvalidBankAccount));
    assert_eq!(c, bank());
    let r = lending_pool_backfill_bank_is_t22_flag(
        &mut c, &derived, &key(2000), &key(1000), &key(1), None, &mainnet, &mainnet, &staging,
        &mainnet, &token_2022,
    );
    assert_eq!(r, Ok(()));
    assert_eq!(c.flags, 0);
}

#[test]
fn staked_bank_vote_account_backfill() {
    let vote_program = key(60);
    let single_pool = key(61);
    let vote = key(62);
    let (pool, mint, sol_pool) =
        derive_single_pool_keys_from_vote_and_validate_owner(&vote, &vote_program, &vote_program, &single_pool)
            .unwrap();
    let chain_single = ChainKey::new_from_array(single_pool.to_bytes());
    let (chain_pool, _) =
        ChainKey::find_program_address(&[&b"pool"[..], &vote.to_bytes()[..]], &chain_single);
    assert_eq!(pool, chain_pool.to_bytes());
    assert_eq!(
        derive_single_pool_keys_from_vote_and_validate_owner(&vote, &key(1), &vote_program, &single_pool)
            .err(),
        Some(MarginfiError::StakePoolValidationFailed)
    );

    let mut b = bank();
    b.config.asset_tag = 2;
    b.config.oracle_setup = OracleSetup::StakedWithPythPush;
    b.mint = from_bytes(mint);
    b.config.oracle_keys[1] = from_bytes(mint);
    b.config.oracle_keys[2] = from_bytes(sol_pool);
    let mut staked = b.clone();
    assert_eq!(
        lending_pool_backfill_staked_bank_validator_vote_account(
            &mut staked, &vote, &vote_program, &vote_program, &single_pool
        ),
        Ok(())
    );
    assert_eq!(staked.integration_acc_1, vote);
    assert_eq!(
        lending_pool_backfill_staked_bank_validator_vote_account(
            &mut staked, &key(63), &vote_program, &vote_program, &single_pool
        ),
        Err(MarginfiError::StakePoolValidationFailed)
    );
    let mut plain = bank();
    assert_eq!(
        lending_pool_backfill_staked_bank_validator_vote_account(
            &mut plain, &vote, &vote_program, &vote_program, &single_pool
        ),
        Err(MarginfiError::AssetTagMismatch)
    );
}

#[test]
fn fee_state_copy_keeps_identity() {
    let panic = PanicState {
        pause_flags: 1,
        daily_pause_count: 2,
        consecutive_pause_count: 3,
        pause_start_timestamp: 4,
        last_daily_reset_timestamp: 5,
    };
    let v1 = FeeState {
        key: key(1),
        global_fee_admin: key(2),
        global_fee_wallet: key(3),
        placeholder0: 4,
        bank_init_flat_sol_fee: 5,
        bump_seed: 6,
        liquidation_max_fee: 7,
        program_fee_fixed: 8,
        program_fee_rate: 9,
        panic_state: panic,
        placeholder1: 10,
        liquidation_flat_sol_fee: 11,
        order_init_flat_sol_fee: 12,
        order_execution_max_fee: 13,
        pause_delegate_admin: key(14),
    };
    let mut v2 = FeeStateV2 {
        key: key(0),
        global_fee_admin: key(0),
        global_fee_wallet: key(0),
        placeholder0: 0,
        bank_init_flat_sol_fee: 0,
        bump_seed: 0,
        liquidation_max_fee: 0,
        program_fee_fixed: 0,
        program_fee_rate: 0,
        panic_state: PanicState {
            pause_flags: 0,
            daily_pause_count: 0,
            consecutive_pause_count: 0,
            pause_start_timestamp: 0,
            last_daily_reset_timestamp: 0,
        },
        placeholder1: 0,
        liquidation_flat_sol_fee: 0,
        order_init_flat_sol_fee: 0,
        order_execution_max_fee: 0,
        pause_delegate_admin: key(0),
    };
    initialize_fee_state_v2(&mut v2, key(99), 250);
    copy_fee_state_to_v2(&v1, &mut v2);
    assert_eq!(v2.key, key(99));
    assert_eq!(v2.bump_seed, 250);
    assert_eq!(v2.global_fee_admin, key(2));
    assert_eq!(v2.order_execution_max_fee, 13);
    assert_eq!(v2.panic_state, panic);
}

#[test]
fn load_matches_balances_with_banks() {
    let acc = account(vec![
        active_balance(key(7), fx(1), 0),
        Balance::empty_deactivated(),
        active_balance(key(8), fx(1), 0),
    ]);
    let mut b8 = bank();
    b8.config.oracle_setup = OracleSetup::Fixed;
    let banks_only = vec![
        RemainingAccount { key: key(7), bank: Some(bank()) },
        RemainingAccount { key: key(8), bank: Some(b8.clone()) },
    ];
    let loaded = BankAccountWithCache::load(&acc.lending_account, &banks_only).unwrap();
    assert_eq!(
        loaded,
        vec![
            BankAccountWithCache { account_index: 0, balance_index: 0 },
            BankAccountWithCache { account_index: 1, balance_index: 2 },
        ]
    );
    let with_oracles = vec![
        RemainingAccount { key: key(7), bank: Some(bank()) },
        RemainingAccount { key: key(70), bank: None },
        RemainingAccount { key: key(8), bank: Some(b8.clone()) },
    ];
    let loaded = BankAccountWithCache::load(&acc.lending_account, &with_oracles).unwrap();
    assert_eq!(loaded[1].account_index, 2);
    let wrong = vec![
        RemainingAccount { key: key(8), bank: Some(bank()) },
        RemainingAccount { key: key(7), bank: Some(bank()) },
    ];
    assert_eq!(
        BankAccountWithCache::load(&acc.lending_account, &wrong).err(),
        Some(MarginfiError::InvalidBankAccount)
    );
    let short = vec![RemainingAccount { key: key(7), bank: Some(bank()) }, RemainingAccount { key: key(70), bank: None }, RemainingAccount { key: key(71), bank: None }];
    assert_eq!(
        BankAccountWithCache::load(&acc.lending_account, &short).err(),
        Some(MarginfiError::AccountNotABank)
    );
}

#[test]
fn cache_locks_written_and_cleared() {
    let acc = account(vec![active_balance(key(7), fx(1), 0)]);
    let mut remaining = vec![RemainingAccount { key: key(7), bank: Some(bank()) }];
    clear_liquidation_price_cache_locks(&acc, &mut remaining).unwrap();
    assert!(!remaining[0].bank.as_ref().unwrap().cache.liquidation_price_cache_locked);
    let feed = PriceFeed {
        real_time: OraclePriceWithConfidence { price: fx(2), confidence: fx(1) },
        time_weighted: OraclePriceWithConfidence { price: fx(3), confidence: 0 },
    };
    let cache = LiquidationPriceCache {
        real_time: vec![Some(feed.real_time)],
        time_weighted: vec![Some(feed.time_weighted)],
    };
    write_liquidation_price_cache_from(&acc, &mut remaining, &cache).unwrap();
    let c = remaining[0].bank.as_ref().unwrap().cache;
    assert!(c.liquidation_price_cache_locked);
    assert_eq!(c.liquidation_price_rt, fx(2));
    assert_eq!(c.liquidation_price_twap, fx(3));
    let empty = LiquidationPriceCache { real_time: vec![], time_weighted: vec![] };
    write_liquidation_price_cache_from(&acc, &mut remaining, &empty).unwrap();
    assert_eq!(remaining[0].bank.as_ref().unwrap().cache.liquidation_price_rt, 0);
    let mut missing: Vec<RemainingAccount> = vec![];
    assert_eq!(
        clear_liquidation_price_cache_locks(&acc, &mut missing),
        Err(MarginfiError::InvalidBankAccount)
    );
}

#[test]
fn display_amounts() {
    let b = bank();
    assert_eq!(safe_decimals(&b), 6);
    let mut wide = bank();
    wide.mint_decimals = 40;
    assert_eq!(safe_decimals(&wide), 23);
    assert_eq!(bank_totals(&b), (fx(3), 0));
    let mut fees = bank();
    fees.collected_group_fees_outstanding = fx(1_500_000);
    fees.collected_insurance_fees_outstanding = fx(250_000);
    assert_eq!(
        bank_unclaimed_fees(&fees),
        (I80F48::from_num(1.5).to_bits(), I80F48::from_num(0.25).to_bits())
    );
    let acc = account(vec![
        active_balance(key(7), fx(2_500_000), 0),
        active_balance(key(8), 0, fx(1_000_000)),
        active_balance(key(9), fx(1), 0),
    ]);
    let banks = vec![(key(7), bank()), (key(8), bank())];
    let rows = account_balances(&acc, &banks);
    assert_eq!(rows.len(), 2);
    assert_eq!(rows[0].side, BalanceSide::Assets);
    assert_eq!(rows[0].amount, I80F48::from_num(2.5).to_bits());
    assert_eq!(rows[1].side, BalanceSide::Liabilities);
    assert_eq!(rows[1].amount, fx(1));
    let reordered = vec![(key(8), bank()), (key(7), bank())];
    assert_eq!(account_balances(&acc, &reordered), rows);
}

#[test]
fn backfills_are_idempotent() {
    let mainnet = key(50);
    let token_2022 = key(52);
    let mut b = bank();
    let derived = from_bytes(chain_bank_address(&key(2000), &key(1000), 9, &mainnet));
    for _ in 0..2 {
        assert_eq!(
            lending_pool_backfill_bank_is_t22_flag(
                &mut b, &derived, &key(2000), &key(1000), &token_2022, Some(9), &mainnet,
                &mainnet, &key(51), &mainnet, &token_2022,
            ),
            Ok(())
        );
    }
    assert_eq!(b.flags, 256 | 128);
    assert_eq!(b.bank_seed, 9);

    let vote_program = key(60);
    let single_pool = key(61);
    let vote = key(62);
    let (_, mint, sol_pool) =
        derive_single_pool_keys_from_vote_and_validate_owner(&vote, &vote_program, &vote_program, &single_pool)
            .unwrap();
    let mut s = bank();
    s.config.asset_tag = 2;
    s.config.oracle_setup = OracleSetup::StakedWithPythPush;
    s.mint = from_bytes(mint);
    s.config.oracle_keys[1] = from_bytes(mint);
    s.config.oracle_keys[2] = from_bytes(sol_pool);
    for _ in 0..2 {
        assert_eq!(
            lending_pool_backfill_staked_bank_validator_vote_account(
                &mut s, &vote, &vote_program, &vote_program, &single_pool
            ),
            Ok(())
        );
        assert_eq!(s.integration_acc_1, vote);
    }
}
