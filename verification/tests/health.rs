use fixed::types::I80F48;
use marginfi::checks::{
    check_account_bankrupt, check_account_init_health, check_account_risk_tiers,
    check_post_liquidation_condition_and_get_account_health,
    check_pre_liquidation_condition_and_get_account_health, compute_has_isolated_liability_flag,
};
use marginfi::cache::{write_liquidation_price_cache_from, LiquidationPriceCache};
use marginfi::emode::RemainingAccount;
use marginfi::health::{get_health_components, HealthCache, HealthPriceMode};
use marginfi::price::{apply_price_bias, OraclePriceWithConfidence, PriceFeed};
use marginfi::state::{
    Balance, Bank, BankCache, BankConfig, BankOperationalState, EmodeConfig, EmodeSettings,
    IndexerFlags, LendingAccount, MarginfiAccount, MarginfiError, OracleSetup, PriceBias, Pubkey,
    RequirementType, RiskTier,
};

fn fx(x: f64) -> i128 {
    I80F48::from_num(x).to_bits()
}

fn key(n: u64) -> Pubkey {
    Pubkey { w0: n, w1: 0, w2: 0, w3: 0 }
}

fn bank(asset_weight: f64, liability_weight: f64) -> Bank {
    Bank {
        mint: key(1000),
        mint_decimals: 6,
        group: key(2000),
        asset_share_value: fx(1.0),
        liability_share_value: fx(1.0),
        collected_insurance_fees_outstanding: 0,
        collected_group_fees_outstanding: 0,
        total_liability_shares: 0,
        total_asset_shares: 0,
        config: BankConfig {
            asset_weight_init: fx(asset_weight),
            asset_weight_maint: fx(asset_weight),
            liability_weight_init: fx(liability_weight),
            liability_weight_maint: fx(liability_weight),
            deposit_limit: u64::MAX,
            borrow_limit: u64::MAX,
            operational_state: BankOperationalState::Operational,
            risk_tier: RiskTier::Collateral,
            asset_tag: 0,
            oracle_setup: OracleSetup::PythPushOracle,
            oracle_keys: vec![key(3000)],
            total_asset_value_init_limit: 0,
        },
        flags: 0,
        emode: EmodeSettings { emode_tag: 0, emode_config: EmodeConfig { entries: vec![] } },
        cache: BankCache {
            liquidation_price_rt: 0,
            liquidation_price_rt_confidence: 0,
            liquidation_price_twap: 0,
            liquidation_price_twap_confidence: 0,
            liquidation_price_cache_locked: false,
        },
        lending_position_count: 0,
        borrowing_position_count: 0,
        integration_acc_1: Pubkey::default_key(),
        bank_seed: 0,
    }
}

fn position(bank_pk: Pubkey, asset_shares: i128, liability_shares: i128) -> Balance {
    Balance {
        active: 1,
        bank_pk,
        bank_asset_tag: 0,
        tag: 0,
        asset_shares,
        liability_shares,
        emissions_outstanding: 0,
        last_update: 0,
    }
}

fn account(balances: Vec<Balance>) -> MarginfiAccount {
    let mut all = balances;
    while all.len() < 16 {
        all.push(Balance::empty_deactivated());
    }
    MarginfiAccount {
        group: key(2000),
        authority: key(1),
        lending_account: LendingAccount { balances: all, last_tag_used: 0 },
        account_flags: 0,
        emissions_destination_account: key(0),
        migrated_from: key(0),
        migrated_to: key(0),
        last_update: 0,
        indexer_flags: IndexerFlags { is_empty: 0, was_active_30d: 0, was_active_60d: 0, has_isolated: 0 },
        active_orders: 0,
        liquidation_record: key(0),
    }
}

fn feed(price: f64, confidence: f64) -> PriceFeed {
    let reading = OraclePriceWithConfidence { price: fx(price), confidence: fx(confidence) };
    PriceFeed { real_time: reading, time_weighted: reading }
}

fn remaining() -> Vec<RemainingAccount> {
    vec![
        RemainingAccount { key: key(10), bank: Some(bank(0.5, 1.0)) },
        RemainingAccount { key: key(11), bank: None },
        RemainingAccount { key: key(20), bank: Some(bank(1.0, 1.25)) },
        RemainingAccount { key: key(21), bank: None },
    ]
}

fn empty_cache() -> HealthCache {
    HealthCache {
        asset_value: 0,
        liability_value: 0,
        asset_value_maint: 0,
        liability_value_maint: 0,
        asset_value_equity: 0,
        liability_value_equity: 0,
        healthy: false,
        err_index: 0,
        internal_err: 0,
    }
}

#[test]
fn price_bias_moves_by_confidence() {
    let reading = OraclePriceWithConfidence { price: fx(2.0), confidence: fx(0.5) };
    assert_eq!(apply_price_bias(reading, PriceBias::Low), Ok(fx(1.5)));
    assert_eq!(apply_price_bias(reading, PriceBias::High), Ok(fx(2.5)));
    let extreme = OraclePriceWithConfidence { price: i128::MAX, confidence: 1 };
    assert_eq!(apply_price_bias(extreme, PriceBias::High), Err(MarginfiError::MathError));
}

#[test]
fn maintenance_health_weighs_assets_low_and_debts_high() {
    // 1000 tokens deposited at weight 0.5 and price 2 - 0.5; 100 borrowed at weight 1.25 and
    // price 2 + 0.5.
    let acc = account(vec![
        position(key(10), fx(1_000_000_000.0), 0),
        position(key(20), 0, fx(100_000_000.0)),
    ]);
    let readings = vec![Ok(feed(2.0, 0.5)), Ok(feed(2.0, 0.5))];
    let mut cache = Some(empty_cache());
    let (assets, liabilities) = get_health_components(
        &acc,
        &remaining(),
        &readings,
        RequirementType::Maintenance,
        &mut cache,
        &mut HealthPriceMode::Live { liq_cache: None },
    )
    .unwrap();
    assert_eq!(assets, fx(750.0));
    assert_eq!(liabilities, fx(312.5));
    assert_eq!(cache.unwrap().asset_value_maint, fx(750.0));

    let mut none: Option<HealthCache> = None;
    assert_eq!(
        check_pre_liquidation_condition_and_get_account_health(
            &acc,
            &remaining(),
            &readings,
            None,
            &mut none,
            &mut HealthPriceMode::Live { liq_cache: None },
            false,
        ),
        Err(MarginfiError::HealthyAccount)
    );
    assert_eq!(check_account_init_health(&acc, &remaining(), &readings, &mut none), Ok(()));
    assert_eq!(
        check_account_bankrupt(&acc, &remaining(), &readings, &mut none),
        Err(MarginfiError::AccountNotBankrupt)
    );
}

#[test]
fn underwater_account_is_liquidatable() {
    let acc = account(vec![
        position(key(10), fx(100_000_000.0), 0),
        position(key(20), 0, fx(100_000_000.0)),
    ]);
    let readings = vec![Ok(feed(2.0, 0.5)), Ok(feed(2.0, 0.5))];
    let mut none: Option<HealthCache> = None;
    let (health, assets, liabilities) = check_pre_liquidation_condition_and_get_account_health(
        &acc,
        &remaining(),
        &readings,
        Some(key(20)),
        &mut none,
        &mut HealthPriceMode::Live { liq_cache: None },
        false,
    )
    .unwrap();
    assert_eq!(assets, fx(75.0));
    assert_eq!(liabilities, fx(312.5));
    assert_eq!(health, fx(75.0 - 312.5));
    assert_eq!(
        check_pre_liquidation_condition_and_get_account_health(
            &acc,
            &remaining(),
            &readings,
            Some(key(10)),
            &mut none,
            &mut HealthPriceMode::Live { liq_cache: None },
            false,
        ),
        Err(MarginfiError::NoLiabilitiesInLiabilityBank)
    );
}

#[test]
fn oracle_failure_fails_maintenance() {
    let acc = account(vec![position(key(10), fx(1_000_000_000.0), 0)]);
    let mut none: Option<HealthCache> = None;
    let one_bank = vec![
        RemainingAccount { key: key(10), bank: Some(bank(0.5, 1.0)) },
        RemainingAccount { key: key(11), bank: None },
    ];
    assert_eq!(
        get_health_components(
            &acc,
            &one_bank,
            &vec![Err(7)],
            RequirementType::Maintenance,
            &mut none,
            &mut HealthPriceMode::Live { liq_cache: None },
        ),
        Err(MarginfiError::OracleFailure(7))
    );
    assert_eq!(
        get_health_components(
            &acc,
            &one_bank,
            &vec![Err(7)],
            RequirementType::Initial,
            &mut none,
            &mut HealthPriceMode::Live { liq_cache: None },
        ),
        Ok((0, 0))
    );
}

#[test]
fn post_liquidation_health_must_improve_and_stay_unhealthy() {
    let acc = account(vec![
        position(key(10), fx(100_000_000.0), 0),
        position(key(20), 0, fx(100_000_000.0)),
    ]);
    let readings = vec![Ok(feed(2.0, 0.5)), Ok(feed(2.0, 0.5))];
    assert_eq!(
        check_post_liquidation_condition_and_get_account_health(
            &acc,
            &remaining(),
            &readings,
            &key(20),
            fx(-300.0),
        ),
        Ok(fx(-237.5))
    );
    assert_eq!(
        check_post_liquidation_condition_and_get_account_health(
            &acc,
            &remaining(),
            &readings,
            &key(20),
            fx(-200.0),
        ),
        Err(MarginfiError::WorseHealthPostLiquidation)
    );
    assert_eq!(
        check_post_liquidation_condition_and_get_account_health(
            &acc,
            &remaining(),
            &readings,
            &key(10),
            fx(-300.0),
        ),
        Err(MarginfiError::ExhaustedLiability)
    );
}

#[test]
fn isolated_liabilities_stand_alone() {
    let mut isolated = bank(0.5, 1.0);
    isolated.config.risk_tier = RiskTier::Isolated;
    let rem = vec![
        RemainingAccount { key: key(10), bank: Some(isolated) },
        RemainingAccount { key: key(11), bank: None },
        RemainingAccount { key: key(20), bank: Some(bank(1.0, 1.25)) },
        RemainingAccount { key: key(21), bank: None },
    ];
    let both = account(vec![
        position(key(10), 0, fx(1_000_000.0)),
        position(key(20), 0, fx(1_000_000.0)),
    ]);
    assert_eq!(
        check_account_risk_tiers(&both, &rem),
        Err(MarginfiError::IsolatedAccountIllegalState)
    );
    assert_eq!(compute_has_isolated_liability_flag(&both, &rem), Ok(1));
    let alone = account(vec![
        position(key(10), 0, fx(1_000_000.0)),
        position(key(20), fx(1_000_000.0), 0),
    ]);
    assert_eq!(check_account_risk_tiers(&alone, &rem), Ok(()));
    let none = account(vec![
        position(key(10), fx(1_000_000.0), 0),
        position(key(20), 0, fx(1_000_000.0)),
    ]);
    assert_eq!(compute_has_isolated_liability_flag(&none, &rem), Ok(0));
}

#[test]
fn live_health_records_liquidation_prices() {
    let acc = account(vec![
        position(key(10), fx(100_000_000.0), 0),
        position(key(20), 0, fx(100_000_000.0)),
    ]);
    let rt = OraclePriceWithConfidence { price: fx(2.0), confidence: fx(0.5) };
    let twap = OraclePriceWithConfidence { price: fx(3.0), confidence: fx(0.25) };
    let readings = vec![
        Ok(PriceFeed { real_time: rt, time_weighted: twap }),
        Ok(PriceFeed { real_time: twap, time_weighted: rt }),
    ];
    let mut mode = HealthPriceMode::Live { liq_cache: Some(LiquidationPriceCache::new()) };
    let mut none: Option<HealthCache> = None;
    let (health, _, _) = check_pre_liquidation_condition_and_get_account_health(
        &acc,
        &remaining(),
        &readings,
        Some(key(20)),
        &mut none,
        &mut mode,
        false,
    )
    .unwrap();
    assert!(health < 0);
    let cache = match mode {
        HealthPriceMode::Live { liq_cache: Some(c) } => c,
        _ => panic!("the live mode keeps its cache"),
    };
    // Maintenance reads real-time prices: one per position, unbiased.
    assert_eq!(cache.real_time[0], Some(rt));
    assert_eq!(cache.real_time[1], Some(twap));
    assert!(cache.real_time[2..].iter().all(|p| p.is_none()));
    assert!(cache.time_weighted.iter().all(|p| p.is_none()));

    // The recorded prices are what the banks' liquidation caches then take.
    let mut banks = remaining();
    write_liquidation_price_cache_from(&acc, &mut banks, &cache).unwrap();
    let first = banks[0].bank.as_ref().unwrap().cache;
    assert_eq!(first.liquidation_price_rt, fx(2.0));
    assert_eq!(first.liquidation_price_rt_confidence, fx(0.5));
    assert_eq!(first.liquidation_price_twap, 0);
    assert!(first.liquidation_price_cache_locked);
    assert_eq!(banks[2].bank.as_ref().unwrap().cache.liquidation_price_rt, fx(3.0));

    // Initial margin reads time-weighted prices.
    let mut mode = HealthPriceMode::Live { liq_cache: Some(LiquidationPriceCache::new()) };
    get_health_components(&acc, &remaining(), &readings, RequirementType::Initial, &mut none, &mut mode)
        .unwrap();
    match mode {
        HealthPriceMode::Live { liq_cache: Some(c) } => {
            assert_eq!(c.time_weighted[0], Some(twap));
            assert_eq!(c.time_weighted[1], Some(rt));
            assert!(c.real_time.iter().all(|p| p.is_none()));
        }
        _ => panic!("the live mode keeps its cache"),
    }
}
