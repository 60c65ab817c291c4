//! Health checks of the risk engine: initial margin, liquidation pre- and post-conditions,
//! bankruptcy and the isolated-tier rules.

use crate::account::{accounts_per_bank, get_remaining_accounts_per_bank, has_flag};
use crate::emode::{lemma_accounts_per_bank_bound, RemainingAccount};
use crate::fixed_point::checked;
use crate::cache::{cache_fits, CacheReadings};
use crate::health::{
    get_health_components, health_inputs_ok, mode_cache, spec_health, spec_health_recording,
    updated_cache, HealthCache, HealthPriceMode,
};
use crate::price::PriceFeed;
use crate::state::{
    balance_active, side_empty, Balance, BalanceSide, MarginfiAccount, MarginfiError, Pubkey,
    RequirementType, RiskTier, ACCOUNT_IN_FLASHLOAN, BANKRUPT_THRESHOLD,
};
use vstd::prelude::*;

verus! {

/// The first active balance of the sequence whose bank is `bank_pk`.
pub open spec fn find_active_balance(bs: Seq<Balance>, bank_pk: Pubkey) -> Option<Balance>
    decreases bs.len(),
{
    if bs.len() == 0 {
        None
    } else if balance_active(bs[0]) && bs[0].bank_pk == bank_pk {
        Some(bs[0])
    } else {
        find_active_balance(bs.drop_first(), bank_pk)
    }
}

/// The first active balance of the account in bank `bank_pk`.
pub fn find_active_balance_in(balances: &Vec<Balance>, bank_pk: &Pubkey) -> (r: Option<Balance>)
    ensures
        r == find_active_balance(balances@, *bank_pk),
{
    let mut i: usize = 0;
    assert(balances@.skip(0) == balances@);
    while i < balances.len()
        invariant
            i <= balances@.len(),
            find_active_balance(balances@, *bank_pk) == find_active_balance(
                balances@.skip(i as int),
                *bank_pk,
            ),
        decreases balances@.len() - i,
    {
        assert(balances@.skip(i as int).drop_first() == balances@.skip(i + 1));
        if balances[i].is_active() && balances[i].bank_pk.same(bank_pk) {
            return Some(balances[i]);
        }
        i = i + 1;
    }
    None
}

/// The liability-bank precondition of liquidation: the account holds an active balance in the
/// bank, with liabilities and without assets. `empty_liability_error` and `assets_error` are
/// the errors for the two failed conditions.
pub open spec fn liability_balance_check(
    bs: Seq<Balance>,
    bank_pk: Pubkey,
    empty_liability_error: MarginfiError,
    assets_error: MarginfiError,
) -> Result<(), MarginfiError> {
    match find_active_balance(bs, bank_pk) {
        None => Err(MarginfiError::LendingAccountBalanceNotFound),
        Some(b) => if side_empty(b, BalanceSide::Liabilities) {
            Err(empty_liability_error)
        } else if !side_empty(b, BalanceSide::Assets) {
            Err(assets_error)
        } else {
            Ok(())
        },
    }
}

/// The liability-bank precondition of liquidation, checked.
fn check_liability_balance(
    balances: &Vec<Balance>,
    bank_pk: &Pubkey,
    empty_liability_error: MarginfiError,
    assets_error: MarginfiError,
) -> (r: Result<(), MarginfiError>)
    ensures
        r == liability_balance_check(balances@, *bank_pk, empty_liability_error, assets_error),
{
    let liability_balance = match find_active_balance_in(balances, bank_pk) {
        Some(b) => b,
        None => return Err(MarginfiError::LendingAccountBalanceNotFound),
    };
    if liability_balance.is_empty(BalanceSide::Liabilities) {
        return Err(empty_liability_error);
    }
    if !liability_balance.is_empty(BalanceSide::Assets) {
        return Err(assets_error);
    }
    Ok(())
}

/// The cache after a health computation that produced totals `t`, marked healthy or not.
pub open spec fn cache_marked(
    cache: Option<HealthCache>,
    r: RequirementType,
    t: crate::health::HealthTotals,
    healthy: bool,
) -> Option<HealthCache> {
    match updated_cache(cache, r, t) {
        Some(c) => Some(HealthCache { healthy, ..c }),
        None => None,
    }
}

/// Marks the cache, when present, healthy or not.
fn set_healthy(health_cache: &mut Option<HealthCache>, healthy: bool)
    ensures
        *final(health_cache) == match *old(health_cache) {
            Some(c) => Some(HealthCache { healthy, ..c }),
            None => None,
        },
{
    if health_cache.is_some() {
        let mut cache = health_cache.take().unwrap();
        cache.healthy = healthy;
        *health_cache = Some(cache);
    }
}

/// Outcome of the pre-liquidation check: `(health, assets, liabilities)` of an account that
/// may be liquidated.
pub open spec fn spec_pre_liquidation(
    account: MarginfiAccount,
    remaining: Seq<RemainingAccount>,
    readings: Seq<Result<PriceFeed, u32>>,
    liability_bank_pk: Option<Pubkey>,
    mode: HealthPriceMode,
    ignore_healthy: bool,
) -> Result<(i128, i128, i128), MarginfiError> {
    if has_flag(account.account_flags, ACCOUNT_IN_FLASHLOAN) {
        Err(MarginfiError::AccountInFlashloan)
    } else {
        let pre: Result<(), MarginfiError> = match liability_bank_pk {
            Some(pk) => liability_balance_check(
                account.lending_account.balances@,
                pk,
                MarginfiError::NoLiabilitiesInLiabilityBank,
                MarginfiError::AssetsInLiabilityBank,
            ),
            None => Ok(()),
        };
        match pre {
            Err(e) => Err(e),
            Ok(_) => match spec_health(account, remaining, readings, RequirementType::Maintenance, mode)->0 {
                Err(e) => Err(e),
                Ok(t) => match checked(t.assets - t.liabilities) {
                    None => Err(MarginfiError::MathError),
                    Some(h) => if h > 0 && !ignore_healthy {
                        Err(MarginfiError::HealthyAccount)
                    } else {
                        Ok((h, t.assets, t.liabilities))
                    },
                },
            },
        }
    }
}

/// The health cache after the pre-liquidation check: unchanged when the check stops before the
/// health computation or the computation fails; otherwise it keeps the maintenance totals and,
/// once the health is computed, whether the account is healthy.
pub open spec fn spec_pre_liquidation_cache(
    cache: Option<HealthCache>,
    account: MarginfiAccount,
    remaining: Seq<RemainingAccount>,
    readings: Seq<Result<PriceFeed, u32>>,
    liability_bank_pk: Option<Pubkey>,
    mode: HealthPriceMode,
) -> Option<HealthCache> {
    if has_flag(account.account_flags, ACCOUNT_IN_FLASHLOAN) {
        cache
    } else if liability_bank_pk matches Some(pk) && liability_balance_check(
        account.lending_account.balances@,
        pk,
        MarginfiError::NoLiabilitiesInLiabilityBank,
        MarginfiError::AssetsInLiabilityBank,
    ) is Err {
        cache
    } else {
        match spec_health(account, remaining, readings, RequirementType::Maintenance, mode)->0 {
            Err(_) => cache,
            Ok(t) => match checked(t.assets - t.liabilities) {
                None => updated_cache(cache, RequirementType::Maintenance, t),
                Some(h) => cache_marked(cache, RequirementType::Maintenance, t, h > 0),
            },
        }
    }
}

/// The readings of the liquidation price cache of `mode` after the pre-liquidation check:
/// unchanged when the check stops before the health computation, else what the maintenance
/// health walk records.
pub open spec fn spec_pre_liquidation_recording(
    account: MarginfiAccount,
    remaining: Seq<RemainingAccount>,
    readings: Seq<Result<PriceFeed, u32>>,
    liability_bank_pk: Option<Pubkey>,
    mode: HealthPriceMode,
) -> Option<CacheReadings> {
    if !has_flag(account.account_flags, ACCOUNT_IN_FLASHLOAN) && (liability_bank_pk matches Some(pk)
        && liability_balance_check(
        account.lending_account.balances@,
        pk,
        MarginfiError::NoLiabilitiesInLiabilityBank,
        MarginfiError::AssetsInLiabilityBank,
    ) is Err) {
        mode_cache(mode)
    } else {
        spec_health_recording(account, remaining, readings, RequirementType::Maintenance, mode)
    }
}

/// Check pre-liquidation condition: an account may be liquidated when its maintenance health
/// (weighted assets minus weighted liabilities) is not positive, unless `ignore_healthy`. When a
/// liability bank is named, the account must hold liabilities and no assets in it. The health
/// cache keeps the maintenance totals and whether the account is healthy. With live prices and a
/// liquidation price cache, the maintenance readings taken are recorded in the cache.
///
/// Returns (account_health, assets, liabilities) if the account is liquidatable.
pub fn check_pre_liquidation_condition_and_get_account_health(
    marginfi_account: &MarginfiAccount,
    remaining_ais: &Vec<RemainingAccount>,
    readings: &Vec<Result<PriceFeed, u32>>,
    liability_bank_pk: Option<Pubkey>,
    health_cache: &mut Option<HealthCache>,
    price_mode: &mut HealthPriceMode,
    ignore_healthy: bool,
) -> (r: Result<(i128, i128, i128), MarginfiError>)
    requires
        health_inputs_ok(
            *marginfi_account,
            remaining_ais@,
            readings@,
            RequirementType::Maintenance,
            *old(price_mode),
        ),
        cache_fits(mode_cache(*old(price_mode))),
    ensures
        r == spec_pre_liquidation(
            *marginfi_account,
            remaining_ais@,
            readings@,
            liability_bank_pk,
            *old(price_mode),
            ignore_healthy,
        ),
        (*final(price_mode) is Cached) == (*old(price_mode) is Cached),
        mode_cache(*final(price_mode)) == spec_pre_liquidation_recording(
            *marginfi_account,
            remaining_ais@,
            readings@,
            liability_bank_pk,
            *old(price_mode),
        ),
        *final(health_cache) == spec_pre_liquidation_cache(
            *old(health_cache),
            *marginfi_account,
            remaining_ais@,
            readings@,
            liability_bank_pk,
            *old(price_mode),
        ),
{
    if marginfi_account.get_flag(ACCOUNT_IN_FLASHLOAN) {
        return Err(MarginfiError::AccountInFlashloan);
    }
    if let Some(bank_pk) = liability_bank_pk {
        check_liability_balance(
            &marginfi_account.lending_account.balances,
            &bank_pk,
            MarginfiError::NoLiabilitiesInLiabilityBank,
            MarginfiError::AssetsInLiabilityBank,
        )?;
    }
    let (assets, liabs) = get_health_components(
        marginfi_account,
        remaining_ais,
        readings,
        RequirementType::Maintenance,
        health_cache,
        price_mode,
    )?;
    let account_health = match assets.checked_sub(liabs) {
        Some(h) => h,
        None => return Err(MarginfiError::MathError),
    };
    let healthy = account_health > 0;
    set_healthy(health_cache, healthy);
    if healthy && !ignore_healthy {
        return Err(MarginfiError::HealthyAccount);
    }
    Ok((account_health, assets, liabs))
}

/// Outcome of the bankruptcy check: an account is bankrupt when it has equity liabilities, its
/// equity assets are below the bankruptcy threshold, and its liabilities exceed its assets.
pub open spec fn spec_bankrupt_check(
    account: MarginfiAccount,
    remaining: Seq<RemainingAccount>,
    readings: Seq<Result<PriceFeed, u32>>,
) -> Result<(), MarginfiError> {
    if has_flag(account.account_flags, ACCOUNT_IN_FLASHLOAN) {
        Err(MarginfiError::AccountInFlashloan)
    } else {
        match spec_health(account, remaining, readings, RequirementType::Equity, HealthPriceMode::Live { liq_cache: None })->0 {
            Err(e) => Err(e),
            Ok(t) => if t.liabilities > 0 && t.assets < BANKRUPT_THRESHOLD && t.liabilities
                > t.assets {
                Ok(())
            } else {
                Err(MarginfiError::AccountNotBankrupt)
            },
        }
    }
}

/// Check bankruptcy condition (`AccountNotBankrupt` when it does not hold), from live equity
/// values. The health cache keeps the equity totals.
pub fn check_account_bankrupt(
    marginfi_account: &MarginfiAccount,
    remaining_ais: &Vec<RemainingAccount>,
    readings: &Vec<Result<PriceFeed, u32>>,
    health_cache: &mut Option<HealthCache>,
) -> (r: Result<(), MarginfiError>)
    requires
        health_inputs_ok(
            *marginfi_account,
            remaining_ais@,
            readings@,
            RequirementType::Equity,
            HealthPriceMode::Live { liq_cache: None },
        ),
    ensures
        r == spec_bankrupt_check(*marginfi_account, remaining_ais@, readings@),
        *final(health_cache) == if has_flag(marginfi_account.account_flags, ACCOUNT_IN_FLASHLOAN) {
            *old(health_cache)
        } else {
            match spec_health(
                *marginfi_account,
                remaining_ais@,
                readings@,
                RequirementType::Equity,
                HealthPriceMode::Live { liq_cache: None },
            )->0 {
                Err(_) => *old(health_cache),
                Ok(t) => updated_cache(*old(health_cache), RequirementType::Equity, t),
            }
        },
{
    if marginfi_account.get_flag(ACCOUNT_IN_FLASHLOAN) {
        return Err(MarginfiError::AccountInFlashloan);
    }
    let (equity_assets, equity_liabs) = get_health_components(
        marginfi_account,
        remaining_ais,
        readings,
        RequirementType::Equity,
        health_cache,
        &mut HealthPriceMode::Live { liq_cache: None },
    )?;
    let has_liabilities = equity_liabs > 0;
    let below_bankruptcy_threshold = equity_assets < BANKRUPT_THRESHOLD;
    let liabilities_exceed_assets = equity_liabs > equity_assets;
    let is_bankrupt = has_liabilities && below_bankruptcy_threshold && liabilities_exceed_assets;
    if !is_bankrupt {
        return Err(MarginfiError::AccountNotBankrupt);
    }
    Ok(())
}

/// Outcome of the post-liquidation check: the liability bank must still hold liabilities and no
/// assets, the maintenance health must not be positive and must have improved on
/// `pre_liquidation_health`; returns the new health.
pub open spec fn spec_post_liquidation(
    account: MarginfiAccount,
    remaining: Seq<RemainingAccount>,
    readings: Seq<Result<PriceFeed, u32>>,
    bank_pk: Pubkey,
    pre_liquidation_health: i128,
) -> Result<i128, MarginfiError> {
    if has_flag(account.account_flags, ACCOUNT_IN_FLASHLOAN) {
        Err(MarginfiError::AccountInFlashloan)
    } else {
        match liability_balance_check(
            account.lending_account.balances@,
            bank_pk,
            MarginfiError::ExhaustedLiability,
            MarginfiError::TooSeverePayoff,
        ) {
            Err(e) => Err(e),
            Ok(_) => match spec_health(
                account,
                remaining,
                readings,
                RequirementType::Maintenance,
                HealthPriceMode::Live { liq_cache: None },
            )->0 {
                Err(e) => Err(e),
                Ok(t) => match checked(t.assets - t.liabilities) {
                    None => Err(MarginfiError::MathError),
                    Some(h) => if !(h <= 0) {
                        Err(MarginfiError::TooSevereLiquidation)
                    } else if h <= pre_liquidation_health {
                        Err(MarginfiError::WorseHealthPostLiquidation)
                    } else {
                        Ok(h)
                    },
                },
            },
        }
    }
}

/// Post-liquidation invariant:
/// - Liability bank must still have outstanding liabilities and no assets
/// - Post-maintenance health must remain <= 0
/// - Post-maintenance health must improve relative to pre-liquidation health
pub fn check_post_liquidation_condition_and_get_account_health(
    marginfi_account: &MarginfiAccount,
    remaining_ais: &Vec<RemainingAccount>,
    readings: &Vec<Result<PriceFeed, u32>>,
    bank_pk: &Pubkey,
    pre_liquidation_health: i128,
) -> (r: Result<i128, MarginfiError>)
    requires
        health_inputs_ok(
            *marginfi_account,
            remaining_ais@,
            readings@,
            RequirementType::Maintenance,
            HealthPriceMode::Live { liq_cache: None },
        ),
    ensures
        r == spec_post_liquidation(
            *marginfi_account,
            remaining_ais@,
            readings@,
            *bank_pk,
            pre_liquidation_health,
        ),
{
    if marginfi_account.get_flag(ACCOUNT_IN_FLASHLOAN) {
        return Err(MarginfiError::AccountInFlashloan);
    }
    check_liability_balance(
        &marginfi_account.lending_account.balances,
        bank_pk,
        MarginfiError::ExhaustedLiability,
        MarginfiError::TooSeverePayoff,
    )?;
    let mut no_cache: Option<HealthCache> = None;
    let (assets, liabs) = get_health_components(
        marginfi_account,
        remaining_ais,
        readings,
        RequirementType::Maintenance,
        &mut no_cache,
        &mut HealthPriceMode::Live { liq_cache: None },
    )?;
    let account_health = match assets.checked_sub(liabs) {
        Some(h) => h,
        None => return Err(MarginfiError::MathError),
    };
    if !(account_health <= 0) {
        return Err(MarginfiError::TooSevereLiquidation);
    }
    if account_health <= pre_liquidation_health {
        return Err(MarginfiError::WorseHealthPostLiquidation);
    }
    Ok(account_health)
}


/// The isolated-tier walk over `balances[bi..]`, banks read from `remaining[ai..]`: counts the
/// liability balances and those among them in isolated banks, stopping as soon as a second
/// isolated liability is seen.
pub open spec fn risk_tier_walk(
    balances: Seq<Balance>,
    remaining: Seq<RemainingAccount>,
    bi: int,
    ai: int,
    isolated: int,
    total: int,
) -> Result<(int, int), MarginfiError>
    decreases balances.len() - bi,
{
    if bi < 0 || bi >= balances.len() {
        Ok((isolated, total))
    } else if !balance_active(balances[bi]) {
        risk_tier_walk(balances, remaining, bi + 1, ai, isolated, total)
    } else if ai < 0 || ai >= remaining.len() {
        Err(MarginfiError::InvalidBankAccount)
    } else {
        match remaining[ai].bank {
            None => Err(MarginfiError::AccountNotABank),
            Some(bank) => if balances[bi].bank_pk != remaining[ai].key {
                Err(MarginfiError::InvalidBankAccount)
            } else {
                match accounts_per_bank(bank) {
                    None => Err(MarginfiError::AssetTagMismatch),
                    Some(n) => if !side_empty(balances[bi], BalanceSide::Liabilities) {
                        let iso = if bank.config.risk_tier == RiskTier::Isolated {
                            isolated + 1
                        } else {
                            isolated
                        };
                        if iso > 1 {
                            Ok((iso, total + 1))
                        } else {
                            risk_tier_walk(balances, remaining, bi + 1, ai + n, iso, total + 1)
                        }
                    } else {
                        risk_tier_walk(balances, remaining, bi + 1, ai + n, isolated, total)
                    },
                }
            },
        }
    }
}

/// The isolated-tier rule: an account with a liability in an isolated bank has no other
/// liability (`IsolatedAccountIllegalState` otherwise).
pub open spec fn spec_risk_tiers_check(account: MarginfiAccount, remaining: Seq<RemainingAccount>) -> Result<
    (),
    MarginfiError,
> {
    match risk_tier_walk(account.lending_account.balances@, remaining, 0, 0, 0, 0) {
        Err(e) => Err(e),
        Ok((iso, total)) => if iso == 0 || total == 1 {
            Ok(())
        } else {
            Err(MarginfiError::IsolatedAccountIllegalState)
        },
    }
}

/// Each active balance paired with its bank, as the remaining accounts give them in order (each
/// bank followed by its oracle and venue accounts); `None` where a bank cannot be read.
pub open spec fn balance_banks(
    balances: Seq<Balance>,
    remaining: Seq<RemainingAccount>,
    bi: int,
    ai: int,
) -> Option<Seq<(Balance, crate::state::Bank)>>
    decreases balances.len() - bi,
{
    if bi < 0 || bi >= balances.len() {
        Some(Seq::empty())
    } else if !balance_active(balances[bi]) {
        balance_banks(balances, remaining, bi + 1, ai)
    } else if ai < 0 || ai >= remaining.len() {
        None
    } else {
        match remaining[ai].bank {
            None => None,
            Some(bank) => if balances[bi].bank_pk != remaining[ai].key {
                None
            } else {
                match accounts_per_bank(bank) {
                    None => None,
                    Some(n) => match balance_banks(balances, remaining, bi + 1, ai + n) {
                        None => None,
                        Some(rest) => Some(seq![(balances[bi], bank)] + rest),
                    },
                }
            },
        }
    }
}

/// Number of the pairs whose balance holds a liability.
pub open spec fn liability_count(pairs: Seq<(Balance, crate::state::Bank)>) -> nat
    decreases pairs.len(),
{
    if pairs.len() == 0 {
        0
    } else {
        (if !side_empty(pairs[0].0, BalanceSide::Liabilities) {
            1nat
        } else {
            0nat
        }) + liability_count(pairs.drop_first())
    }
}

/// Number of the pairs whose balance holds a liability in an isolated bank.
pub open spec fn isolated_liability_count(pairs: Seq<(Balance, crate::state::Bank)>) -> nat
    decreases pairs.len(),
{
    if pairs.len() == 0 {
        0
    } else {
        (if !side_empty(pairs[0].0, BalanceSide::Liabilities) && pairs[0].1.config.risk_tier
            == RiskTier::Isolated {
            1nat
        } else {
            0nat
        }) + isolated_liability_count(pairs.drop_first())
    }
}

/// The isolated-tier rule, counted over the whole account: when every active balance's bank can
/// be read, the check passes exactly when no liability sits in an isolated bank or the account
/// has one liability balance in all; otherwise it fails with `IsolatedAccountIllegalState`. An
/// account whose banks cannot all be read never passes.
pub proof fn lemma_isolated_liability_stands_alone(
    account: MarginfiAccount,
    remaining: Seq<RemainingAccount>,
)
    ensures
        balance_banks(account.lending_account.balances@, remaining, 0, 0) matches Some(pairs) ==> {
            &&& (spec_risk_tiers_check(account, remaining) is Ok) == (isolated_liability_count(pairs)
                == 0 || liability_count(pairs) == 1)
            &&& spec_risk_tiers_check(account, remaining) is Err ==> spec_risk_tiers_check(
                account,
                remaining,
            ) == Err::<(), MarginfiError>(MarginfiError::IsolatedAccountIllegalState)
        },
        balance_banks(account.lending_account.balances@, remaining, 0, 0) is None
            ==> spec_risk_tiers_check(account, remaining) is Err,
{
    let bs = account.lending_account.balances@;
    lemma_tier_walk_counts(bs, remaining, 0, 0, 0, 0);
    if let Some(pairs) = balance_banks(bs, remaining, 0, 0) {
        lemma_isolated_within_liabilities(pairs);
    }
}

/// Isolated liabilities are liabilities.
proof fn lemma_isolated_within_liabilities(pairs: Seq<(Balance, crate::state::Bank)>)
    ensures
        isolated_liability_count(pairs) <= liability_count(pairs),
    decreases pairs.len(),
{
    if pairs.len() > 0 {
        lemma_isolated_within_liabilities(pairs.drop_first());
    }
}

/// The tier walk from `bi` counts what the pairs from `bi` hold: with at most one isolated
/// liability seen so far, it adds their counts while at most one isolated liability is seen in
/// all, and otherwise stops with more than one, having counted at least as many liabilities.
proof fn lemma_tier_walk_counts(
    balances: Seq<Balance>,
    remaining: Seq<RemainingAccount>,
    bi: int,
    ai: int,
    isolated: int,
    total: int,
)
    requires
        0 <= isolated <= 1,
        isolated <= total,
    ensures
        balance_banks(balances, remaining, bi, ai) matches Some(pairs) ==> risk_tier_walk(
            balances,
            remaining,
            bi,
            ai,
            isolated,
            total,
        ) matches Ok(res) && res.1 >= res.0 && (isolated + isolated_liability_count(pairs) <= 1
            ==> res == (isolated + isolated_liability_count(pairs), total + liability_count(pairs)))
            && (isolated + isolated_liability_count(pairs) > 1 ==> res.0 > 1),
        balance_banks(balances, remaining, bi, ai) is None ==> (risk_tier_walk(
            balances,
            remaining,
            bi,
            ai,
            isolated,
            total,
        ) is Err || (risk_tier_walk(balances, remaining, bi, ai, isolated, total) matches Ok(res)
            && res.0 > 1 && res.1 >= res.0)),
    decreases balances.len() - bi,
{
    if bi < 0 || bi >= balances.len() {
    } else if !balance_active(balances[bi]) {
        lemma_tier_walk_counts(balances, remaining, bi + 1, ai, isolated, total);
    } else if ai < 0 || ai >= remaining.len() {
    } else {
        match remaining[ai].bank {
            None => {},
            Some(bank) => if balances[bi].bank_pk != remaining[ai].key {
            } else {
                match accounts_per_bank(bank) {
                    None => {},
                    Some(n) => {
                        if let Some(rest) = balance_banks(balances, remaining, bi + 1, ai + n) {
                            let pairs = seq![(balances[bi], bank)] + rest;
                            assert(pairs[0] == (balances[bi], bank));
                            assert(pairs.drop_first() =~= rest);
                            lemma_isolated_within_liabilities(rest);
                        }
                        if !side_empty(balances[bi], BalanceSide::Liabilities) {
                            let iso = if bank.config.risk_tier == RiskTier::Isolated {
                                isolated + 1
                            } else {
                                isolated
                            };
                            if iso <= 1 {
                                lemma_tier_walk_counts(
                                    balances,
                                    remaining,
                                    bi + 1,
                                    ai + n,
                                    iso,
                                    total + 1,
                                );
                            }
                        } else {
                            lemma_tier_walk_counts(balances, remaining, bi + 1, ai + n, isolated, total);
                        }
                    },
                }
            },
        }
    }
}

/// Check the isolated-risk-tier constraint.
pub fn check_account_risk_tiers(
    marginfi_account: &MarginfiAccount,
    remaining_ais: &Vec<RemainingAccount>,
) -> (r: Result<(), MarginfiError>)
    requires
        remaining_ais@.len() + 4 <= usize::MAX,
        crate::state::lending_account_wf(marginfi_account.lending_account),
    ensures
        r == spec_risk_tiers_check(*marginfi_account, remaining_ais@),
{
    let balances = &marginfi_account.lending_account.balances;
    let mut isolated_risk_count: usize = 0;
    let mut total_liability_balances: usize = 0;
    let mut account_index: usize = 0;
    let mut i: usize = 0;
    while i < balances.len()
        invariant
            balances@ == marginfi_account.lending_account.balances@,
            balances@.len() == crate::state::MAX_LENDING_ACCOUNT_BALANCES,
            i <= balances@.len(),
            total_liability_balances <= i,
            isolated_risk_count <= 1,
            isolated_risk_count <= total_liability_balances,
            account_index <= remaining_ais@.len() + 4,
            remaining_ais@.len() + 4 <= usize::MAX,
            risk_tier_walk(
                balances@,
                remaining_ais@,
                i as int,
                account_index as int,
                isolated_risk_count as int,
                total_liability_balances as int,
            ) == risk_tier_walk(balances@, remaining_ais@, 0, 0, 0, 0),
        decreases balances@.len() - i,
    {
        let balance = &balances[i];
        if !balance.is_active() {
            i = i + 1;
            continue;
        }
        if account_index >= remaining_ais.len() {
            return Err(MarginfiError::InvalidBankAccount);
        }
        let bank = match &remaining_ais[account_index].bank {
            Some(b) => b,
            None => return Err(MarginfiError::AccountNotABank),
        };
        if !balance.bank_pk.same(&remaining_ais[account_index].key) {
            return Err(MarginfiError::InvalidBankAccount);
        }
        proof {
            lemma_accounts_per_bank_bound(*bank);
        }
        let num_accounts = get_remaining_accounts_per_bank(bank)?;
        if !balance.is_empty(BalanceSide::Liabilities) {
            total_liability_balances = total_liability_balances + 1;
            if bank.config.risk_tier == RiskTier::Isolated {
                isolated_risk_count = isolated_risk_count + 1;
                if isolated_risk_count > 1 {
                    // A second isolated liability: the rule cannot hold.
                    return Err(MarginfiError::IsolatedAccountIllegalState);
                }
            }
        }
        account_index = account_index + num_accounts;
        i = i + 1;
    }
    if !(isolated_risk_count == 0 || total_liability_balances == 1) {
        return Err(MarginfiError::IsolatedAccountIllegalState);
    }
    Ok(())
}

/// Whether the walk over `balances[bi..]` meets a liability in an isolated bank.
pub open spec fn isolated_liability_walk(
    balances: Seq<Balance>,
    remaining: Seq<RemainingAccount>,
    bi: int,
    ai: int,
    found: bool,
) -> Result<bool, MarginfiError>
    decreases balances.len() - bi,
{
    if bi < 0 || bi >= balances.len() {
        Ok(found)
    } else if !balance_active(balances[bi]) {
        isolated_liability_walk(balances, remaining, bi + 1, ai, found)
    } else if ai < 0 || ai >= remaining.len() {
        Err(MarginfiError::InvalidBankAccount)
    } else {
        match remaining[ai].bank {
            None => Err(MarginfiError::AccountNotABank),
            Some(bank) => if balances[bi].bank_pk != remaining[ai].key {
                Err(MarginfiError::InvalidBankAccount)
            } else {
                match accounts_per_bank(bank) {
                    None => Err(MarginfiError::AssetTagMismatch),
                    Some(n) => isolated_liability_walk(
                        balances,
                        remaining,
                        bi + 1,
                        ai + n,
                        found || (!side_empty(balances[bi], BalanceSide::Liabilities)
                            && bank.config.risk_tier == RiskTier::Isolated),
                    ),
                }
            },
        }
    }
}

/// Computes `indexer_flags.has_isolated` from live bank risk tiers and current liabilities:
/// 1 iff the account has any isolated-tier liability.
pub fn compute_has_isolated_liability_flag(
    marginfi_account: &MarginfiAccount,
    remaining_ais: &Vec<RemainingAccount>,
) -> (r: Result<u8, MarginfiError>)
    requires
        remaining_ais@.len() + 4 <= usize::MAX,
    ensures
        r == match isolated_liability_walk(
            marginfi_account.lending_account.balances@,
            remaining_ais@,
            0,
            0,
            false,
        ) {
            Ok(b) => Ok::<u8, MarginfiError>(if b { 1u8 } else { 0u8 }),
            Err(e) => Err(e),
        },
{
    let balances = &marginfi_account.lending_account.balances;
    let mut has_isolated_liability = false;
    let mut account_index: usize = 0;
    let mut i: usize = 0;
    while i < balances.len()
        invariant
            balances@ == marginfi_account.lending_account.balances@,
            i <= balances@.len(),
            account_index <= remaining_ais@.len() + 4,
            remaining_ais@.len() + 4 <= usize::MAX,
            isolated_liability_walk(
                balances@,
                remaining_ais@,
                i as int,
                account_index as int,
                has_isolated_liability,
            ) == isolated_liability_walk(balances@, remaining_ais@, 0, 0, false),
        decreases balances@.len() - i,
    {
        let balance = &balances[i];
        if !balance.is_active() {
            i = i + 1;
            continue;
        }
        if account_index >= remaining_ais.len() {
            return Err(MarginfiError::InvalidBankAccount);
        }
        let bank = match &remaining_ais[account_index].bank {
            Some(b) => b,
            None => return Err(MarginfiError::AccountNotABank),
        };
        if !balance.bank_pk.same(&remaining_ais[account_index].key) {
            return Err(MarginfiError::InvalidBankAccount);
        }
        proof {
            lemma_accounts_per_bank_bound(*bank);
        }
        let num_accounts = get_remaining_accounts_per_bank(bank)?;
        if !balance.is_empty(BalanceSide::Liabilities) && bank.config.risk_tier
            == RiskTier::Isolated {
            has_isolated_liability = true;
        }
        account_index = account_index + num_accounts;
        i = i + 1;
    }
    Ok(if has_isolated_liability {
        1
    } else {
        0
    })
}

/// Outcome of the initial health check: skipped (accepted) during a flash loan; otherwise the
/// initial-margin weighted assets must cover the weighted liabilities
/// (`RiskEngineInitRejected`), and the isolated-tier rule must hold.
pub open spec fn spec_init_health_check(
    account: MarginfiAccount,
    remaining: Seq<RemainingAccount>,
    readings: Seq<Result<PriceFeed, u32>>,
) -> Result<(), MarginfiError> {
    if has_flag(account.account_flags, ACCOUNT_IN_FLASHLOAN) {
        Ok(())
    } else {
        match spec_health(account, remaining, readings, RequirementType::Initial, HealthPriceMode::Live { liq_cache: None })->0 {
            Err(e) => Err(e),
            Ok(t) => if !(t.assets >= t.liabilities) {
                Err(MarginfiError::RiskEngineInitRejected)
            } else {
                spec_risk_tiers_check(account, remaining)
            },
        }
    }
}

/// Initial health check:
/// - Skips risk checks when the account is in a flashloan
/// - Errors if initial weighted assets do not cover initial weighted liabilities
/// - Enforces isolated-tier constraint
/// The health cache keeps the initial totals and whether they are healthy.
pub fn check_account_init_health(
    marginfi_account: &MarginfiAccount,
    remaining_ais: &Vec<RemainingAccount>,
    readings: &Vec<Result<PriceFeed, u32>>,
    health_cache: &mut Option<HealthCache>,
) -> (r: Result<(), MarginfiError>)
    requires
        health_inputs_ok(
            *marginfi_account,
            remaining_ais@,
            readings@,
            RequirementType::Initial,
            HealthPriceMode::Live { liq_cache: None },
        ),
    ensures
        r == spec_init_health_check(*marginfi_account, remaining_ais@, readings@),
        *final(health_cache) == if has_flag(marginfi_account.account_flags, ACCOUNT_IN_FLASHLOAN) {
            *old(health_cache)
        } else {
            match spec_health(
                *marginfi_account,
                remaining_ais@,
                readings@,
                RequirementType::Initial,
                HealthPriceMode::Live { liq_cache: None },
            )->0 {
                Err(_) => *old(health_cache),
                Ok(t) => cache_marked(
                    *old(health_cache),
                    RequirementType::Initial,
                    t,
                    t.assets >= t.liabilities,
                ),
            }
        },
{
    if marginfi_account.get_flag(ACCOUNT_IN_FLASHLOAN) {
        return Ok(());
    }
    let (assets, liabs) = get_health_components(
        marginfi_account,
        remaining_ais,
        readings,
        RequirementType::Initial,
        health_cache,
        &mut HealthPriceMode::Live { liq_cache: None },
    )?;
    let healthy = assets >= liabs;
    set_healthy(health_cache, healthy);
    if !healthy {
        return Err(MarginfiError::RiskEngineInitRejected);
    }
    check_account_risk_tiers(marginfi_account, remaining_ais)
}

/// Only an unhealthy account can be liquidated: when the pre-liquidation check passes without
/// `ignore_healthy`, the health it returns is the maintenance assets minus liabilities and is
/// not positive; and where, ignoring health, it would pass with a positive health, it refuses
/// with `HealthyAccount`.
pub proof fn lemma_only_unhealthy_accounts_are_liquidated(
    account: MarginfiAccount,
    remaining: Seq<RemainingAccount>,
    readings: Seq<Result<PriceFeed, u32>>,
    liability_bank_pk: Option<Pubkey>,
    mode: HealthPriceMode,
)
    ensures
        spec_pre_liquidation(account, remaining, readings, liability_bank_pk, mode, false) matches Ok(
            v,
        ) ==> v.0 <= 0 && v.0 == v.1 - v.2,
        spec_pre_liquidation(account, remaining, readings, liability_bank_pk, mode, true) matches Ok(
            v,
        ) && v.0 > 0 ==> spec_pre_liquidation(account, remaining, readings, liability_bank_pk, mode, false)
            == Err::<(i128, i128, i128), MarginfiError>(MarginfiError::HealthyAccount),
{
}

/// A liquidation that passes the post-liquidation check leaves the account's maintenance health
/// not positive and strictly better than before.
pub proof fn lemma_liquidation_improves_health(
    account: MarginfiAccount,
    remaining: Seq<RemainingAccount>,
    readings: Seq<Result<PriceFeed, u32>>,
    bank_pk: Pubkey,
    pre_liquidation_health: i128,
)
    ensures
        spec_post_liquidation(account, remaining, readings, bank_pk, pre_liquidation_health) matches Ok(
            h,
        ) ==> pre_liquidation_health < h <= 0,
{
}

/// A bankrupt account owes more than it holds: when the bankruptcy check passes, the equity
/// liabilities are positive and exceed the equity assets, which are below the threshold.
pub proof fn lemma_bankrupt_accounts_are_underwater(
    account: MarginfiAccount,
    remaining: Seq<RemainingAccount>,
    readings: Seq<Result<PriceFeed, u32>>,
)
    ensures
        spec_bankrupt_check(account, remaining, readings) is Ok ==> {
            let t = spec_health(account, remaining, readings, RequirementType::Equity, HealthPriceMode::Live { liq_cache: None })->0->Ok_0;
            &&& t.liabilities > 0
            &&& t.liabilities > t.assets
            &&& t.assets < BANKRUPT_THRESHOLD
        },
{
}

} // verus!
