//! The risk engine: an account's weighted assets and liabilities, and the health checks built on
//! them (initial margin, liquidation, bankruptcy, isolated-tier rules).

use crate::account::{accounts_per_bank, get_remaining_accounts_per_bank, has_flag};
use crate::bank::bank_wf;
use crate::cache::{
    cache_fits, cache_slot, cache_view, recorded_at, spec_record, CacheReadings, LiquidationPriceCache,
};
use crate::emode::{
    collect_liability_emode_configs, lemma_accounts_per_bank_bound, liability_emode_configs,
    reconcile_emode_configs, reconciled_entry, RemainingAccount,
};
use crate::fixed_point::checked;
use crate::bank::requirement_price_type;
use crate::price::{feed_reading, PriceFeed};
use crate::risk::{
    calc_weighted_value_cached_for_balance, calc_weighted_value_for_balance, config_lookup,
    live_record, spec_cached_value_for_balance, spec_live_value_for_balance,
};
use crate::state::{
    all_sides_consistent, balance_active, balance_side, lending_account_wf, Balance, BalanceSide, EmodeConfig, EmodeEntry, MarginfiAccount, MarginfiError,
    OraclePriceType, RequirementType, ACCOUNT_IN_FLASHLOAN, MAX_LENDING_ACCOUNT_BALANCES,
};
use vstd::prelude::*;

verus! {

/// Where the risk engine takes prices from.
#[derive(PartialEq, Eq, Clone, Debug)]
pub enum HealthPriceMode {
    /// Fresh oracle readings, one per active position; the readings taken are recorded in the
    /// liquidation price cache, when one is given.
    Live { liq_cache: Option<LiquidationPriceCache> },
    /// The banks' locked liquidation price caches.
    Cached,
}

/// The readings of the liquidation price cache a price mode carries, if any.
pub open spec fn mode_cache(mode: HealthPriceMode) -> Option<CacheReadings> {
    match mode {
        HealthPriceMode::Live { liq_cache } => cache_view(liq_cache),
        HealthPriceMode::Cached => None,
    }
}

/// Results of the last health computations, kept on the account for off-chain readers.
#[derive(PartialEq, Eq, Structural, Clone, Copy, Debug)]
pub struct HealthCache {
    pub asset_value: i128,
    pub liability_value: i128,
    pub asset_value_maint: i128,
    pub liability_value_maint: i128,
    pub asset_value_equity: i128,
    pub liability_value_equity: i128,
    pub healthy: bool,
    /// Position of the first balance whose oracle failed.
    pub err_index: u8,
    /// Error code of that oracle failure.
    pub internal_err: u32,
}

/// The position of a balance whose oracle failed, and the failure's code.
#[derive(PartialEq, Eq, Structural, Clone, Copy, Debug)]
pub struct OracleFailureAt {
    pub position: usize,
    pub code: u32,
}

/// Running totals of a health computation.
#[derive(PartialEq, Eq, Structural, Clone, Copy, Debug)]
pub struct HealthTotals {
    pub assets: i128,
    pub liabilities: i128,
    /// Position and code of the first oracle failure that was skipped.
    pub first_err: Option<OracleFailureAt>,
}

/// Every bank among the remaining accounts has decimals that index the table of powers of ten.
pub open spec fn remaining_banks_wf(remaining: Seq<RemainingAccount>) -> bool {
    forall|i: int|
        0 <= i < remaining.len() && (#[trigger] remaining[i]).bank is Some ==> bank_wf(
            remaining[i].bank->0,
        )
}

/// The health walk over `balances[bi..]`, reading banks from `remaining[ai..]` and oracle
/// readings from `readings[pos..]` (one per active position), adding weighted values to `acc`.
/// `None` marks inputs the computation is not defined on: a live reading missing for a position,
/// or a weighting that overflows.
pub open spec fn health_walk(
    balances: Seq<Balance>,
    remaining: Seq<RemainingAccount>,
    readings: Seq<Result<PriceFeed, u32>>,
    r: RequirementType,
    emode: spec_fn(u16) -> Option<EmodeEntry>,
    cached: bool,
    bi: int,
    ai: int,
    pos: int,
    acc: HealthTotals,
) -> Option<Result<HealthTotals, MarginfiError>>
    decreases balances.len() - bi,
{
    if bi < 0 || bi >= balances.len() {
        Some(Ok(acc))
    } else if !balance_active(balances[bi]) {
        health_walk(balances, remaining, readings, r, emode, cached, bi + 1, ai, pos, acc)
    } else if ai < 0 || ai >= remaining.len() {
        Some(Err(MarginfiError::InvalidBankAccount))
    } else {
        match remaining[ai].bank {
            None => Some(Err(MarginfiError::AccountNotABank)),
            Some(bank) => if balances[bi].bank_pk != remaining[ai].key {
                Some(Err(MarginfiError::InvalidBankAccount))
            } else {
                let n: Result<usize, MarginfiError> = if cached {
                    if bank.cache.liquidation_price_cache_locked {
                        Ok(1usize)
                    } else {
                        Err(MarginfiError::InternalLogicError)
                    }
                } else {
                    match accounts_per_bank(bank) {
                        Some(n) => Ok(n),
                        None => Err(MarginfiError::AssetTagMismatch),
                    }
                };
                match n {
                    Err(e) => Some(Err(e)),
                    Ok(n) => {
                        let value: Option<Result<(i128, i128, i128, u32), MarginfiError>> = if cached {
                            match spec_cached_value_for_balance(balances[bi], bank, r, emode) {
                                None => None,
                                Some(Err(e)) => Some(Err(e)),
                                Some(Ok((a, l, p))) => Some(Ok((a, l, p, 0u32))),
                            }
                        } else if remaining.len() < ai + n {
                            Some(Err(MarginfiError::WrongNumberOfOracleAccounts))
                        } else if pos < 0 || pos >= readings.len() {
                            None
                        } else {
                            spec_live_value_for_balance(balances[bi], bank, readings[pos], r, emode)
                        };
                        match value {
                            None => None,
                            Some(Err(e)) => Some(Err(e)),
                            Some(Ok((a, l, _p, code))) => {
                                let first_err = if code != 0 && acc.first_err is None {
                                    Some(OracleFailureAt { position: pos as usize, code })
                                } else {
                                    acc.first_err
                                };
                                match checked(acc.assets + a) {
                                    None => Some(Err(MarginfiError::MathError)),
                                    Some(assets) => match checked(acc.liabilities + l) {
                                        None => Some(Err(MarginfiError::MathError)),
                                        Some(liabilities) => health_walk(
                                            balances,
                                            remaining,
                                            readings,
                                            r,
                                            emode,
                                            cached,
                                            bi + 1,
                                            ai + n,
                                            pos + 1,
                                            HealthTotals { assets, liabilities, first_err },
                                        ),
                                    },
                                }
                            },
                        }
                    },
                }
            },
        }
    }
}

/// The liquidation price cache after the live health walk over `balances[bi..]` (see
/// `health_walk`), starting from `cache`: each position valued takes its reading into the cache
/// (see `live_record`), up to the step where the walk stops. A walk on cached prices records
/// nothing.
pub open spec fn recording_walk(
    balances: Seq<Balance>,
    remaining: Seq<RemainingAccount>,
    readings: Seq<Result<PriceFeed, u32>>,
    r: RequirementType,
    emode: spec_fn(u16) -> Option<EmodeEntry>,
    cached: bool,
    bi: int,
    ai: int,
    pos: int,
    acc: HealthTotals,
    cache: Option<CacheReadings>,
) -> Option<CacheReadings>
    decreases balances.len() - bi,
{
    if cached || bi < 0 || bi >= balances.len() {
        cache
    } else if !balance_active(balances[bi]) {
        recording_walk(balances, remaining, readings, r, emode, cached, bi + 1, ai, pos, acc, cache)
    } else if ai < 0 || ai >= remaining.len() {
        cache
    } else {
        match remaining[ai].bank {
            None => cache,
            Some(bank) => if balances[bi].bank_pk != remaining[ai].key {
                cache
            } else {
                match accounts_per_bank(bank) {
                    None => cache,
                    Some(n) => if remaining.len() < ai + n || pos < 0 || pos >= readings.len() {
                        cache
                    } else {
                        let recorded = recorded_at(
                            cache,
                            r,
                            pos,
                            live_record(balances[bi], bank, readings[pos], r),
                        );
                        match spec_live_value_for_balance(balances[bi], bank, readings[pos], r, emode) {
                            Some(Ok((a, l, _p, code))) => {
                                let first_err = if code != 0 && acc.first_err is None {
                                    Some(OracleFailureAt { position: pos as usize, code })
                                } else {
                                    acc.first_err
                                };
                                match (checked(acc.assets + a), checked(acc.liabilities + l)) {
                                    (Some(assets), Some(liabilities)) => recording_walk(
                                        balances,
                                        remaining,
                                        readings,
                                        r,
                                        emode,
                                        cached,
                                        bi + 1,
                                        ai + n,
                                        pos + 1,
                                        HealthTotals { assets, liabilities, first_err },
                                        recorded,
                                    ),
                                    _ => recorded,
                                }
                            },
                            _ => recorded,
                        }
                    },
                }
            },
        }
    }
}

/// Whether `v` is position `k`'s own oracle reading of price type `t`.
pub open spec fn own_reading(
    readings: Seq<Result<PriceFeed, u32>>,
    k: int,
    t: OraclePriceType,
    v: Option<crate::price::OraclePriceWithConfidence>,
) -> bool {
    0 <= k < readings.len() && match readings[k] {
        Ok(feed) => v == Some(feed_reading(feed, t)),
        Err(_) => false,
    }
}

/// Whether `after` holds only readings taken from `readings` under `r` on top of `before`: the
/// slots keep their number, the price type that `r` does not read is untouched, and each slot of
/// the type it reads is either as it was or the reading of that position's oracle.
pub open spec fn records_only_readings(
    before: CacheReadings,
    after: CacheReadings,
    readings: Seq<Result<PriceFeed, u32>>,
    r: RequirementType,
) -> bool {
    let t = requirement_price_type(r);
    &&& after.0.len() == before.0.len()
    &&& after.1.len() == before.1.len()
    &&& forall|u: OraclePriceType, k: int|
        u != t ==> #[trigger] cache_slot(after, u, k) == cache_slot(before, u, k)
    &&& forall|k: int|
        #[trigger] cache_slot(after, t, k) == cache_slot(before, t, k) || own_reading(readings, k, t, cache_slot(after, t, k))
}

/// What the live health walk puts into a liquidation price cache is that of the positions' own
/// oracle readings: a cache is neither added nor taken away, and what it holds afterwards differs
/// from what it held before only by readings of the requirement's price type, each the reading
/// of the position it is recorded for.
pub proof fn lemma_recorded_readings_are_the_positions_own(
    balances: Seq<Balance>,
    remaining: Seq<RemainingAccount>,
    readings: Seq<Result<PriceFeed, u32>>,
    r: RequirementType,
    emode: spec_fn(u16) -> Option<EmodeEntry>,
    cached: bool,
    bi: int,
    ai: int,
    pos: int,
    acc: HealthTotals,
    cache: Option<CacheReadings>,
)
    ensures
        (recording_walk(balances, remaining, readings, r, emode, cached, bi, ai, pos, acc, cache)
            is Some) == (cache is Some),
        cache matches Some(c) ==> records_only_readings(
            c,
            recording_walk(balances, remaining, readings, r, emode, cached, bi, ai, pos, acc, cache)->0,
            readings,
            r,
        ),
    decreases balances.len() - bi,
{
    let after = recording_walk(balances, remaining, readings, r, emode, cached, bi, ai, pos, acc, cache);
    if cached || bi < 0 || bi >= balances.len() {
    } else if !balance_active(balances[bi]) {
        lemma_recorded_readings_are_the_positions_own(
            balances,
            remaining,
            readings,
            r,
            emode,
            cached,
            bi + 1,
            ai,
            pos,
            acc,
            cache,
        );
    } else if ai < 0 || ai >= remaining.len() {
    } else {
        match remaining[ai].bank {
            None => {},
            Some(bank) => if balances[bi].bank_pk != remaining[ai].key {
            } else {
                match accounts_per_bank(bank) {
                    None => {},
                    Some(n) => if remaining.len() < ai + n || pos < 0 || pos >= readings.len() {
                    } else {
                        let reading = live_record(balances[bi], bank, readings[pos], r);
                        let recorded = recorded_at(cache, r, pos, reading);
                        if let Some(c) = cache {
                            lemma_one_record(c, readings, r, pos, reading, balances[bi], bank);
                        }
                        match spec_live_value_for_balance(balances[bi], bank, readings[pos], r, emode) {
                            Some(Ok((a, l, _p, code))) => {
                                let first_err = if code != 0 && acc.first_err is None {
                                    Some(OracleFailureAt { position: pos as usize, code })
                                } else {
                                    acc.first_err
                                };
                                match (checked(acc.assets + a), checked(acc.liabilities + l)) {
                                    (Some(assets), Some(liabilities)) => {
                                        lemma_recorded_readings_are_the_positions_own(
                                            balances,
                                            remaining,
                                            readings,
                                            r,
                                            emode,
                                            cached,
                                            bi + 1,
                                            ai + n,
                                            pos + 1,
                                            HealthTotals { assets, liabilities, first_err },
                                            recorded,
                                        );
                                        if let Some(c) = cache {
                                            lemma_records_compose(
                                                c,
                                                recorded->0,
                                                after->0,
                                                readings,
                                                r,
                                            );
                                        }
                                    },
                                    _ => {},
                                }
                            },
                            _ => {},
                        }
                    },
                }
            },
        }
    }
    if let Some(c) = cache {
        if after == cache {
            lemma_records_nothing(c, readings, r);
        }
    }
}

/// A cache left as it was holds only readings on top of itself.
proof fn lemma_records_nothing(c: CacheReadings, readings: Seq<Result<PriceFeed, u32>>, r: RequirementType)
    ensures
        records_only_readings(c, c, readings, r),
{
}

/// Recording what a position's valuation reads keeps to that position's own reading.
proof fn lemma_one_record(
    c: CacheReadings,
    readings: Seq<Result<PriceFeed, u32>>,
    r: RequirementType,
    pos: int,
    reading: Option<crate::price::OraclePriceWithConfidence>,
    balance: Balance,
    bank: crate::state::Bank,
)
    requires
        0 <= pos < readings.len(),
        reading == live_record(balance, bank, readings[pos], r),
    ensures
        recorded_at(Some(c), r, pos, reading) is Some,
        records_only_readings(c, recorded_at(Some(c), r, pos, reading)->0, readings, r),
{
    let t = requirement_price_type(r);
    let after = recorded_at(Some(c), r, pos, reading)->0;
    match reading {
        None => {
            lemma_records_nothing(c, readings, r);
        },
        Some(p) => {
            assert(own_reading(readings, pos, t, Some(p)));
            assert(after == spec_record(c, r, pos, p));
            assert forall|u: OraclePriceType, k: int| u != t implies #[trigger] cache_slot(after, u, k)
                == cache_slot(c, u, k) by {}
            assert forall|k: int|
                #[trigger] cache_slot(after, t, k) == cache_slot(c, t, k) || own_reading(readings, k, t, cache_slot(after, t, k)) by {
                if k == pos {
                    if 0 <= pos < c.0.len() && t == OraclePriceType::RealTime {
                        assert(cache_slot(after, t, k) == Some(p));
                    }
                    if 0 <= pos < c.1.len() && t == OraclePriceType::TimeWeighted {
                        assert(cache_slot(after, t, k) == Some(p));
                    }
                }
            }
        },
    }
}

/// Readings on top of readings are readings.
proof fn lemma_records_compose(
    a: CacheReadings,
    b: CacheReadings,
    c: CacheReadings,
    readings: Seq<Result<PriceFeed, u32>>,
    r: RequirementType,
)
    requires
        records_only_readings(a, b, readings, r),
        records_only_readings(b, c, readings, r),
    ensures
        records_only_readings(a, c, readings, r),
{
    let t = requirement_price_type(r);
    assert forall|u: OraclePriceType, k: int| u != t implies #[trigger] cache_slot(c, u, k)
        == cache_slot(a, u, k) by {
        assert(cache_slot(b, u, k) == cache_slot(a, u, k));
    }
    assert forall|k: int|
        #[trigger] cache_slot(c, t, k) == cache_slot(a, t, k) || own_reading(readings, k, t, cache_slot(c, t, k)) by {
        assert(cache_slot(b, t, k) == cache_slot(a, t, k) || own_reading(readings, k, t, cache_slot(b, t, k)));
        assert(cache_slot(c, t, k) == cache_slot(b, t, k) || own_reading(readings, k, t, cache_slot(c, t, k)));
    }
}

/// No totals yet.
pub open spec fn zero_totals() -> HealthTotals {
    HealthTotals { assets: 0, liabilities: 0, first_err: None }
}

/// The health computation of an account with a given reconciled emode configuration.
pub open spec fn account_health_walk(
    account: MarginfiAccount,
    remaining: Seq<RemainingAccount>,
    readings: Seq<Result<PriceFeed, u32>>,
    r: RequirementType,
    emode: spec_fn(u16) -> Option<EmodeEntry>,
    cached: bool,
) -> Option<Result<HealthTotals, MarginfiError>> {
    health_walk(
        account.lending_account.balances@,
        remaining,
        readings,
        r,
        emode,
        cached,
        0,
        0,
        0,
        zero_totals(),
    )
}

/// The health cache after a successful computation: the totals of the requirement are stored,
/// and the first skipped oracle failure, if any, is recorded.
pub open spec fn cache_with_totals(cache: HealthCache, r: RequirementType, t: HealthTotals) -> HealthCache {
    let c = match r {
        RequirementType::Initial => HealthCache {
            asset_value: t.assets,
            liability_value: t.liabilities,
            ..cache
        },
        RequirementType::Maintenance => HealthCache {
            asset_value_maint: t.assets,
            liability_value_maint: t.liabilities,
            ..cache
        },
        RequirementType::Equity => HealthCache {
            asset_value_equity: t.assets,
            liability_value_equity: t.liabilities,
            ..cache
        },
    };
    match t.first_err {
        Some(f) => HealthCache { err_index: f.position as u8, internal_err: f.code, ..c },
        None => c,
    }
}

/// The liquidation price cache after the health walk of an account (see `recording_walk`).
pub open spec fn account_recording_walk(
    account: MarginfiAccount,
    remaining: Seq<RemainingAccount>,
    readings: Seq<Result<PriceFeed, u32>>,
    r: RequirementType,
    emode: spec_fn(u16) -> Option<EmodeEntry>,
    cached: bool,
    cache: Option<CacheReadings>,
) -> Option<CacheReadings> {
    recording_walk(
        account.lending_account.balances@,
        remaining,
        readings,
        r,
        emode,
        cached,
        0,
        0,
        0,
        zero_totals(),
        cache,
    )
}

/// The health walk proper, with a reconciled emode configuration; live readings are recorded in
/// the liquidation price cache, when one is given.
fn walk_health(
    marginfi_account: &MarginfiAccount,
    remaining_ais: &Vec<RemainingAccount>,
    readings: &Vec<Result<PriceFeed, u32>>,
    requirement_type: RequirementType,
    emode: &EmodeConfig,
    is_cached: bool,
    liq_cache: &mut Option<LiquidationPriceCache>,
) -> (r: Result<HealthTotals, MarginfiError>)
    requires
        marginfi_account.lending_account.balances@.len() == MAX_LENDING_ACCOUNT_BALANCES,
        cache_fits(cache_view(*old(liq_cache))),
        remaining_ais@.len() + 4 <= usize::MAX,
        remaining_banks_wf(remaining_ais@),
        all_sides_consistent(marginfi_account.lending_account.balances@),
        account_health_walk(
            *marginfi_account,
            remaining_ais@,
            readings@,
            requirement_type,
            config_lookup(*emode),
            is_cached,
        ) is Some,
    ensures
        r == account_health_walk(
            *marginfi_account,
            remaining_ais@,
            readings@,
            requirement_type,
            config_lookup(*emode),
            is_cached,
        )->0,
        cache_view(*final(liq_cache)) == account_recording_walk(
            *marginfi_account,
            remaining_ais@,
            readings@,
            requirement_type,
            config_lookup(*emode),
            is_cached,
            cache_view(*old(liq_cache)),
        ),
{
    let balances = &marginfi_account.lending_account.balances;
    let ghost goal_cache = account_recording_walk(
        *marginfi_account,
        remaining_ais@,
        readings@,
        requirement_type,
        config_lookup(*emode),
        is_cached,
        cache_view(*liq_cache),
    );
    let ghost goal = account_health_walk(
        *marginfi_account,
        remaining_ais@,
        readings@,
        requirement_type,
        config_lookup(*emode),
        is_cached,
    );
    let mut acc = HealthTotals { assets: 0, liabilities: 0, first_err: None };
    let mut balance_index: usize = 0;
    let mut account_index: usize = 0;
    let mut position_index: usize = 0;
    while balance_index < balances.len()
        invariant
            balances@ == marginfi_account.lending_account.balances@,
            balance_index <= balances@.len(),
            position_index <= balance_index,
            account_index <= remaining_ais@.len() + 4,
            remaining_ais@.len() + 4 <= usize::MAX,
            remaining_banks_wf(remaining_ais@),
            all_sides_consistent(balances@),
            goal is Some,
            goal == account_health_walk(
                *marginfi_account,
                remaining_ais@,
                readings@,
                requirement_type,
                config_lookup(*emode),
                is_cached,
            ),
            health_walk(
                balances@,
                remaining_ais@,
                readings@,
                requirement_type,
                config_lookup(*emode),
                is_cached,
                balance_index as int,
                account_index as int,
                position_index as int,
                acc,
            ) == goal,
            balances@.len() == MAX_LENDING_ACCOUNT_BALANCES,
            cache_fits(cache_view(*liq_cache)),
            recording_walk(
                balances@,
                remaining_ais@,
                readings@,
                requirement_type,
                config_lookup(*emode),
                is_cached,
                balance_index as int,
                account_index as int,
                position_index as int,
                acc,
                cache_view(*liq_cache),
            ) == goal_cache,
            goal_cache == account_recording_walk(
                *marginfi_account,
                remaining_ais@,
                readings@,
                requirement_type,
                config_lookup(*emode),
                is_cached,
                cache_view(*old(liq_cache)),
            ),
        decreases balances@.len() - balance_index,
    {
        let balance = &balances[balance_index];
        if !balance.is_active() {
            balance_index = balance_index + 1;
            continue;
        }
        let ghost c0 = cache_view(*liq_cache);
        let ghost here = recording_walk(
            balances@,
            remaining_ais@,
            readings@,
            requirement_type,
            config_lookup(*emode),
            is_cached,
            balance_index as int,
            account_index as int,
            position_index as int,
            acc,
            c0,
        );
        if account_index >= remaining_ais.len() {
            proof {
                assert(here == c0);
                assert(health_walk(
                    balances@,
                    remaining_ais@,
                    readings@,
                    requirement_type,
                    config_lookup(*emode),
                    is_cached,
                    balance_index as int,
                    account_index as int,
                    position_index as int,
                    acc,
                ) == Some(Err::<HealthTotals, MarginfiError>(MarginfiError::InvalidBankAccount)));
            }
            return Err(MarginfiError::InvalidBankAccount);
        }
        let bank = match &remaining_ais[account_index].bank {
            Some(b) => b,
            None => {
                proof {
                    assert(here == c0);
                    assert(health_walk(
                    balances@,
                    remaining_ais@,
                    readings@,
                    requirement_type,
                    config_lookup(*emode),
                    is_cached,
                    balance_index as int,
                    account_index as int,
                    position_index as int,
                    acc,
                ) == Some(Err::<HealthTotals, MarginfiError>(MarginfiError::AccountNotABank)));
                }
                return Err(MarginfiError::AccountNotABank);
            },
        };
        if !balance.bank_pk.same(&remaining_ais[account_index].key) {
            proof {
                assert(here == c0);
            }
            return Err(MarginfiError::InvalidBankAccount);
        }
        proof {
            assert(remaining_ais@[account_index as int].bank is Some);
            assert(bank_wf(*bank));
            assert(balances@[balance_index as int] == *balance);
            lemma_accounts_per_bank_bound(*bank);
        }
        let num_accounts = if is_cached {
            if !bank.cache.is_liquidation_price_cache_locked() {
                return Err(MarginfiError::InternalLogicError);
            }
            1
        } else {
            get_remaining_accounts_per_bank(bank)?
        };
        let (asset_val, liab_val, _price, err_code) = if is_cached {
            let (a, l, p) = calc_weighted_value_cached_for_balance(
                balance,
                bank,
                requirement_type,
                emode,
            )?;
            (a, l, p, 0u32)
        } else {
            let end_idx = account_index + num_accounts;
            if remaining_ais.len() < end_idx {
                return Err(MarginfiError::WrongNumberOfOracleAccounts);
            }
            calc_weighted_value_for_balance(
                balance,
                bank,
                &readings[position_index],
                requirement_type,
                emode,
                liq_cache,
                position_index,
            )?
        };
        let first_err = if err_code != 0 && acc.first_err.is_none() {
            Some(OracleFailureAt { position: position_index, code: err_code })
        } else {
            acc.first_err
        };
        let assets = match acc.assets.checked_add(asset_val) {
            Some(v) => v,
            None => return Err(MarginfiError::MathError),
        };
        let liabilities = match acc.liabilities.checked_add(liab_val) {
            Some(v) => v,
            None => return Err(MarginfiError::MathError),
        };
        acc = HealthTotals { assets, liabilities, first_err };
        account_index = account_index + num_accounts;
        balance_index = balance_index + 1;
        position_index = position_index + 1;
    }
    Ok(acc)
}


/// The emode lookup that prices an account's collateral: the reconciliation of the emode
/// configurations of its liability banks.
pub open spec fn account_emode_lookup(
    account: MarginfiAccount,
    remaining: Seq<RemainingAccount>,
    cached: bool,
) -> spec_fn(u16) -> Option<EmodeEntry> {
    |tag: u16|
        reconciled_entry(
            liability_emode_configs(account.lending_account.balances@, remaining, cached, 0, 0),
            tag,
        )
}

/// The risk engine's totals for an account: `AccountInFlashloan` during a flash loan, else the
/// health walk with the account's reconciled emode. `None` marks inputs it is not defined on.
pub open spec fn spec_health(
    account: MarginfiAccount,
    remaining: Seq<RemainingAccount>,
    readings: Seq<Result<PriceFeed, u32>>,
    r: RequirementType,
    mode: HealthPriceMode,
) -> Option<Result<HealthTotals, MarginfiError>> {
    if has_flag(account.account_flags, ACCOUNT_IN_FLASHLOAN) {
        Some(Err(MarginfiError::AccountInFlashloan))
    } else {
        let cached = mode is Cached;
        account_health_walk(
            account,
            remaining,
            readings,
            r,
            account_emode_lookup(account, remaining, cached),
            cached,
        )
    }
}

/// The readings of the liquidation price cache of `mode` after a health computation: during a
/// flash loan nothing is computed; otherwise the walk records what it reads (see
/// `recording_walk`).
pub open spec fn spec_health_recording(
    account: MarginfiAccount,
    remaining: Seq<RemainingAccount>,
    readings: Seq<Result<PriceFeed, u32>>,
    r: RequirementType,
    mode: HealthPriceMode,
) -> Option<CacheReadings> {
    if has_flag(account.account_flags, ACCOUNT_IN_FLASHLOAN) {
        mode_cache(mode)
    } else {
        let cached = mode is Cached;
        account_recording_walk(
            account,
            remaining,
            readings,
            r,
            account_emode_lookup(account, remaining, cached),
            cached,
            mode_cache(mode),
        )
    }
}

/// What a health computation's caller must provide: a bounded list of remaining accounts whose
/// banks are well formed, an account whose balances hold shares on one side at most, and inputs
/// on which the computation is defined.
pub open spec fn health_inputs_ok(
    account: MarginfiAccount,
    remaining: Seq<RemainingAccount>,
    readings: Seq<Result<PriceFeed, u32>>,
    r: RequirementType,
    mode: HealthPriceMode,
) -> bool {
    &&& remaining.len() + 4 <= usize::MAX
    &&& remaining_banks_wf(remaining)
    &&& all_sides_consistent(account.lending_account.balances@)
    &&& lending_account_wf(account.lending_account)
    &&& spec_health(account, remaining, readings, r, mode) is Some
}

/// The health cache after a computation that produced `t`.
pub open spec fn updated_cache(
    cache: Option<HealthCache>,
    r: RequirementType,
    t: HealthTotals,
) -> Option<HealthCache> {
    match cache {
        Some(c) => Some(cache_with_totals(c, r, t)),
        None => None,
    }
}

/// Calculates an account's weighted assets and liabilities under a requirement.
///
/// The emode configurations of the liability banks are reconciled first; then every active
/// balance is valued in turn, its bank read from the remaining accounts (one account per bank
/// with cached prices, the bank's full count of bank, oracle and venue accounts with live
/// prices) and its price from the bank's locked liquidation cache or from the position's oracle
/// reading. An oracle failure on a collateral position under initial margin makes the position
/// worth nothing and is recorded in the health cache. On success the health cache, when given,
/// keeps the totals of the requirement. With live prices and a liquidation price cache, each
/// position valued records its reading of the requirement's price type in the cache, also when
/// the computation then fails.
///
/// Returns (total_assets, total_liabilities) weighted according to `requirement_type`.
pub fn get_health_components(
    marginfi_account: &MarginfiAccount,
    remaining_ais: &Vec<RemainingAccount>,
    readings: &Vec<Result<PriceFeed, u32>>,
    requirement_type: RequirementType,
    health_cache: &mut Option<HealthCache>,
    price_mode: &mut HealthPriceMode,
) -> (r: Result<(i128, i128), MarginfiError>)
    requires
        health_inputs_ok(*marginfi_account, remaining_ais@, readings@, requirement_type, *old(price_mode)),
        cache_fits(mode_cache(*old(price_mode))),
    ensures
        (*final(price_mode) is Cached) == (*old(price_mode) is Cached),
        mode_cache(*final(price_mode)) == spec_health_recording(
            *marginfi_account,
            remaining_ais@,
            readings@,
            requirement_type,
            *old(price_mode),
        ),
        match spec_health(*marginfi_account, remaining_ais@, readings@, requirement_type, *old(price_mode))->0 {
            Ok(t) => r == Ok::<(i128, i128), MarginfiError>((t.assets, t.liabilities))
                && *final(health_cache) == updated_cache(*old(health_cache), requirement_type, t),
            Err(e) => r == Err::<(i128, i128), MarginfiError>(e) && *final(health_cache) == *old(
                health_cache,
            ),
        },
{
    if marginfi_account.get_flag(ACCOUNT_IN_FLASHLOAN) {
        return Err(MarginfiError::AccountInFlashloan);
    }
    let mut taken = HealthPriceMode::Cached;
    std::mem::swap(&mut taken, price_mode);
    let (is_cached, mut liq_cache) = match taken {
        HealthPriceMode::Cached => (true, None),
        HealthPriceMode::Live { liq_cache } => (false, liq_cache),
    };
    let configs = collect_liability_emode_configs(
        &marginfi_account.lending_account,
        remaining_ais,
        is_cached,
    );
    let reconciled_emode_config = reconcile_emode_configs(&configs);
    proof {
        assert(config_lookup(reconciled_emode_config) =~= account_emode_lookup(
            *marginfi_account,
            remaining_ais@,
            is_cached,
        ));
    }
    let walked = walk_health(
        marginfi_account,
        remaining_ais,
        readings,
        requirement_type,
        &reconciled_emode_config,
        is_cached,
        &mut liq_cache,
    );
    if !is_cached {
        *price_mode = HealthPriceMode::Live { liq_cache };
    }
    let totals = walked?;
    if health_cache.is_some() {
        let mut cache = health_cache.take().unwrap();
        match requirement_type {
            RequirementType::Initial => {
                cache.asset_value = totals.assets;
                cache.liability_value = totals.liabilities;
            },
            RequirementType::Maintenance => {
                cache.asset_value_maint = totals.assets;
                cache.liability_value_maint = totals.liabilities;
            },
            RequirementType::Equity => {
                cache.asset_value_equity = totals.assets;
                cache.liability_value_equity = totals.liabilities;
            },
        }
        match totals.first_err {
            Some(f) => {
                cache.err_index = f.position as u8;
                cache.internal_err = f.code;
            },
            None => {},
        }
        *health_cache = Some(cache);
    }
    Ok((totals.assets, totals.liabilities))
}


/// Running totals of a tagged health computation.
#[derive(PartialEq, Eq, Structural, Clone, Copy, Debug)]
pub struct TaggedTotals {
    pub assets: i128,
    pub liabilities: i128,
    pub asset_count: usize,
    pub liability_count: usize,
}

/// The equity walk restricted to balances whose tag is in `tags`; balances with other tags are
/// skipped after their bank has been read and matched.
pub open spec fn tagged_walk(
    balances: Seq<Balance>,
    remaining: Seq<RemainingAccount>,
    readings: Seq<Result<PriceFeed, u32>>,
    tags: Seq<u16>,
    emode: spec_fn(u16) -> Option<EmodeEntry>,
    bi: int,
    ai: int,
    pos: int,
    acc: TaggedTotals,
) -> Option<Result<TaggedTotals, MarginfiError>>
    decreases balances.len() - bi,
{
    if bi < 0 || bi >= balances.len() {
        Some(Ok(acc))
    } else if !balance_active(balances[bi]) {
        tagged_walk(balances, remaining, readings, tags, emode, bi + 1, ai, pos, acc)
    } else if ai < 0 || ai >= remaining.len() {
        Some(Err(MarginfiError::InvalidBankAccount))
    } else {
        match remaining[ai].bank {
            None => Some(Err(MarginfiError::AccountNotABank)),
            Some(bank) => if balances[bi].bank_pk != remaining[ai].key {
                Some(Err(MarginfiError::InvalidBankAccount))
            } else {
                match accounts_per_bank(bank) {
                    None => Some(Err(MarginfiError::AssetTagMismatch)),
                    Some(n) => if !tags.contains(balances[bi].tag) {
                        tagged_walk(balances, remaining, readings, tags, emode, bi + 1, ai + n, pos + 1, acc)
                    } else if remaining.len() < ai + n {
                        Some(Err(MarginfiError::WrongNumberOfOracleAccounts))
                    } else if pos < 0 || pos >= readings.len() {
                        None
                    } else {
                        match spec_live_value_for_balance(
                            balances[bi],
                            bank,
                            readings[pos],
                            RequirementType::Equity,
                            emode,
                        ) {
                            None => None,
                            Some(Err(e)) => Some(Err(e)),
                            Some(Ok((a, l, _p, _c))) => {
                                let asset_count = if balance_side(balances[bi]) == Some(
                                    BalanceSide::Assets,
                                ) {
                                    (acc.asset_count + 1) as usize
                                } else {
                                    acc.asset_count
                                };
                                let liability_count = if balance_side(balances[bi]) == Some(
                                    BalanceSide::Liabilities,
                                ) {
                                    (acc.liability_count + 1) as usize
                                } else {
                                    acc.liability_count
                                };
                                match checked(acc.assets + a) {
                                    None => Some(Err(MarginfiError::MathError)),
                                    Some(assets) => match checked(acc.liabilities + l) {
                                        None => Some(Err(MarginfiError::MathError)),
                                        Some(liabilities) => tagged_walk(
                                            balances,
                                            remaining,
                                            readings,
                                            tags,
                                            emode,
                                            bi + 1,
                                            ai + n,
                                            pos + 1,
                                            TaggedTotals { assets, liabilities, asset_count, liability_count },
                                        ),
                                    },
                                }
                            },
                        }
                    },
                }
            },
        }
    }
}

/// The tagged equity health of an account: zeros for no tags, else the tagged walk with the
/// account's reconciled emode (configurations read with each bank's full account count).
pub open spec fn spec_tagged_health(
    account: MarginfiAccount,
    remaining: Seq<RemainingAccount>,
    readings: Seq<Result<PriceFeed, u32>>,
    tags: Seq<u16>,
) -> Option<Result<TaggedTotals, MarginfiError>> {
    if tags.len() == 0 {
        Some(Ok(TaggedTotals { assets: 0, liabilities: 0, asset_count: 0, liability_count: 0 }))
    } else {
        tagged_walk(
            account.lending_account.balances@,
            remaining,
            readings,
            tags,
            account_emode_lookup(account, remaining, false),
            0,
            0,
            0,
            TaggedTotals { assets: 0, liabilities: 0, asset_count: 0, liability_count: 0 },
        )
    }
}

/// Returns the total equity assets and liabilities restricted to the balances whose tag is in
/// `balance_tags`, with the number of asset and liability balances among them: the equity
/// health of just the balances with matching tags. No tags give (0, 0, 0, 0).
pub fn get_tagged_account_health_components(
    marginfi_account: &MarginfiAccount,
    remaining_ais: &Vec<RemainingAccount>,
    readings: &Vec<Result<PriceFeed, u32>>,
    balance_tags: &Vec<u16>,
) -> (r: Result<(i128, i128, usize, usize), MarginfiError>)
    requires
        remaining_ais@.len() + 4 <= usize::MAX,
        remaining_banks_wf(remaining_ais@),
        all_sides_consistent(marginfi_account.lending_account.balances@),
        lending_account_wf(marginfi_account.lending_account),
        spec_tagged_health(*marginfi_account, remaining_ais@, readings@, balance_tags@) is Some,
    ensures
        r == match spec_tagged_health(*marginfi_account, remaining_ais@, readings@, balance_tags@)->0 {
            Ok(t) => Ok::<(i128, i128, usize, usize), MarginfiError>(
                (t.assets, t.liabilities, t.asset_count, t.liability_count),
            ),
            Err(e) => Err(e),
        },
{
    if balance_tags.len() == 0 {
        return Ok((0, 0, 0, 0));
    }
    let balances = &marginfi_account.lending_account.balances;
    let configs = collect_liability_emode_configs(&marginfi_account.lending_account, remaining_ais, false);
    let emode = reconcile_emode_configs(&configs);
    proof {
        assert(config_lookup(emode) =~= account_emode_lookup(*marginfi_account, remaining_ais@, false));
    }
    let ghost lookup = config_lookup(emode);
    let ghost goal = spec_tagged_health(*marginfi_account, remaining_ais@, readings@, balance_tags@);
    let mut acc = TaggedTotals { assets: 0, liabilities: 0, asset_count: 0, liability_count: 0 };
    let mut balance_index: usize = 0;
    let mut account_index: usize = 0;
    let mut position_index: usize = 0;
    while balance_index < balances.len()
        invariant
            balances@ == marginfi_account.lending_account.balances@,
            balances@.len() == crate::state::MAX_LENDING_ACCOUNT_BALANCES,
            balance_index <= balances@.len(),
            position_index <= balance_index,
            acc.asset_count + acc.liability_count <= position_index,
            account_index <= remaining_ais@.len() + 4,
            remaining_ais@.len() + 4 <= usize::MAX,
            remaining_banks_wf(remaining_ais@),
            all_sides_consistent(balances@),
            balance_tags@.len() > 0,
            lookup == config_lookup(emode),
            goal is Some,
            goal == spec_tagged_health(*marginfi_account, remaining_ais@, readings@, balance_tags@),
            tagged_walk(
                balances@,
                remaining_ais@,
                readings@,
                balance_tags@,
                lookup,
                balance_index as int,
                account_index as int,
                position_index as int,
                acc,
            ) == goal,
        decreases balances@.len() - balance_index,
    {
        let balance = &balances[balance_index];
        if !balance.is_active() {
            balance_index = balance_index + 1;
            continue;
        }
        if account_index >= remaining_ais.len() {
            return Err(MarginfiError::InvalidBankAccount);
        }
        let bank = match &remaining_ais[account_index].bank {
            Some(b) => b,
            None => return Err(MarginfiError::AccountNotABank),
        };
        if !balance.bank_pk.same(&remaining_ais[account_index].key) {
            return Err(MarginfiError::InvalidBankAccount);
        }
        proof {
            assert(remaining_ais@[account_index as int].bank is Some);
            assert(bank_wf(*bank));
            assert(balances@[balance_index as int] == *balance);
            lemma_accounts_per_bank_bound(*bank);
        }
        let num_accounts = get_remaining_accounts_per_bank(bank)?;
        let mut tagged = false;
        let mut k: usize = 0;
        while k < balance_tags.len()
            invariant
                k <= balance_tags@.len(),
                tagged == exists|j: int| 0 <= j < k && balance_tags@[j] == balance.tag,
            decreases balance_tags@.len() - k,
        {
            if balance_tags[k] == balance.tag {
                tagged = true;
            }
            k = k + 1;
        }
        proof {
            if tagged {
                let j = choose|j: int| 0 <= j < balance_tags@.len() && balance_tags@[j] == balance.tag;
                assert(balance_tags@.contains(balance.tag));
            }
        }
        if !tagged {
            account_index = account_index + num_accounts;
            balance_index = balance_index + 1;
            position_index = position_index + 1;
            continue;
        }
        let end_idx = account_index + num_accounts;
        if remaining_ais.len() < end_idx {
            return Err(MarginfiError::WrongNumberOfOracleAccounts);
        }
        let mut no_cache: Option<LiquidationPriceCache> = None;
        let (asset_val, liab_val, _price, _err_code) = calc_weighted_value_for_balance(
            balance,
            bank,
            &readings[position_index],
            RequirementType::Equity,
            &emode,
            &mut no_cache,
            position_index,
        )?;
        let side = balance.get_side();
        let asset_count = match side {
            Some(BalanceSide::Assets) => acc.asset_count + 1,
            _ => acc.asset_count,
        };
        let liability_count = match side {
            Some(BalanceSide::Liabilities) => acc.liability_count + 1,
            _ => acc.liability_count,
        };
        let assets = match acc.assets.checked_add(asset_val) {
            Some(v) => v,
            None => return Err(MarginfiError::MathError),
        };
        let liabilities = match acc.liabilities.checked_add(liab_val) {
            Some(v) => v,
            None => return Err(MarginfiError::MathError),
        };
        acc = TaggedTotals { assets, liabilities, asset_count, liability_count };
        account_index = account_index + num_accounts;
        balance_index = balance_index + 1;
        position_index = position_index + 1;
    }
    Ok((acc.assets, acc.liabilities, acc.asset_count, acc.liability_count))
}

} // verus!
