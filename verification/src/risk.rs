//! Weighted values of single positions, as the risk engine counts them.

use crate::bank::{
    asset_amount, bank_wf, find_entry, get_oracle_price_type, liability_amount, or_math_error,
    requirement_price_type, spec_init_discount, weight,
};
use crate::cache::{cache_view, recorded_at, LiquidationPriceCache};
use crate::fixed_point::{fx_checked_mul, fx_max, spec_mul, ONE_BITS};
use crate::price::{
    apply_price_bias, calc_value, feed_reading, spec_apply_price_bias, spec_calc_value,
    OraclePriceWithConfidence, PriceFeed,
};
use crate::state::{
    balance_decimals, balance_side, balance_sides_consistent, Balance, BalanceSide, Bank,
    BankOperationalState, EmodeConfig, EmodeEntry, MarginfiError, OraclePriceType, PriceBias,
    RequirementType, RiskTier,
};
use vstd::prelude::*;

verus! {

/// A bank's cached liquidation price of the type a requirement reads.
pub open spec fn cached_reading(bank: Bank, r: RequirementType) -> OraclePriceWithConfidence {
    match requirement_price_type(r) {
        OraclePriceType::RealTime => OraclePriceWithConfidence {
            price: bank.cache.liquidation_price_rt,
            confidence: bank.cache.liquidation_price_rt_confidence,
        },
        OraclePriceType::TimeWeighted => OraclePriceWithConfidence {
            price: bank.cache.liquidation_price_twap,
            confidence: bank.cache.liquidation_price_twap_confidence,
        },
    }
}

/// The cached liquidation price and confidence of the type a requirement reads.
pub fn get_cached_price_with_confidence(bank: &Bank, requirement_type: RequirementType) -> (r:
    OraclePriceWithConfidence)
    ensures
        r == cached_reading(*bank, requirement_type),
{
    match get_oracle_price_type(requirement_type) {
        OraclePriceType::RealTime => OraclePriceWithConfidence {
            price: bank.cache.liquidation_price_rt,
            confidence: bank.cache.liquidation_price_rt_confidence,
        },
        OraclePriceType::TimeWeighted => OraclePriceWithConfidence {
            price: bank.cache.liquidation_price_twap,
            confidence: bank.cache.liquidation_price_twap_confidence,
        },
    }
}

/// The lookup of emode entries by collateral tag that a configuration provides.
pub open spec fn config_lookup(c: EmodeConfig) -> spec_fn(u16) -> Option<EmodeEntry> {
    |tag: u16| find_entry(c.entries@, tag)
}

/// Asset weight of a bank under a requirement: the larger of the bank's own weight and the
/// weight the reconciled emode configuration grants the bank's emode tag, if it grants one.
pub open spec fn emode_asset_weight(bank: Bank, r: RequirementType, emode: spec_fn(u16) -> Option<EmodeEntry>) -> i128 {
    let bank_weight = weight(bank.config, r, BalanceSide::Assets);
    match emode(bank.emode.emode_tag) {
        Some(e) => {
            let emode_weight = match r {
                RequirementType::Initial => e.asset_weight_init,
                RequirementType::Maintenance => e.asset_weight_maint,
                RequirementType::Equity => ONE_BITS,
            };
            if bank_weight >= emode_weight {
                bank_weight
            } else {
                emode_weight
            }
        },
        None => bank_weight,
    }
}

/// Emode never lowers the weight of collateral: the weight a bank's assets count with is at
/// least the bank's own weight for the requirement, at least the weight the emode configuration
/// grants the bank's tag (where it grants one), and one of the two.
pub proof fn lemma_emode_never_lowers_collateral_weight(
    bank: Bank,
    r: RequirementType,
    emode: spec_fn(u16) -> Option<EmodeEntry>,
)
    ensures
        ({
            let own = match r {
                RequirementType::Initial => bank.config.asset_weight_init,
                RequirementType::Maintenance => bank.config.asset_weight_maint,
                RequirementType::Equity => ONE_BITS,
            };
            let w = emode_asset_weight(bank, r, emode);
            &&& w >= own
            &&& emode(bank.emode.emode_tag) matches Some(e) ==> {
                let granted = match r {
                    RequirementType::Initial => e.asset_weight_init,
                    RequirementType::Maintenance => e.asset_weight_maint,
                    RequirementType::Equity => ONE_BITS,
                };
                w >= granted && (w == own || w == granted)
            }
            &&& emode(bank.emode.emode_tag) is None ==> w == own
        }),
{
}

/// Asset weight, emode included.
fn asset_weight(bank: &Bank, requirement_type: RequirementType, emode_config: &EmodeConfig) -> (w:
    i128)
    ensures
        w == emode_asset_weight(*bank, requirement_type, config_lookup(*emode_config)),
{
    let bank_weight = bank.config.get_weight(requirement_type, BalanceSide::Assets);
    match emode_config.find_with_tag(bank.emode.emode_tag) {
        Some(emode_entry) => {
            let emode_weight = match requirement_type {
                RequirementType::Initial => emode_entry.asset_weight_init,
                RequirementType::Maintenance => emode_entry.asset_weight_maint,
                RequirementType::Equity => ONE_BITS,
            };
            fx_max(bank_weight, emode_weight)
        },
        None => bank_weight,
    }
}

/// Weighted value of a collateral balance at the (low-biased) price `lower_price`: for initial
/// margin the weight is shrunk by the bank's initial-value discount. `None` where the weighting
/// overflows.
pub open spec fn spec_asset_value_at(
    balance: Balance,
    bank: Bank,
    r: RequirementType,
    emode: spec_fn(u16) -> Option<EmodeEntry>,
    lower_price: i128,
) -> Option<Result<i128, MarginfiError>> {
    let w0 = emode_asset_weight(bank, r, emode);
    let w = if r == RequirementType::Initial {
        match spec_init_discount(bank, lower_price) {
            Err(e) => Err(e),
            Ok(None) => Ok(w0),
            Ok(Some(d)) => or_math_error(spec_mul(w0, d)),
        }
    } else {
        Ok(w0)
    };
    match w {
        Err(e) => Some(Err(e)),
        Ok(w) => match asset_amount(bank, balance.asset_shares) {
            Err(e) => Some(Err(e)),
            Ok(amount) => spec_calc_value(amount, lower_price, balance_decimals(bank), Some(w)),
        },
    }
}

/// Weighted value of a collateral balance at a given low-biased price.
fn asset_value_at(
    balance: &Balance,
    bank: &Bank,
    requirement_type: RequirementType,
    emode_config: &EmodeConfig,
    lower_price: i128,
) -> (v: Result<i128, MarginfiError>)
    requires
        bank_wf(*bank),
        spec_asset_value_at(*balance, *bank, requirement_type, config_lookup(*emode_config), lower_price) is Some,
    ensures
        v == spec_asset_value_at(*balance, *bank, requirement_type, config_lookup(*emode_config), lower_price)->0,
{
    let mut asset_weight = asset_weight(bank, requirement_type, emode_config);
    if let RequirementType::Initial = requirement_type {
        if let Some(discount) = bank.maybe_get_asset_weight_init_discount(lower_price)? {
            asset_weight = match fx_checked_mul(asset_weight, discount) {
                Some(w) => w,
                None => return Err(MarginfiError::MathError),
            };
        }
    }
    let amount = bank.get_asset_amount(balance.asset_shares)?;
    calc_value(amount, lower_price, bank.get_balance_decimals(), Some(asset_weight))
}

/// Whether a bank's assets count for nothing under a requirement: reduce-only banks give no
/// initial collateral.
pub open spec fn reduce_only_initial(bank: Bank, r: RequirementType) -> bool {
    bank.config.operational_state == BankOperationalState::ReduceOnly && r
        == RequirementType::Initial
}

/// Weighted asset value and the price used, from the bank's cached liquidation prices.
pub open spec fn spec_cached_asset_value(
    balance: Balance,
    bank: Bank,
    r: RequirementType,
    emode: spec_fn(u16) -> Option<EmodeEntry>,
) -> Option<Result<(i128, i128), MarginfiError>> {
    match bank.config.risk_tier {
        RiskTier::Isolated => Some(Ok((0, 0))),
        RiskTier::Collateral => if reduce_only_initial(bank, r) {
            Some(Ok((0, 0)))
        } else {
            match spec_apply_price_bias(cached_reading(bank, r), PriceBias::Low) {
                Err(e) => Some(Err(e)),
                Ok(lower) => match spec_asset_value_at(balance, bank, r, emode, lower) {
                    None => None,
                    Some(Err(e)) => Some(Err(e)),
                    Some(Ok(v)) => Some(Ok((v, lower))),
                },
            }
        },
    }
}

/// Weighted asset value of a balance, priced from the bank's cached liquidation prices.
/// Isolated banks and reduce-only banks under initial margin are worth nothing.
pub fn calc_weighted_asset_value_cached_standalone(
    balance: &Balance,
    bank: &Bank,
    requirement_type: RequirementType,
    emode_config: &EmodeConfig,
) -> (r: Result<(i128, i128), MarginfiError>)
    requires
        bank_wf(*bank),
        spec_cached_asset_value(*balance, *bank, requirement_type, config_lookup(*emode_config)) is Some,
    ensures
        r == spec_cached_asset_value(*balance, *bank, requirement_type, config_lookup(*emode_config))->0,
{
    match bank.config.risk_tier {
        RiskTier::Collateral => {
            if bank.config.operational_state == BankOperationalState::ReduceOnly
                && requirement_type == RequirementType::Initial {
                return Ok((0, 0));
            }
            let price_with_confidence = get_cached_price_with_confidence(bank, requirement_type);
            let lower_price = apply_price_bias(price_with_confidence, PriceBias::Low)?;
            let value = asset_value_at(balance, bank, requirement_type, emode_config, lower_price)?;
            Ok((value, lower_price))
        },
        RiskTier::Isolated => Ok((0, 0)),
    }
}

/// Weighted liability value of a balance at a (high-biased) price.
pub open spec fn spec_liab_value_at(balance: Balance, bank: Bank, r: RequirementType, higher: i128) -> Option<
    Result<i128, MarginfiError>,
> {
    match liability_amount(bank, balance.liability_shares) {
        Err(e) => Some(Err(e)),
        Ok(amount) => spec_calc_value(
            amount,
            higher,
            balance_decimals(bank),
            Some(weight(bank.config, r, BalanceSide::Liabilities)),
        ),
    }
}

/// Weighted liability value and the price used, from the bank's cached liquidation prices.
pub open spec fn spec_cached_liab_value(balance: Balance, bank: Bank, r: RequirementType) -> Option<
    Result<(i128, i128), MarginfiError>,
> {
    match spec_apply_price_bias(cached_reading(bank, r), PriceBias::High) {
        Err(e) => Some(Err(e)),
        Ok(higher) => match spec_liab_value_at(balance, bank, r, higher) {
            None => None,
            Some(Err(e)) => Some(Err(e)),
            Some(Ok(v)) => Some(Ok((v, higher))),
        },
    }
}

/// Weighted liability value of a balance at a given high-biased price.
fn liab_value_at(balance: &Balance, bank: &Bank, requirement_type: RequirementType, higher: i128) -> (v:
    Result<i128, MarginfiError>)
    requires
        spec_liab_value_at(*balance, *bank, requirement_type, higher) is Some,
    ensures
        v == spec_liab_value_at(*balance, *bank, requirement_type, higher)->0,
{
    let liability_weight = bank.config.get_weight(requirement_type, BalanceSide::Liabilities);
    let amount = bank.get_liability_amount(balance.liability_shares)?;
    calc_value(amount, higher, bank.get_balance_decimals(), Some(liability_weight))
}

/// Weighted liability value of a balance, priced from the bank's cached liquidation prices.
pub fn calc_weighted_liab_value_cached_standalone(
    balance: &Balance,
    bank: &Bank,
    requirement_type: RequirementType,
) -> (r: Result<(i128, i128), MarginfiError>)
    requires
        spec_cached_liab_value(*balance, *bank, requirement_type) is Some,
    ensures
        r == spec_cached_liab_value(*balance, *bank, requirement_type)->0,
{
    let price_with_confidence = get_cached_price_with_confidence(bank, requirement_type);
    let higher_price = apply_price_bias(price_with_confidence, PriceBias::High)?;
    let value = liab_value_at(balance, bank, requirement_type, higher_price)?;
    Ok((value, higher_price))
}

/// Weighted (asset value, liability value, price) of a balance from cached prices, by the side
/// that holds shares; all zero for an empty balance.
pub open spec fn spec_cached_value_for_balance(
    balance: Balance,
    bank: Bank,
    r: RequirementType,
    emode: spec_fn(u16) -> Option<EmodeEntry>,
) -> Option<Result<(i128, i128, i128), MarginfiError>> {
    match balance_side(balance) {
        Some(BalanceSide::Assets) => match spec_cached_asset_value(balance, bank, r, emode) {
            None => None,
            Some(Err(e)) => Some(Err(e)),
            Some(Ok((v, p))) => Some(Ok((v, 0, p))),
        },
        Some(BalanceSide::Liabilities) => match spec_cached_liab_value(balance, bank, r) {
            None => None,
            Some(Err(e)) => Some(Err(e)),
            Some(Ok((v, p))) => Some(Ok((0, v, p))),
        },
        None => Some(Ok((0, 0, 0))),
    }
}

/// Weighted values of a balance from the bank's cached liquidation prices.
pub fn calc_weighted_value_cached_for_balance(
    balance: &Balance,
    bank: &Bank,
    requirement_type: RequirementType,
    emode_config: &EmodeConfig,
) -> (r: Result<(i128, i128, i128), MarginfiError>)
    requires
        bank_wf(*bank),
        balance_sides_consistent(*balance),
        spec_cached_value_for_balance(*balance, *bank, requirement_type, config_lookup(*emode_config)) is Some,
    ensures
        r == spec_cached_value_for_balance(*balance, *bank, requirement_type, config_lookup(*emode_config))->0,
{
    match balance.get_side() {
        Some(BalanceSide::Assets) => {
            let (value, price) = calc_weighted_asset_value_cached_standalone(
                balance,
                bank,
                requirement_type,
                emode_config,
            )?;
            Ok((value, 0, price))
        },
        Some(BalanceSide::Liabilities) => {
            let (value, price) = calc_weighted_liab_value_cached_standalone(
                balance,
                bank,
                requirement_type,
            )?;
            Ok((0, value, price))
        },
        None => Ok((0, 0, 0)),
    }
}

/// The error code an oracle reading carries: 0 when it succeeded.
pub open spec fn reading_err_code(reading: Result<PriceFeed, u32>) -> u32 {
    match reading {
        Ok(_) => 0,
        Err(code) => code,
    }
}

/// Weighted asset value, price and oracle error code of a balance priced from a live oracle
/// reading. A failed reading makes an initial-margin asset worth nothing (and reports its
/// code); under other requirements the failure is the result.
pub open spec fn spec_live_asset_value(
    balance: Balance,
    bank: Bank,
    reading: Result<PriceFeed, u32>,
    r: RequirementType,
    emode: spec_fn(u16) -> Option<EmodeEntry>,
) -> Option<Result<(i128, i128, u32), MarginfiError>> {
    match bank.config.risk_tier {
        RiskTier::Isolated => Some(Ok((0, 0, 0))),
        RiskTier::Collateral => if reduce_only_initial(bank, r) {
            Some(Ok((0, 0, 0)))
        } else {
            match reading {
                Err(code) => if r == RequirementType::Initial {
                    Some(Ok((0, 0, code)))
                } else {
                    Some(Err(MarginfiError::OracleFailure(code)))
                },
                Ok(feed) => match spec_apply_price_bias(
                    feed_reading(feed, requirement_price_type(r)),
                    PriceBias::Low,
                ) {
                    Err(e) => Some(Err(e)),
                    Ok(lower) => match spec_asset_value_at(balance, bank, r, emode, lower) {
                        None => None,
                        Some(Err(e)) => Some(Err(e)),
                        Some(Ok(v)) => Some(Ok((v, lower, 0))),
                    },
                },
            }
        },
    }
}

/// The reading a live asset valuation takes for the liquidation price cache: that of the
/// requirement's price type, for collateral counted under the requirement and a successful
/// oracle reading.
pub open spec fn live_asset_record(bank: Bank, reading: Result<PriceFeed, u32>, r: RequirementType) -> Option<
    OraclePriceWithConfidence,
> {
    match bank.config.risk_tier {
        RiskTier::Isolated => None,
        RiskTier::Collateral => if reduce_only_initial(bank, r) {
            None
        } else {
            match reading {
                Err(_) => None,
                Ok(feed) => Some(feed_reading(feed, requirement_price_type(r))),
            }
        },
    }
}

/// The reading a live liability valuation takes for the liquidation price cache: that of the
/// requirement's price type, for a successful oracle reading.
pub open spec fn live_liab_record(reading: Result<PriceFeed, u32>, r: RequirementType) -> Option<
    OraclePriceWithConfidence,
> {
    match reading {
        Err(_) => None,
        Ok(feed) => Some(feed_reading(feed, requirement_price_type(r))),
    }
}

/// The reading a live valuation of a balance takes for the liquidation price cache, by the side
/// that holds shares; none for an empty balance.
pub open spec fn live_record(balance: Balance, bank: Bank, reading: Result<PriceFeed, u32>, r: RequirementType) -> Option<
    OraclePriceWithConfidence,
> {
    match balance_side(balance) {
        Some(BalanceSide::Assets) => live_asset_record(bank, reading, r),
        Some(BalanceSide::Liabilities) => live_liab_record(reading, r),
        None => None,
    }
}

/// A cache, if given, has a slot of each price type for position `k`.
pub open spec fn has_slot(cache: Option<LiquidationPriceCache>, k: int) -> bool {
    cache matches Some(c) ==> k < c@.0.len() && k < c@.1.len()
}

/// Records `reading` for position `position_index` in the cache, when one is given.
fn record_reading(
    liq_cache: &mut Option<LiquidationPriceCache>,
    requirement_type: RequirementType,
    position_index: usize,
    reading: OraclePriceWithConfidence,
)
    requires
        has_slot(*old(liq_cache), position_index as int),
    ensures
        cache_view(*final(liq_cache)) == recorded_at(
            cache_view(*old(liq_cache)),
            requirement_type,
            position_index as int,
            Some(reading),
        ),
{
    match liq_cache {
        Some(cache) => cache.record(requirement_type, position_index, reading),
        None => {},
    }
}

/// Weighted asset value of a balance priced from the bank's oracle reading. With a liquidation
/// price cache given, the reading of the requirement's price type is recorded for
/// `position_index` before the price is biased.
pub fn calc_weighted_asset_value_standalone(
    balance: &Balance,
    bank: &Bank,
    price_adapter_result: &Result<PriceFeed, u32>,
    requirement_type: RequirementType,
    emode_config: &EmodeConfig,
    liq_cache: &mut Option<LiquidationPriceCache>,
    position_index: usize,
) -> (r: Result<(i128, i128, u32), MarginfiError>)
    requires
        bank_wf(*bank),
        has_slot(*old(liq_cache), position_index as int),
        spec_live_asset_value(*balance, *bank, *price_adapter_result, requirement_type, config_lookup(*emode_config))
            is Some,
    ensures
        r == spec_live_asset_value(
            *balance,
            *bank,
            *price_adapter_result,
            requirement_type,
            config_lookup(*emode_config),
        )->0,
        cache_view(*final(liq_cache)) == recorded_at(
            cache_view(*old(liq_cache)),
            requirement_type,
            position_index as int,
            live_asset_record(*bank, *price_adapter_result, requirement_type),
        ),
{
    match bank.config.risk_tier {
        RiskTier::Collateral => {
            if bank.config.operational_state == BankOperationalState::ReduceOnly
                && requirement_type == RequirementType::Initial {
                return Ok((0, 0, 0));
            }
            let price_feed = match price_adapter_result {
                Ok(feed) => feed,
                Err(code) => {
                    if requirement_type == RequirementType::Initial {
                        return Ok((0, 0, *code));
                    }
                    return Err(MarginfiError::OracleFailure(*code));
                },
            };
            let reading = price_feed.get_price_and_confidence_of_type(
                get_oracle_price_type(requirement_type),
            );
            record_reading(liq_cache, requirement_type, position_index, reading);
            let lower_price = apply_price_bias(reading, PriceBias::Low)?;
            let value = asset_value_at(balance, bank, requirement_type, emode_config, lower_price)?;
            Ok((value, lower_price, 0))
        },
        RiskTier::Isolated => Ok((0, 0, 0)),
    }
}

/// Weighted liability value and price of a balance priced from a live oracle reading; a failed
/// reading is the result.
pub open spec fn spec_live_liab_value(
    balance: Balance,
    bank: Bank,
    reading: Result<PriceFeed, u32>,
    r: RequirementType,
) -> Option<Result<(i128, i128), MarginfiError>> {
    match reading {
        Err(code) => Some(Err(MarginfiError::OracleFailure(code))),
        Ok(feed) => match spec_apply_price_bias(
            feed_reading(feed, requirement_price_type(r)),
            PriceBias::High,
        ) {
            Err(e) => Some(Err(e)),
            Ok(higher) => match spec_liab_value_at(balance, bank, r, higher) {
                None => None,
                Some(Err(e)) => Some(Err(e)),
                Some(Ok(v)) => Some(Ok((v, higher))),
            },
        },
    }
}

/// Weighted liability value of a balance priced from the bank's oracle reading. With a
/// liquidation price cache given, the reading of the requirement's price type is recorded for
/// `position_index` before the price is biased.
pub fn calc_weighted_liab_value_standalone(
    balance: &Balance,
    bank: &Bank,
    price_adapter_result: &Result<PriceFeed, u32>,
    requirement_type: RequirementType,
    liq_cache: &mut Option<LiquidationPriceCache>,
    position_index: usize,
) -> (r: Result<(i128, i128), MarginfiError>)
    requires
        has_slot(*old(liq_cache), position_index as int),
        spec_live_liab_value(*balance, *bank, *price_adapter_result, requirement_type) is Some,
    ensures
        r == spec_live_liab_value(*balance, *bank, *price_adapter_result, requirement_type)->0,
        cache_view(*final(liq_cache)) == recorded_at(
            cache_view(*old(liq_cache)),
            requirement_type,
            position_index as int,
            live_liab_record(*price_adapter_result, requirement_type),
        ),
{
    let price_feed = match price_adapter_result {
        Ok(feed) => feed,
        Err(code) => return Err(MarginfiError::OracleFailure(*code)),
    };
    let reading = price_feed.get_price_and_confidence_of_type(
        get_oracle_price_type(requirement_type),
    );
    record_reading(liq_cache, requirement_type, position_index, reading);
    let higher_price = apply_price_bias(reading, PriceBias::High)?;
    let value = liab_value_at(balance, bank, requirement_type, higher_price)?;
    Ok((value, higher_price))
}

/// Weighted (asset value, liability value, price, oracle error code) of a balance priced from a
/// live oracle reading, by the side that holds shares; all zero for an empty balance.
pub open spec fn spec_live_value_for_balance(
    balance: Balance,
    bank: Bank,
    reading: Result<PriceFeed, u32>,
    r: RequirementType,
    emode: spec_fn(u16) -> Option<EmodeEntry>,
) -> Option<Result<(i128, i128, i128, u32), MarginfiError>> {
    match balance_side(balance) {
        Some(BalanceSide::Assets) => match spec_live_asset_value(balance, bank, reading, r, emode) {
            None => None,
            Some(Err(e)) => Some(Err(e)),
            Some(Ok((v, p, c))) => Some(Ok((v, 0, p, c))),
        },
        Some(BalanceSide::Liabilities) => match spec_live_liab_value(balance, bank, reading, r) {
            None => None,
            Some(Err(e)) => Some(Err(e)),
            Some(Ok((v, p))) => Some(Ok((0, v, p, 0))),
        },
        None => Some(Ok((0, 0, 0, 0))),
    }
}

/// Weighted values of a balance priced from the bank's oracle reading; with a liquidation price
/// cache given, the reading taken is recorded for `position_index`.
pub fn calc_weighted_value_for_balance(
    balance: &Balance,
    bank: &Bank,
    price_adapter_result: &Result<PriceFeed, u32>,
    requirement_type: RequirementType,
    emode_config: &EmodeConfig,
    liq_cache: &mut Option<LiquidationPriceCache>,
    position_index: usize,
) -> (r: Result<(i128, i128, i128, u32), MarginfiError>)
    requires
        bank_wf(*bank),
        balance_sides_consistent(*balance),
        has_slot(*old(liq_cache), position_index as int),
        spec_live_value_for_balance(
            *balance,
            *bank,
            *price_adapter_result,
            requirement_type,
            config_lookup(*emode_config),
        ) is Some,
    ensures
        r == spec_live_value_for_balance(
            *balance,
            *bank,
            *price_adapter_result,
            requirement_type,
            config_lookup(*emode_config),
        )->0,
        cache_view(*final(liq_cache)) == recorded_at(
            cache_view(*old(liq_cache)),
            requirement_type,
            position_index as int,
            live_record(*balance, *bank, *price_adapter_result, requirement_type),
        ),
{
    match balance.get_side() {
        Some(BalanceSide::Assets) => {
            let (value, price, err_code) = calc_weighted_asset_value_standalone(
                balance,
                bank,
                price_adapter_result,
                requirement_type,
                emode_config,
                liq_cache,
                position_index,
            )?;
            Ok((value, 0, price, err_code))
        },
        Some(BalanceSide::Liabilities) => {
            let (value, price) = calc_weighted_liab_value_standalone(
                balance,
                bank,
                price_adapter_result,
                requirement_type,
                liq_cache,
                position_index,
            )?;
            Ok((0, value, price, 0))
        },
        None => Ok((0, 0, 0, 0)),
    }
}

} // verus!
