//! A bank's share accounting, limits, weights and emode lookups.

use crate::fixed_point::{
    checked, div_bits, fits_i128, fx_checked_add, fx_checked_div, fx_checked_mul, fx_from_u64, frac_unit, spec_div,
    spec_mul, ONE_BITS,
};
use crate::price::{calc_value, spec_calc_value};
use crate::state::{
    Bank, BankCache, BankConfig, BalanceSide, EmodeConfig, EmodeEntry, MarginfiError, OraclePriceType,
    RequirementType, EXP_10_LEN,
};
use vstd::prelude::*;

verus! {

/// A bank whose decimals index the table of powers of ten.
pub open spec fn bank_wf(bank: Bank) -> bool {
    bank.mint_decimals < EXP_10_LEN
}

/// Which oracle price a requirement reads: initial margin uses the time-weighted price, the
/// others the real-time price.
pub open spec fn requirement_price_type(r: RequirementType) -> OraclePriceType {
    match r {
        RequirementType::Initial => OraclePriceType::TimeWeighted,
        _ => OraclePriceType::RealTime,
    }
}

/// The oracle price type a requirement reads.
pub fn get_oracle_price_type(r: RequirementType) -> (t: OraclePriceType)
    ensures
        t == requirement_price_type(r),
{
    match r {
        RequirementType::Initial => OraclePriceType::TimeWeighted,
        _ => OraclePriceType::RealTime,
    }
}

/// The weight a configuration gives a side under a requirement; equity weighs everything at one.
pub open spec fn weight(config: BankConfig, r: RequirementType, side: BalanceSide) -> i128 {
    match (r, side) {
        (RequirementType::Initial, BalanceSide::Assets) => config.asset_weight_init,
        (RequirementType::Initial, BalanceSide::Liabilities) => config.liability_weight_init,
        (RequirementType::Maintenance, BalanceSide::Assets) => config.asset_weight_maint,
        (RequirementType::Maintenance, BalanceSide::Liabilities) => config.liability_weight_maint,
        (RequirementType::Equity, _) => ONE_BITS,
    }
}

impl BankConfig {
    /// The weight of a side under a requirement.
    pub fn get_weight(&self, r: RequirementType, side: BalanceSide) -> (w: i128)
        ensures
            w == weight(*self, r, side),
    {
        match r {
            RequirementType::Initial => match side {
                BalanceSide::Assets => self.asset_weight_init,
                BalanceSide::Liabilities => self.liability_weight_init,
            },
            RequirementType::Maintenance => match side {
                BalanceSide::Assets => self.asset_weight_maint,
                BalanceSide::Liabilities => self.liability_weight_maint,
            },
            RequirementType::Equity => ONE_BITS,
        }
    }
}

/// `Some(v)` as `Ok(v)`, `None` as `MathError`.
pub open spec fn or_math_error(x: Option<i128>) -> Result<i128, MarginfiError> {
    match x {
        Some(v) => Ok(v),
        None => Err(MarginfiError::MathError),
    }
}

/// Token amount of asset shares.
pub open spec fn asset_amount(bank: Bank, shares: i128) -> Result<i128, MarginfiError> {
    or_math_error(spec_mul(shares, bank.asset_share_value))
}

/// Token amount of liability shares.
pub open spec fn liability_amount(bank: Bank, shares: i128) -> Result<i128, MarginfiError> {
    or_math_error(spec_mul(shares, bank.liability_share_value))
}

/// The token amount of liability shares is their product with the bank's liability share value
/// (rounded down in fixed point), whatever the bank's asset share value; at a liability share
/// value of one a share is a token. Symmetrically, the token amount of asset shares depends on the
/// asset share value alone, and converting a token amount into shares of either side divides by
/// that side's share value alone.
pub proof fn lemma_share_amounts_use_their_own_share_value(
    bank: Bank,
    shares: i128,
    other_value: i128,
)
    ensures
        liability_amount(bank, shares) matches Ok(x) ==> x == (shares * bank.liability_share_value)
            / frac_unit(),
        liability_amount(bank, shares) is Err ==> !fits_i128(
            (shares * bank.liability_share_value) / frac_unit(),
        ),
        liability_amount(Bank { asset_share_value: other_value, ..bank }, shares) == liability_amount(
            bank,
            shares,
        ),
        bank.liability_share_value == ONE_BITS ==> liability_amount(bank, shares) == Ok::<
            i128,
            MarginfiError,
        >(shares),
        asset_amount(bank, shares) matches Ok(x) ==> x == (shares * bank.asset_share_value)
            / frac_unit(),
        asset_amount(Bank { liability_share_value: other_value, ..bank }, shares) == asset_amount(
            bank,
            shares,
        ),
        bank.asset_share_value == ONE_BITS ==> asset_amount(bank, shares) == Ok::<i128, MarginfiError>(
            shares,
        ),
        liability_shares(bank, shares) matches Ok(x) ==> bank.liability_share_value != 0 && x
            == div_bits(shares as int, bank.liability_share_value as int),
        liability_shares(Bank { asset_share_value: other_value, ..bank }, shares)
            == liability_shares(bank, shares),
        asset_shares(bank, shares) matches Ok(x) ==> bank.asset_share_value != 0 && x == div_bits(
            shares as int,
            bank.asset_share_value as int,
        ),
        asset_shares(Bank { liability_share_value: other_value, ..bank }, shares) == asset_shares(
            bank,
            shares,
        ),
{
    if bank.liability_share_value == ONE_BITS {
        assert((shares * ONE_BITS) / frac_unit() == shares) by (nonlinear_arith)
            requires
                ONE_BITS == frac_unit(),
                frac_unit() > 0,
        ;
    }
    if bank.asset_share_value == ONE_BITS {
        assert((shares * ONE_BITS) / frac_unit() == shares) by (nonlinear_arith)
            requires
                ONE_BITS == frac_unit(),
                frac_unit() > 0,
        ;
    }
}

/// Asset shares of a token amount.
pub open spec fn asset_shares(bank: Bank, amount: i128) -> Result<i128, MarginfiError> {
    or_math_error(spec_div(amount, bank.asset_share_value))
}

/// Liability shares of a token amount.
pub open spec fn liability_shares(bank: Bank, amount: i128) -> Result<i128, MarginfiError> {
    or_math_error(spec_div(amount, bank.liability_share_value))
}

/// Whether the deposit limit applies (`u64::MAX` switches it off).
pub open spec fn deposit_limit_active(bank: Bank) -> bool {
    bank.config.deposit_limit != u64::MAX
}

/// Whether the borrow limit applies (`u64::MAX` switches it off).
pub open spec fn borrow_limit_active(bank: Bank) -> bool {
    bank.config.borrow_limit != u64::MAX
}

/// A position count one higher, stopping at the largest `i32`.
pub open spec fn count_up(c: i32) -> i32 {
    if c < i32::MAX {
        (c + 1) as i32
    } else {
        c
    }
}

/// A position count one lower, stopping at the smallest `i32`.
pub open spec fn count_down(c: i32) -> i32 {
    if c > i32::MIN {
        (c - 1) as i32
    } else {
        c
    }
}

/// The bank's utilization check: its deposits must cover its loans.
pub open spec fn utilization_check(bank: Bank) -> Result<(), MarginfiError> {
    match asset_amount(bank, bank.total_asset_shares) {
        Err(e) => Err(e),
        Ok(assets) => match liability_amount(bank, bank.total_liability_shares) {
            Err(e) => Err(e),
            Ok(liabs) => if assets < liabs {
                Err(MarginfiError::IllegalUtilizationRatio)
            } else {
                Ok(())
            },
        },
    }
}

/// What `maybe_get_asset_weight_init_discount` returns.
pub open spec fn spec_init_discount(bank: Bank, price: i128) -> Result<Option<i128>, MarginfiError> {
    if bank.config.total_asset_value_init_limit == 0 {
        Ok(None)
    } else {
        match asset_amount(bank, bank.total_asset_shares) {
            Err(e) => Err(e),
            Ok(total) => match spec_calc_value(total, price, bank.mint_decimals, None)->0 {
                Err(e) => Err(e),
                Ok(value) => {
                    let limit = bank.config.total_asset_value_init_limit * frac_unit();
                    if value > limit {
                        match spec_div(limit as i128, value) {
                            Some(d) => Ok(Some(d)),
                            None => Err(MarginfiError::MathError),
                        }
                    } else {
                        Ok(None)
                    }
                },
            },
        }
    }
}

impl Bank {
    /// Token amount of `shares` asset shares: `shares * asset_share_value`.
    pub fn get_asset_amount(&self, shares: i128) -> (r: Result<i128, MarginfiError>)
        ensures
            r == asset_amount(*self, shares),
    {
        match fx_checked_mul(shares, self.asset_share_value) {
            Some(v) => Ok(v),
            None => Err(MarginfiError::MathError),
        }
    }

    /// Token amount of `shares` liability shares: `shares * liability_share_value`.
    pub fn get_liability_amount(&self, shares: i128) -> (r: Result<i128, MarginfiError>)
        ensures
            r == liability_amount(*self, shares),
    {
        match fx_checked_mul(shares, self.liability_share_value) {
            Some(v) => Ok(v),
            None => Err(MarginfiError::MathError),
        }
    }

    /// Asset shares worth `amount` tokens: `amount / asset_share_value`.
    pub fn get_asset_shares(&self, amount: i128) -> (r: Result<i128, MarginfiError>)
        ensures
            r == asset_shares(*self, amount),
    {
        match fx_checked_div(amount, self.asset_share_value) {
            Some(v) => Ok(v),
            None => Err(MarginfiError::MathError),
        }
    }

    /// Liability shares worth `amount` tokens: `amount / liability_share_value`.
    pub fn get_liability_shares(&self, amount: i128) -> (r: Result<i128, MarginfiError>)
        ensures
            r == liability_shares(*self, amount),
    {
        match fx_checked_div(amount, self.liability_share_value) {
            Some(v) => Ok(v),
            None => Err(MarginfiError::MathError),
        }
    }

    /// Adds `shares` to the bank's total asset shares. When shares are added, the deposit limit
    /// is active and not bypassed, the new total deposits must stay strictly below the limit,
    /// else `BankAssetCapacityExceeded`.
    pub fn change_asset_shares(&mut self, shares: i128, bypass_deposit_limit: bool) -> (r: Result<
        (),
        MarginfiError,
    >)
        ensures
            checked(old(self).total_asset_shares + shares) is None ==> r == Err::<(), MarginfiError>(
                MarginfiError::MathError,
            ) && *final(self) == *old(self),
            checked(old(self).total_asset_shares + shares) is Some ==> {
                let t = checked(old(self).total_asset_shares + shares)->0;
                &&& *final(self) == (Bank { total_asset_shares: t, ..*old(self) })
                &&& r == if shares > 0 && deposit_limit_active(*old(self))
                    && !bypass_deposit_limit {
                    match asset_amount(*old(self), t) {
                        Err(e) => Err(e),
                        Ok(amount) => if amount < old(self).config.deposit_limit * frac_unit() {
                            Ok(())
                        } else {
                            Err(MarginfiError::BankAssetCapacityExceeded)
                        },
                    }
                } else {
                    Ok(())
                }
            },
    {
        let total = match fx_checked_add(self.total_asset_shares, shares) {
            Some(t) => t,
            None => return Err(MarginfiError::MathError),
        };
        self.total_asset_shares = total;
        if shares > 0 && self.config.deposit_limit != u64::MAX && !bypass_deposit_limit {
            let total_deposits_amount = self.get_asset_amount(total)?;
            let deposit_limit = fx_from_u64(self.config.deposit_limit);
            if !(total_deposits_amount < deposit_limit) {
                return Err(MarginfiError::BankAssetCapacityExceeded);
            }
        }
        Ok(())
    }

    /// Adds `shares` to the bank's total liability shares. When shares are added, the borrow
    /// limit is active and not bypassed, the new total borrows must stay strictly below the
    /// limit, else `BankLiabilityCapacityExceeded`.
    pub fn change_liability_shares(&mut self, shares: i128, bypass_borrow_limit: bool) -> (r:
        Result<(), MarginfiError>)
        ensures
            checked(old(self).total_liability_shares + shares) is None ==> r == Err::<
                (),
                MarginfiError,
            >(MarginfiError::MathError) && *final(self) == *old(self),
            checked(old(self).total_liability_shares + shares) is Some ==> {
                let t = checked(old(self).total_liability_shares + shares)->0;
                &&& *final(self) == (Bank { total_liability_shares: t, ..*old(self) })
                &&& r == if shares > 0 && borrow_limit_active(*old(self)) && !bypass_borrow_limit {
                    match liability_amount(*old(self), t) {
                        Err(e) => Err(e),
                        Ok(amount) => if amount < old(self).config.borrow_limit * frac_unit() {
                            Ok(())
                        } else {
                            Err(MarginfiError::BankLiabilityCapacityExceeded)
                        },
                    }
                } else {
                    Ok(())
                }
            },
    {
        let total = match fx_checked_add(self.total_liability_shares, shares) {
            Some(t) => t,
            None => return Err(MarginfiError::MathError),
        };
        self.total_liability_shares = total;
        if shares > 0 && self.config.borrow_limit != u64::MAX && !bypass_borrow_limit {
            let total_liability_amount = self.get_liability_amount(total)?;
            let borrow_limit = fx_from_u64(self.config.borrow_limit);
            if !(total_liability_amount < borrow_limit) {
                return Err(MarginfiError::BankLiabilityCapacityExceeded);
            }
        }
        Ok(())
    }

    /// The bank must hold at least as many assets as it lent: `IllegalUtilizationRatio`
    /// otherwise.
    pub fn check_utilization_ratio(&self) -> (r: Result<(), MarginfiError>)
        ensures
            r == utilization_check(*self),
    {
        let total_assets = self.get_asset_amount(self.total_asset_shares)?;
        let total_liabilities = self.get_liability_amount(self.total_liability_shares)?;
        if total_assets < total_liabilities {
            return Err(MarginfiError::IllegalUtilizationRatio);
        }
        Ok(())
    }

    /// One more open lending position.
    pub fn increment_lending_position_count(&mut self)
        ensures
            *final(self) == (Bank {
                lending_position_count: count_up(old(self).lending_position_count),
                ..*old(self)
            }),
    {
        if self.lending_position_count < i32::MAX {
            self.lending_position_count = self.lending_position_count + 1;
        }
    }

    /// One lending position fewer.
    pub fn decrement_lending_position_count(&mut self)
        ensures
            *final(self) == (Bank {
                lending_position_count: count_down(old(self).lending_position_count),
                ..*old(self)
            }),
    {
        if self.lending_position_count > i32::MIN {
            self.lending_position_count = self.lending_position_count - 1;
        }
    }

    /// One more open borrowing position.
    pub fn increment_borrowing_position_count(&mut self)
        ensures
            *final(self) == (Bank {
                borrowing_position_count: count_up(old(self).borrowing_position_count),
                ..*old(self)
            }),
    {
        if self.borrowing_position_count < i32::MAX {
            self.borrowing_position_count = self.borrowing_position_count + 1;
        }
    }

    /// One borrowing position fewer.
    pub fn decrement_borrowing_position_count(&mut self)
        ensures
            *final(self) == (Bank {
                borrowing_position_count: count_down(old(self).borrowing_position_count),
                ..*old(self)
            }),
    {
        if self.borrowing_position_count > i32::MIN {
            self.borrowing_position_count = self.borrowing_position_count - 1;
        }
    }

    /// When the bank's deposits are worth more than its initial-value limit, the factor
    /// `limit / value` by which initial asset weights shrink; `None` when the limit is off (0)
    /// or not reached.
    pub fn maybe_get_asset_weight_init_discount(&self, price: i128) -> (r: Result<
        Option<i128>,
        MarginfiError,
    >)
        requires
            bank_wf(*self),
        ensures
            r == spec_init_discount(*self, price),
    {
        if self.config.total_asset_value_init_limit == 0 {
            return Ok(None);
        }
        let total = self.get_asset_amount(self.total_asset_shares)?;
        let bank_total_assets_value = calc_value(total, price, self.mint_decimals, None)?;
        let total_asset_value_init_limit = fx_from_u64(self.config.total_asset_value_init_limit);
        if bank_total_assets_value > total_asset_value_init_limit {
            match fx_checked_div(total_asset_value_init_limit, bank_total_assets_value) {
                Some(d) => Ok(Some(d)),
                None => Err(MarginfiError::MathError),
            }
        } else {
            Ok(None)
        }
    }
}

/// The first entry of a configuration with the given tag; none for tag 0.
pub open spec fn find_entry(entries: Seq<EmodeEntry>, tag: u16) -> Option<EmodeEntry>
    decreases entries.len(),
{
    if tag == 0 || entries.len() == 0 {
        None
    } else if entries[0].collateral_bank_emode_tag == tag {
        Some(entries[0])
    } else {
        find_entry(entries.drop_first(), tag)
    }
}

impl EmodeConfig {
    /// A copy of the configuration.
    pub fn duplicate(&self) -> (r: EmodeConfig)
        ensures
            r.entries@ == self.entries@,
    {
        let mut entries: Vec<EmodeEntry> = Vec::new();
        let mut i: usize = 0;
        while i < self.entries.len()
            invariant
                i <= self.entries@.len(),
                entries@ == self.entries@.subrange(0, i as int),
            decreases self.entries@.len() - i,
        {
            entries.push(self.entries[i]);
            i = i + 1;
            assert(entries@ == self.entries@.subrange(0, i as int));
        }
        assert(self.entries@.subrange(0, self.entries@.len() as int) == self.entries@);
        EmodeConfig { entries }
    }

    /// The entry granted to collateral with emode tag `tag`, if any; tag 0 means no emode.
    pub fn find_with_tag(&self, tag: u16) -> (r: Option<EmodeEntry>)
        ensures
            r == find_entry(self.entries@, tag),
    {
        if tag == 0 {
            return None;
        }
        let mut i: usize = 0;
        assert(self.entries@.skip(0) == self.entries@);
        while i < self.entries.len()
            invariant
                i <= self.entries@.len(),
                tag != 0,
                find_entry(self.entries@, tag) == find_entry(self.entries@.skip(i as int), tag),
            decreases self.entries@.len() - i,
        {
            assert(self.entries@.skip(i as int).drop_first() == self.entries@.skip(i + 1));
            if self.entries[i].collateral_bank_emode_tag == tag {
                return Some(self.entries[i]);
            }
            i = i + 1;
        }
        None
    }
}

/// Converting a deposit into shares never gives shares worth more than the deposit: for a
/// non-negative token amount and a positive share value, the shares it buys are worth at most
/// the amount.
pub proof fn lemma_shares_never_overvalue(bank: Bank, amount: i128)
    requires
        amount >= 0,
        bank.asset_share_value > 0,
    ensures
        asset_shares(bank, amount) matches Ok(s) ==> (asset_amount(bank, s) matches Ok(a) ==> 0
            <= a <= amount),
{
    let v = bank.asset_share_value as int;
    let f = frac_unit();
    let x = amount * f;
    if let Ok(s) = asset_shares(bank, amount) {
        assert(s as int == x / v);
        assert(s * v <= x && s >= 0) by (nonlinear_arith)
            requires
                s as int == x / v,
                v > 0,
                x >= 0,
        ;
        vstd::arithmetic::div_mod::lemma_div_is_ordered(s * v, x, f);
        vstd::arithmetic::div_mod::lemma_div_by_multiple(amount as int, f);
        assert((s * v) / f >= 0) by (nonlinear_arith)
            requires
                s >= 0,
                v > 0,
                f > 0,
        ;
    }
}

impl BankCache {
    /// Marks the cached liquidation prices as locked.
    pub fn set_liquidation_price_cache_locked(&mut self)
        ensures
            *final(self) == (BankCache { liquidation_price_cache_locked: true, ..*old(self) }),
    {
        self.liquidation_price_cache_locked = true;
    }

    /// Releases the lock on the cached liquidation prices.
    pub fn clear_liquidation_price_cache_locked(&mut self)
        ensures
            *final(self) == (BankCache { liquidation_price_cache_locked: false, ..*old(self) }),
    {
        self.liquidation_price_cache_locked = false;
    }

    /// Whether the cached liquidation prices are locked.
    pub fn is_liquidation_price_cache_locked(&self) -> (r: bool)
        ensures
            r == self.liquidation_price_cache_locked,
    {
        self.liquidation_price_cache_locked
    }
}

} // verus!
