//! Matching an account's active balances with the bank accounts passed alongside it, and
//! writing or unlocking the liquidation price caches of those banks.

use crate::account::{accounts_per_bank, get_remaining_accounts_per_bank};
use crate::emode::{lemma_accounts_per_bank_bound, RemainingAccount};
use crate::price::{OraclePriceWithConfidence, PriceFeed};
use crate::bank::{get_oracle_price_type, requirement_price_type};
use crate::state::{
    balance_active, Balance, BankCache, LendingAccount, MarginfiAccount, MarginfiError,
    OraclePriceType, RequirementType, MAX_LENDING_ACCOUNT_BALANCES,
};
use vstd::prelude::*;

verus! {

/// An active balance together with the position of its bank among the remaining accounts.
#[derive(PartialEq, Eq, Structural, Clone, Copy, Debug)]
pub struct BankAccountWithCache {
    /// Position of the bank account among the remaining accounts.
    pub account_index: usize,
    /// Slot of the balance in the lending account.
    pub balance_index: usize,
}

/// Number of active balances among `bs[i..]`.
pub open spec fn active_count(bs: Seq<Balance>, i: int) -> nat
    decreases bs.len() - i,
{
    if i < 0 || i >= bs.len() {
        0
    } else {
        (if balance_active(bs[i]) {
            1nat
        } else {
            0nat
        }) + active_count(bs, i + 1)
    }
}

/// Matches the active balances of `bs[bi..]` with the bank accounts of `rem[ai..]`, in order.
/// A missing account or one of another key is `InvalidBankAccount`, one that holds no bank is
/// `AccountNotABank`, a bank of unknown asset tag is `AssetTagMismatch`; each bank takes one
/// account when `banks_only`, else its full count, which must be present
/// (`WrongNumberOfOracleAccounts`).
pub open spec fn load_walk(
    bs: Seq<Balance>,
    rem: Seq<RemainingAccount>,
    banks_only: bool,
    bi: int,
    ai: int,
) -> Result<Seq<BankAccountWithCache>, MarginfiError>
    decreases bs.len() - bi,
{
    if bi < 0 || bi >= bs.len() {
        Ok(Seq::empty())
    } else if !balance_active(bs[bi]) {
        load_walk(bs, rem, banks_only, bi + 1, ai)
    } else if ai < 0 || ai >= rem.len() {
        Err(MarginfiError::InvalidBankAccount)
    } else {
        match rem[ai].bank {
            None => Err(MarginfiError::AccountNotABank),
            Some(bank) => {
                let n: Option<usize> = if banks_only {
                    Some(1usize)
                } else {
                    accounts_per_bank(bank)
                };
                match n {
                    None => Err(MarginfiError::AssetTagMismatch),
                    Some(n) => if bs[bi].bank_pk != rem[ai].key {
                        Err(MarginfiError::InvalidBankAccount)
                    } else if !banks_only && rem.len() < ai + n {
                        Err(MarginfiError::WrongNumberOfOracleAccounts)
                    } else {
                        match load_walk(bs, rem, banks_only, bi + 1, ai + n) {
                            Err(e) => Err(e),
                            Ok(rest) => Ok(
                                seq![
                                    BankAccountWithCache {
                                        account_index: ai as usize,
                                        balance_index: bi as usize,
                                    },
                                ].add(rest),
                            ),
                        }
                    },
                }
            },
        }
    }
}

/// The banks of an account's active balances, as `BankAccountWithCache::load` finds them: the
/// remaining accounts hold only banks when there are exactly as many as active balances.
pub open spec fn spec_load(la: LendingAccount, rem: Seq<RemainingAccount>) -> Result<
    Seq<BankAccountWithCache>,
    MarginfiError,
> {
    load_walk(la.balances@, rem, rem.len() == active_count(la.balances@, 0), 0, 0)
}

/// Counts the active balances.
fn count_active(bs: &Vec<Balance>) -> (r: usize)
    ensures
        r == active_count(bs@, 0),
{
    let mut count: usize = 0;
    let mut i: usize = bs.len();
    while i > 0
        invariant
            i <= bs@.len(),
            count == active_count(bs@, i as int),
            count <= bs@.len() - i,
            bs@.len() <= usize::MAX,
        decreases i,
    {
        i = i - 1;
        if bs[i].is_active() {
            count = count + 1;
        }
    }
    count
}

/// A loaded bank lies among the remaining accounts, on a slot of an active balance.
proof fn lemma_load_walk_bounds(
    bs: Seq<Balance>,
    rem: Seq<RemainingAccount>,
    banks_only: bool,
    bi: int,
    ai: int,
)
    requires
        rem.len() <= usize::MAX,
    ensures
        load_walk(bs, rem, banks_only, bi, ai) matches Ok(ws) ==> forall|k: int|
            0 <= k < ws.len() ==> (#[trigger] ws[k]).account_index < rem.len() && ws[k].account_index
                >= ai && rem[ws[k].account_index as int].bank is Some,
    decreases bs.len() - bi,
{
    if 0 <= bi < bs.len() {
        if !balance_active(bs[bi]) {
            lemma_load_walk_bounds(bs, rem, banks_only, bi + 1, ai);
        } else if 0 <= ai < rem.len() {
            if let Some(bank) = rem[ai].bank {
                let n: Option<usize> = if banks_only {
                    Some(1usize)
                } else {
                    accounts_per_bank(bank)
                };
                if let Some(n) = n {
                    lemma_accounts_per_bank_bound(bank);
                    lemma_load_walk_bounds(bs, rem, banks_only, bi + 1, ai + n);
                    if let Ok(ws) = load_walk(bs, rem, banks_only, bi, ai) {
                        let rest = load_walk(bs, rem, banks_only, bi + 1, ai + n)->Ok_0;
                        assert forall|k: int| 0 <= k < ws.len() implies (#[trigger] ws[k]).account_index
                            < rem.len() && ws[k].account_index >= ai && rem[ws[k].account_index as int].bank is Some by {
                            if k > 0 {
                                assert(ws[k] == rest[k - 1]);
                            }
                        }
                    }
                }
            }
        }
    }
}

impl BankAccountWithCache {
    /// Matches the account's active balances, in slot order, with the bank accounts among the
    /// remaining accounts (see `load_walk`).
    pub fn load(lending_account: &LendingAccount, remaining_ais: &Vec<RemainingAccount>) -> (r:
        Result<Vec<BankAccountWithCache>, MarginfiError>)
        requires
            remaining_ais@.len() + 4 <= usize::MAX,
        ensures
            match spec_load(*lending_account, remaining_ais@) {
                Ok(ws) => r matches Ok(v) && v@ == ws,
                Err(e) => r == Err::<Vec<BankAccountWithCache>, MarginfiError>(e),
            },
    {
        let balances = &lending_account.balances;
        let banks_only = remaining_ais.len() == count_active(balances);
        let mut out: Vec<BankAccountWithCache> = Vec::new();
        let mut balance_index: usize = 0;
        let mut account_index: usize = 0;
        while balance_index < balances.len()
            invariant
                balances@ == lending_account.balances@,
                banks_only == (remaining_ais@.len() == active_count(balances@, 0)),
                balance_index <= balances@.len(),
                account_index <= remaining_ais@.len() + 4,
                remaining_ais@.len() + 4 <= usize::MAX,
                match load_walk(
                    balances@,
                    remaining_ais@,
                    banks_only,
                    balance_index as int,
                    account_index as int,
                ) {
                    Ok(rest) => spec_load(*lending_account, remaining_ais@) == Ok::<
                        Seq<BankAccountWithCache>,
                        MarginfiError,
                    >(out@ + rest),
                    Err(e) => spec_load(*lending_account, remaining_ais@) == Err::<
                        Seq<BankAccountWithCache>,
                        MarginfiError,
                    >(e),
                },
            decreases balances@.len() - balance_index,
        {
            let balance = &balances[balance_index];
            if !balance.is_active() {
                balance_index = balance_index + 1;
                continue;
            }
            if account_index >= remaining_ais.len() {
                return Err(MarginfiError::InvalidBankAccount);
            }
            let bank = match &remaining_ais[account_index].bank {
                Some(b) => b,
                None => return Err(MarginfiError::AccountNotABank),
            };
            let num_accounts = if banks_only {
                1
            } else {
                get_remaining_accounts_per_bank(bank)?
            };
            if !balance.bank_pk.same(&remaining_ais[account_index].key) {
                return Err(MarginfiError::InvalidBankAccount);
            }
            proof {
                lemma_accounts_per_bank_bound(*bank);
            }
            if !banks_only && remaining_ais.len() < account_index + num_accounts {
                return Err(MarginfiError::WrongNumberOfOracleAccounts);
            }
            let ghost before = out@;
            out.push(BankAccountWithCache { account_index, balance_index });
            proof {
                let item = BankAccountWithCache { account_index, balance_index };
                match load_walk(
                    balances@,
                    remaining_ais@,
                    banks_only,
                    balance_index + 1,
                    account_index + num_accounts,
                ) {
                    Ok(rest) => {
                        assert(before + seq![item].add(rest) == out@ + rest);
                    },
                    Err(e) => {},
                }
            }
            account_index = account_index + num_accounts;
            balance_index = balance_index + 1;
        }
        proof {
            assert(out@ + Seq::<BankAccountWithCache>::empty() == out@);
        }
        Ok(out)
    }
}

/// The remaining account with its bank's liquidation price cache unlocked.
pub open spec fn unlocked(ra: RemainingAccount) -> RemainingAccount {
    match ra.bank {
        Some(b) => RemainingAccount {
            bank: Some(
                crate::state::Bank {
                    cache: BankCache { liquidation_price_cache_locked: false, ..b.cache },
                    ..b
                },
            ),
            ..ra
        },
        None => ra,
    }
}

/// The remaining accounts after unlocking the banks of `ws[..k]`, one after the other.
pub open spec fn unlock_all(rem: Seq<RemainingAccount>, ws: Seq<BankAccountWithCache>, k: int) -> Seq<
    RemainingAccount,
>
    decreases k,
{
    if k <= 0 || k > ws.len() {
        rem
    } else {
        let prev = unlock_all(rem, ws, k - 1);
        let j = ws[k - 1].account_index as int;
        prev.update(j, unlocked(prev[j]))
    }
}

/// Unlocks the liquidation price cache of the bank held at `j`.
fn unlock_at(remaining: &mut Vec<RemainingAccount>, j: usize)
    requires
        j < old(remaining)@.len(),
    ensures
        final(remaining)@ == old(remaining)@.update(j as int, unlocked(old(remaining)@[j as int])),
{
    let mut ra = remaining.remove(j);
    if let Some(b) = &mut ra.bank {
        b.cache.clear_liquidation_price_cache_locked();
    }
    remaining.insert(j, ra);
}

/// Unlocks the liquidation price caches of the banks of the account's active balances. When
/// the banks cannot be matched (see `load_walk`) the error is returned and nothing changes.
pub fn clear_liquidation_price_cache_locks(
    marginfi_account: &MarginfiAccount,
    remaining_ais: &mut Vec<RemainingAccount>,
) -> (r: Result<(), MarginfiError>)
    requires
        old(remaining_ais)@.len() + 4 <= usize::MAX,
    ensures
        match spec_load(marginfi_account.lending_account, old(remaining_ais)@) {
            Ok(ws) => r is Ok && final(remaining_ais)@ == unlock_all(
                old(remaining_ais)@,
                ws,
                ws.len() as int,
            ),
            Err(e) => r == Err::<(), MarginfiError>(e) && final(remaining_ais)@ == old(
                remaining_ais,
            )@,
        },
{
    let bank_accounts_with_cache = BankAccountWithCache::load(
        &marginfi_account.lending_account,
        remaining_ais,
    )?;
    let ghost rem0 = remaining_ais@;
    let ghost ws = bank_accounts_with_cache@;
    proof {
        lemma_load_walk_bounds(
            marginfi_account.lending_account.balances@,
            rem0,
            rem0.len() == active_count(marginfi_account.lending_account.balances@, 0),
            0,
            0,
        );
    }
    let mut k: usize = 0;
    while k < bank_accounts_with_cache.len()
        invariant
            ws == bank_accounts_with_cache@,
            k <= ws.len(),
            remaining_ais@ == unlock_all(rem0, ws, k as int),
            remaining_ais@.len() == rem0.len(),
            forall|i: int| 0 <= i < ws.len() ==> (#[trigger] ws[i]).account_index < rem0.len(),
        decreases ws.len() - k,
    {
        let j = bank_accounts_with_cache[k].account_index;
        unlock_at(remaining_ais, j);
        k = k + 1;
    }
    Ok(())
}

/// Liquidation prices taken during a live health computation: for each position of the
/// account (its active balances in order), the reading of each price type, where one was taken.
#[derive(PartialEq, Eq, Clone, Debug)]
pub struct LiquidationPriceCache {
    pub real_time: Vec<Option<OraclePriceWithConfidence>>,
    pub time_weighted: Vec<Option<OraclePriceWithConfidence>>,
}

/// The readings of a liquidation price cache: real-time, then time-weighted, by position.
pub type CacheReadings = (Seq<Option<OraclePriceWithConfidence>>, Seq<Option<OraclePriceWithConfidence>>);

impl View for LiquidationPriceCache {
    type V = CacheReadings;

    open spec fn view(&self) -> CacheReadings {
        (self.real_time@, self.time_weighted@)
    }
}

/// The readings of an optional cache.
pub open spec fn cache_view(cache: Option<LiquidationPriceCache>) -> Option<CacheReadings> {
    match cache {
        Some(c) => Some(c@),
        None => None,
    }
}

/// A cache with a slot of each price type for every balance slot of an account.
pub open spec fn cache_fits(cache: Option<CacheReadings>) -> bool {
    cache matches Some(c) ==> c.0.len() == MAX_LENDING_ACCOUNT_BALANCES && c.1.len()
        == MAX_LENDING_ACCOUNT_BALANCES
}

/// The reading of `price_type` recorded for position `k`, if any.
pub open spec fn cache_slot(c: CacheReadings, price_type: OraclePriceType, k: int) -> Option<
    OraclePriceWithConfidence,
> {
    let slots = match price_type {
        OraclePriceType::RealTime => c.0,
        OraclePriceType::TimeWeighted => c.1,
    };
    if 0 <= k < slots.len() {
        slots[k]
    } else {
        None
    }
}

/// The readings after recording `price` as position `k`'s reading of the type `r` reads (where
/// the cache has a slot `k`).
pub open spec fn spec_record(c: CacheReadings, r: RequirementType, k: int, price: OraclePriceWithConfidence) -> CacheReadings {
    match requirement_price_type(r) {
        OraclePriceType::RealTime => if 0 <= k < c.0.len() {
            (c.0.update(k, Some(price)), c.1)
        } else {
            c
        },
        OraclePriceType::TimeWeighted => if 0 <= k < c.1.len() {
            (c.0, c.1.update(k, Some(price)))
        } else {
            c
        },
    }
}

/// An optional cache after recording `reading` (where one was taken) for position `k`.
pub open spec fn recorded_at(
    cache: Option<CacheReadings>,
    r: RequirementType,
    k: int,
    reading: Option<OraclePriceWithConfidence>,
) -> Option<CacheReadings> {
    match (cache, reading) {
        (Some(c), Some(p)) => Some(spec_record(c, r, k, p)),
        _ => cache,
    }
}

/// A zero price with zero confidence.
pub open spec fn zero_reading() -> OraclePriceWithConfidence {
    OraclePriceWithConfidence { price: 0, confidence: 0 }
}

/// The reading of `price_type` recorded for position `k`, zero where there is none.
pub open spec fn slot_or_zero(c: CacheReadings, price_type: OraclePriceType, k: int) -> OraclePriceWithConfidence {
    match cache_slot(c, price_type, k) {
        Some(p) => p,
        None => zero_reading(),
    }
}

/// The recorded readings of position `k`, zero where there is none.
pub open spec fn cached_feed(cache: CacheReadings, k: int) -> PriceFeed {
    PriceFeed {
        real_time: slot_or_zero(cache, OraclePriceType::RealTime, k),
        time_weighted: slot_or_zero(cache, OraclePriceType::TimeWeighted, k),
    }
}

/// The remaining account with its bank's liquidation prices set from `feed`, and locked.
pub open spec fn cached_with(ra: RemainingAccount, feed: PriceFeed) -> RemainingAccount {
    match ra.bank {
        Some(b) => RemainingAccount {
            bank: Some(
                crate::state::Bank {
                    cache: BankCache {
                        liquidation_price_rt: feed.real_time.price,
                        liquidation_price_rt_confidence: feed.real_time.confidence,
                        liquidation_price_twap: feed.time_weighted.price,
                        liquidation_price_twap_confidence: feed.time_weighted.confidence,
                        liquidation_price_cache_locked: true,
                    },
                    ..b
                },
            ),
            ..ra
        },
        None => ra,
    }
}

/// The remaining accounts after writing the cached prices of the banks of `ws[..k]`.
pub open spec fn write_all(
    rem: Seq<RemainingAccount>,
    ws: Seq<BankAccountWithCache>,
    cache: CacheReadings,
    k: int,
) -> Seq<RemainingAccount>
    decreases k,
{
    if k <= 0 || k > ws.len() {
        rem
    } else {
        let prev = write_all(rem, ws, cache, k - 1);
        let j = ws[k - 1].account_index as int;
        prev.update(j, cached_with(prev[j], cached_feed(cache, k - 1)))
    }
}

impl LiquidationPriceCache {
    /// A cache with no readings, sized for every balance slot of an account.
    pub fn new() -> (r: LiquidationPriceCache)
        ensures
            r@.0 == Seq::new(MAX_LENDING_ACCOUNT_BALANCES as nat, |i: int| None::<OraclePriceWithConfidence>),
            r@.1 == Seq::new(MAX_LENDING_ACCOUNT_BALANCES as nat, |i: int| None::<OraclePriceWithConfidence>),
    {
        let mut real_time: Vec<Option<OraclePriceWithConfidence>> = Vec::new();
        let mut time_weighted: Vec<Option<OraclePriceWithConfidence>> = Vec::new();
        let mut i: usize = 0;
        while i < MAX_LENDING_ACCOUNT_BALANCES
            invariant
                i <= MAX_LENDING_ACCOUNT_BALANCES,
                real_time@ == Seq::new(i as nat, |j: int| None::<OraclePriceWithConfidence>),
                time_weighted@ == Seq::new(i as nat, |j: int| None::<OraclePriceWithConfidence>),
            decreases MAX_LENDING_ACCOUNT_BALANCES - i,
        {
            real_time.push(None);
            time_weighted.push(None);
            i = i + 1;
        }
        LiquidationPriceCache { real_time, time_weighted }
    }

    /// The reading of `price_type` recorded for position `index`, if any.
    pub fn get_price(&self, price_type: OraclePriceType, index: usize) -> (r: Option<OraclePriceWithConfidence>)
        ensures
            r == cache_slot(self@, price_type, index as int),
    {
        let slots = match price_type {
            OraclePriceType::RealTime => &self.real_time,
            OraclePriceType::TimeWeighted => &self.time_weighted,
        };
        if index < slots.len() {
            slots[index]
        } else {
            None
        }
    }

    /// Records `price` as the reading of position `index` of the price type `requirement_type`
    /// reads.
    pub fn record(&mut self, requirement_type: RequirementType, index: usize, price: OraclePriceWithConfidence)
        requires
            index < old(self)@.0.len(),
            index < old(self)@.1.len(),
        ensures
            final(self)@ == spec_record(old(self)@, requirement_type, index as int, price),
    {
        match get_oracle_price_type(requirement_type) {
            OraclePriceType::RealTime => self.real_time.set(index, Some(price)),
            OraclePriceType::TimeWeighted => self.time_weighted.set(index, Some(price)),
        }
    }
}

/// Writes the cached prices into the bank held at `j` and locks its cache.
fn write_at(remaining: &mut Vec<RemainingAccount>, j: usize, feed: PriceFeed)
    requires
        j < old(remaining)@.len(),
    ensures
        final(remaining)@ == old(remaining)@.update(j as int, cached_with(old(remaining)@[j as int], feed)),
{
    let mut ra = remaining.remove(j);
    if let Some(b) = &mut ra.bank {
        b.cache.liquidation_price_rt = feed.real_time.price;
        b.cache.liquidation_price_rt_confidence = feed.real_time.confidence;
        b.cache.liquidation_price_twap = feed.time_weighted.price;
        b.cache.liquidation_price_twap_confidence = feed.time_weighted.confidence;
        b.cache.set_liquidation_price_cache_locked();
    }
    remaining.insert(j, ra);
}

/// Writes the cached liquidation prices into the banks of the account's active balances (the
/// `k`-th bank takes the `k`-th reading, zero where there is none) and locks their caches. When
/// the banks cannot be matched the error is returned and nothing changes.
pub fn write_liquidation_price_cache_from(
    marginfi_account: &MarginfiAccount,
    remaining_ais: &mut Vec<RemainingAccount>,
    liq_cache: &LiquidationPriceCache,
) -> (r: Result<(), MarginfiError>)
    requires
        old(remaining_ais)@.len() + 4 <= usize::MAX,
    ensures
        match spec_load(marginfi_account.lending_account, old(remaining_ais)@) {
            Ok(ws) => r is Ok && final(remaining_ais)@ == write_all(
                old(remaining_ais)@,
                ws,
                liq_cache@,
                ws.len() as int,
            ),
            Err(e) => r == Err::<(), MarginfiError>(e) && final(remaining_ais)@ == old(
                remaining_ais,
            )@,
        },
{
    let bank_accounts_with_cache = BankAccountWithCache::load(
        &marginfi_account.lending_account,
        remaining_ais,
    )?;
    let ghost rem0 = remaining_ais@;
    let ghost ws = bank_accounts_with_cache@;
    proof {
        lemma_load_walk_bounds(
            marginfi_account.lending_account.balances@,
            rem0,
            rem0.len() == active_count(marginfi_account.lending_account.balances@, 0),
            0,
            0,
        );
    }
    let mut k: usize = 0;
    while k < bank_accounts_with_cache.len()
        invariant
            ws == bank_accounts_with_cache@,
            k <= ws.len(),
            remaining_ais@ == write_all(rem0, ws, liq_cache@, k as int),
            remaining_ais@.len() == rem0.len(),
            forall|i: int| 0 <= i < ws.len() ==> (#[trigger] ws[i]).account_index < rem0.len(),
        decreases ws.len() - k,
    {
        let j = bank_accounts_with_cache[k].account_index;
        let zero_price = OraclePriceWithConfidence { price: 0, confidence: 0 };
        let price_rt = match liq_cache.get_price(OraclePriceType::RealTime, k) {
            Some(p) => p,
            None => zero_price,
        };
        let price_twap = match liq_cache.get_price(OraclePriceType::TimeWeighted, k) {
            Some(p) => p,
            None => zero_price,
        };
        let feed = PriceFeed { real_time: price_rt, time_weighted: price_twap };
        write_at(remaining_ais, j, feed);
        k = k + 1;
    }
    Ok(())
}

} // verus!
