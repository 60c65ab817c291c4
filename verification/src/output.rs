//! What the client shows of banks and accounts: token amounts in whole units, and the side and
//! size of each balance.

use crate::bank::{asset_amount, liability_amount};
use crate::fixed_point::{div_bits, fits_i128, frac_unit, fx_checked_div, fx_from_u64, spec_div};
use crate::price::{exp10_bits, exp_10_i80f48, pow10};
use crate::state::{
    balance_active, side_empty, BalanceSide, Bank, MarginfiAccount, Pubkey, EXP_10_LEN,
};
use vstd::arithmetic::div_mod::{lemma_div_by_multiple, lemma_div_is_ordered_by_denominator};
use vstd::prelude::*;

verus! {

/// The decimals used to show a bank's amounts: its mint's, at most 23.
pub open spec fn spec_safe_decimals(bank: Bank) -> usize {
    if bank.mint_decimals < 23 {
        bank.mint_decimals as usize
    } else {
        23
    }
}

/// The mint decimals, clamped to the table of powers of ten.
pub fn safe_decimals(bank: &Bank) -> (r: usize)
    ensures
        r == spec_safe_decimals(*bank),
        r < EXP_10_LEN,
{
    let d = bank.mint_decimals as usize;
    if d < EXP_10_LEN - 1 {
        d
    } else {
        EXP_10_LEN - 1
    }
}

/// `10^n` is positive.
proof fn lemma_pow10_positive(n: nat)
    ensures
        pow10(n) >= 1,
    decreases n,
{
    if n > 0 {
        lemma_pow10_positive((n - 1) as nat);
    }
}

/// Dividing by a fixed-point number of at least one never grows a number.
proof fn lemma_div_by_at_least_one(a: i128, d: int)
    requires
        d >= frac_unit(),
    ensures
        fits_i128(div_bits(a as int, d)),
{
    let f = frac_unit();
    if a >= 0 {
        lemma_div_is_ordered_by_denominator(a * f, f, d);
        lemma_div_by_multiple(a as int, f);
        assert((a * f) / d >= 0) by (nonlinear_arith)
            requires
                a >= 0,
                f > 0,
                d > 0,
        ;
    } else {
        let b = -(a as int);
        assert(-(a * f) == b * f) by (nonlinear_arith)
            requires
                b == -(a as int),
        ;
        lemma_div_is_ordered_by_denominator(b * f, f, d);
        lemma_div_by_multiple(b, f);
        assert((b * f) / d >= 0) by (nonlinear_arith)
            requires
                b > 0,
                f > 0,
                d > 0,
        ;
    }
}

/// A token amount in whole units: the amount divided by `10^decimals`.
pub open spec fn ui_value(amount: i128, decimals: u8) -> i128 {
    spec_div(amount, exp10_bits(decimals) as i128)->0
}

/// An amount divided by `10^decimals`, which never overflows.
pub fn ui_amount(amount: i128, decimals: usize) -> (r: i128)
    requires
        decimals < EXP_10_LEN,
    ensures
        spec_div(amount, exp10_bits(decimals as u8) as i128) == Some(r),
        r == ui_value(amount, decimals as u8),
{
    let scale = exp_10_i80f48(decimals as u8);
    proof {
        lemma_pow10_positive(decimals as nat);
        assert(exp10_bits(decimals as u8) >= frac_unit()) by (nonlinear_arith)
            requires
                pow10(decimals as nat) >= 1,
                exp10_bits(decimals as u8) == pow10(decimals as nat) * frac_unit(),
                frac_unit() > 0,
        ;
        lemma_div_by_at_least_one(amount, scale as int);
    }
    match fx_checked_div(amount, scale) {
        Some(v) => v,
        None => 0,
    }
}

/// The bank's deposits and borrows in whole tokens; an amount that cannot be computed shows as
/// zero.
pub open spec fn spec_bank_totals(bank: Bank) -> (i128, i128) {
    let d = spec_safe_decimals(bank) as u8;
    let deposits = match asset_amount(bank, bank.total_asset_shares) {
        Ok(a) => a,
        Err(_) => 0,
    };
    let borrows = match liability_amount(bank, bank.total_liability_shares) {
        Ok(a) => a,
        Err(_) => 0,
    };
    (ui_value(deposits, d), ui_value(borrows, d))
}

/// The bank's deposits and borrows in whole tokens.
pub fn bank_totals(bank: &Bank) -> (r: (i128, i128))
    ensures
        r == spec_bank_totals(*bank),
{
    let d = safe_decimals(bank);
    let deposits = match bank.get_asset_amount(bank.total_asset_shares) {
        Ok(a) => a,
        Err(_) => 0,
    };
    let borrows = match bank.get_liability_amount(bank.total_liability_shares) {
        Ok(a) => a,
        Err(_) => 0,
    };
    (ui_amount(deposits, d), ui_amount(borrows, d))
}

/// The bank's deposit and borrow limits in whole tokens.
pub open spec fn spec_bank_limits(bank: Bank) -> (i128, i128) {
    let d = spec_safe_decimals(bank) as u8;
    (
        ui_value((bank.config.deposit_limit * frac_unit()) as i128, d),
        ui_value((bank.config.borrow_limit * frac_unit()) as i128, d),
    )
}

/// The bank's deposit and borrow limits in whole tokens.
pub fn bank_limits(bank: &Bank) -> (r: (i128, i128))
    ensures
        r == spec_bank_limits(*bank),
{
    let d = safe_decimals(bank);
    (
        ui_amount(fx_from_u64(bank.config.deposit_limit), d),
        ui_amount(fx_from_u64(bank.config.borrow_limit), d),
    )
}

/// The bank's unclaimed group fees and insurance fees in whole tokens.
pub open spec fn spec_bank_unclaimed_fees(bank: Bank) -> (i128, i128) {
    let d = spec_safe_decimals(bank) as u8;
    (
        ui_value(bank.collected_group_fees_outstanding, d),
        ui_value(bank.collected_insurance_fees_outstanding, d),
    )
}

/// The bank's unclaimed group fees and insurance fees in whole tokens.
pub fn bank_unclaimed_fees(bank: &Bank) -> (r: (i128, i128))
    ensures
        r == spec_bank_unclaimed_fees(*bank),
{
    let d = safe_decimals(bank);
    (
        ui_amount(bank.collected_group_fees_outstanding, d),
        ui_amount(bank.collected_insurance_fees_outstanding, d),
    )
}

/// One balance as shown: its bank, the bank's mint, its side and its amount in whole tokens.
#[derive(PartialEq, Eq, Structural, Clone, Copy, Debug)]
pub struct BalanceRow {
    pub bank: Pubkey,
    pub mint: Pubkey,
    pub side: BalanceSide,
    pub amount: i128,
}

/// How a balance shows in bank `bank`: as a deposit when it holds asset shares, else as a borrow
/// when it holds liability shares, else not at all.
pub open spec fn spec_balance_row(b: crate::state::Balance, bank: Bank) -> Option<BalanceRow> {
    let d = spec_safe_decimals(bank) as u8;
    if !side_empty(b, BalanceSide::Assets) {
        Some(
            BalanceRow {
                bank: b.bank_pk,
                mint: bank.mint,
                side: BalanceSide::Assets,
                amount: ui_value(
                    match asset_amount(bank, b.asset_shares) {
                        Ok(a) => a,
                        Err(_) => 0,
                    },
                    d,
                ),
            },
        )
    } else if !side_empty(b, BalanceSide::Liabilities) {
        Some(
            BalanceRow {
                bank: b.bank_pk,
                mint: bank.mint,
                side: BalanceSide::Liabilities,
                amount: ui_value(
                    match liability_amount(bank, b.liability_shares) {
                        Ok(a) => a,
                        Err(_) => 0,
                    },
                    d,
                ),
            },
        )
    } else {
        None
    }
}

/// The row of one balance.
pub fn balance_row(b: &crate::state::Balance, bank: &Bank) -> (r: Option<BalanceRow>)
    ensures
        r == spec_balance_row(*b, *bank),
{
    let d = safe_decimals(bank);
    if !b.is_empty(BalanceSide::Assets) {
        let a = match bank.get_asset_amount(b.asset_shares) {
            Ok(a) => a,
            Err(_) => 0,
        };
        Some(
            BalanceRow {
                bank: b.bank_pk,
                mint: bank.mint,
                side: BalanceSide::Assets,
                amount: ui_amount(a, d),
            },
        )
    } else if !b.is_empty(BalanceSide::Liabilities) {
        let a = match bank.get_liability_amount(b.liability_shares) {
            Ok(a) => a,
            Err(_) => 0,
        };
        Some(
            BalanceRow {
                bank: b.bank_pk,
                mint: bank.mint,
                side: BalanceSide::Liabilities,
                amount: ui_amount(a, d),
            },
        )
    } else {
        None
    }
}

/// The first bank of the list with key `key`.
pub open spec fn lookup_bank(banks: Seq<(Pubkey, Bank)>, key: Pubkey) -> Option<Bank>
    decreases banks.len(),
{
    if banks.len() == 0 {
        None
    } else if banks[0].0 == key {
        Some(banks[0].1)
    } else {
        lookup_bank(banks.drop_first(), key)
    }
}

/// The banks are keyed as a map is: no key occurs twice.
pub open spec fn distinct_bank_keys(banks: Seq<(Pubkey, Bank)>) -> bool {
    forall|i: int, j: int| 0 <= i < j < banks.len() ==> #[trigger] banks[i].0 != #[trigger] banks[j].0
}

/// With distinct keys the lookup reads the list as a map: each listed key finds its own bank,
/// whatever its place in the list, and a key that is not listed finds none.
pub proof fn lemma_lookup_is_by_key(banks: Seq<(Pubkey, Bank)>, key: Pubkey)
    requires
        distinct_bank_keys(banks),
    ensures
        forall|i: int| 0 <= i < banks.len() && #[trigger] banks[i].0 == key ==> lookup_bank(banks, key)
            == Some(banks[i].1),
        (forall|i: int| 0 <= i < banks.len() ==> #[trigger] banks[i].0 != key) ==> lookup_bank(
            banks,
            key,
        ) is None,
    decreases banks.len(),
{
    if banks.len() > 0 {
        let rest = banks.drop_first();
        assert forall|i: int, j: int| 0 <= i < j < rest.len() implies #[trigger] rest[i].0
            != #[trigger] rest[j].0 by {
            assert(rest[i] == banks[i + 1]);
            assert(rest[j] == banks[j + 1]);
        }
        lemma_lookup_is_by_key(rest, key);
        assert forall|i: int| 0 <= i < banks.len() && #[trigger] banks[i].0 == key implies lookup_bank(
            banks,
            key,
        ) == Some(banks[i].1) by {
            if i > 0 {
                assert(banks[0].0 != banks[i].0);
                assert(rest[i - 1] == banks[i]);
            }
        }
        if forall|i: int| 0 <= i < banks.len() ==> #[trigger] banks[i].0 != key {
            assert(banks[0].0 != key);
            assert forall|i: int| 0 <= i < rest.len() implies #[trigger] rest[i].0 != key by {
                assert(rest[i] == banks[i + 1]);
            }
        }
    }
}

/// The rows of `bs[..i]`: each active balance whose bank is known and that holds shares.
pub open spec fn balance_rows(bs: Seq<crate::state::Balance>, banks: Seq<(Pubkey, Bank)>, i: int) -> Seq<
    BalanceRow,
>
    decreases i,
{
    if i <= 0 || i > bs.len() {
        Seq::empty()
    } else {
        let prev = balance_rows(bs, banks, i - 1);
        let b = bs[i - 1];
        if !balance_active(b) {
            prev
        } else {
            match lookup_bank(banks, b.bank_pk) {
                None => prev,
                Some(bank) => match spec_balance_row(b, bank) {
                    None => prev,
                    Some(row) => prev.push(row),
                },
            }
        }
    }
}

/// Finds the bank with key `key`.
fn find_bank<'a>(banks: &'a Vec<(Pubkey, Bank)>, key: &Pubkey) -> (r: Option<&'a Bank>)
    ensures
        match lookup_bank(banks@, *key) {
            Some(b) => r matches Some(x) && *x == b,
            None => r is None,
        },
{
    let mut i: usize = 0;
    assert(banks@.skip(0) == banks@);
    while i < banks.len()
        invariant
            i <= banks@.len(),
            lookup_bank(banks@, *key) == lookup_bank(banks@.skip(i as int), *key),
        decreases banks@.len() - i,
    {
        assert(banks@.skip(i as int).drop_first() == banks@.skip(i + 1));
        if banks[i].0.same(key) {
            return Some(&banks[i].1);
        }
        i = i + 1;
    }
    None
}

/// The balances an account shows: in slot order, each active balance whose bank is among
/// `banks` (keyed by address, each key once) and that holds shares on one side.
pub fn account_balances(marginfi_account: &MarginfiAccount, banks: &Vec<(Pubkey, Bank)>) -> (r: Vec<
    BalanceRow,
>)
    requires
        distinct_bank_keys(banks@),
    ensures
        r@ == balance_rows(
            marginfi_account.lending_account.balances@,
            banks@,
            marginfi_account.lending_account.balances@.len() as int,
        ),
{
    let bs = &marginfi_account.lending_account.balances;
    let mut out: Vec<BalanceRow> = Vec::new();
    let mut i: usize = 0;
    while i < bs.len()
        invariant
            bs@ == marginfi_account.lending_account.balances@,
            i <= bs@.len(),
            out@ == balance_rows(bs@, banks@, i as int),
        decreases bs@.len() - i,
    {
        let b = &bs[i];
        if b.is_active() {
            match find_bank(banks, &b.bank_pk) {
                None => {},
                Some(bank) => match balance_row(b, bank) {
                    None => {},
                    Some(row) => out.push(row),
                },
            }
        }
        i = i + 1;
    }
    out
}

} // verus!
