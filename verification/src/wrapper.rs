//! A balance together with its bank: deposits, repayments, withdrawals and borrows, and the
//! bookkeeping of shares, limits and position counts they entail.

use crate::bank::{
    asset_amount, asset_shares, borrow_limit_active, count_down, count_up, deposit_limit_active,
    liability_amount, liability_shares, utilization_check,
};
use crate::fixed_point::{
    ceil_bits, checked, floor_bits, frac_unit, mul_bits, fx_checked_add, fx_checked_ceil, fx_checked_floor,
    fx_checked_sub, fx_checked_to_u64, fx_max, fx_min, to_u64,
};
use crate::lending::first_inactive_from;
use crate::state::{
    balance_active, spec_empty_balance, Balance, Bank, BankCache, LendingAccount, MarginfiError, Pubkey,
    ASSET_TAG_DRIFT, ASSET_TAG_JUPLEND, ASSET_TAG_KAMINO, ASSET_TAG_SOLEND,
    MAX_INTEGRATION_POSITIONS, ZERO_AMOUNT_THRESHOLD,
};
use vstd::prelude::*;

verus! {

/// How a balance may grow.
#[derive(PartialEq, Eq, Structural, Clone, Copy, Debug)]
pub enum BalanceIncreaseType {
    Any,
    RepayOnly,
    DepositOnly,
    BypassDepositLimit,
}

/// How a balance may shrink.
#[derive(PartialEq, Eq, Structural, Clone, Copy, Debug)]
pub enum BalanceDecreaseType {
    WithdrawOnly,
    BorrowOnly,
    BypassBorrowLimit,
}

/// Whether an asset tag belongs to an integration (Kamino, Drift, Solend, JupLend).
pub open spec fn integration_tag(tag: u8) -> bool {
    tag == ASSET_TAG_KAMINO || tag == ASSET_TAG_DRIFT || tag == ASSET_TAG_SOLEND || tag
        == ASSET_TAG_JUPLEND
}

/// Whether an asset tag belongs to an integration.
pub fn is_integration_asset_tag(tag: u8) -> (r: bool)
    ensures
        r == integration_tag(tag),
{
    tag == ASSET_TAG_KAMINO || tag == ASSET_TAG_DRIFT || tag == ASSET_TAG_SOLEND || tag
        == ASSET_TAG_JUPLEND
}

/// `x` exceeds the zero-amount tolerance.
pub open spec fn above_tolerance(x: i128) -> bool {
    x > ZERO_AMOUNT_THRESHOLD
}

/// `|x|` is below the zero-amount tolerance (for `x` other than `i128::MIN`).
pub open spec fn within_tolerance(x: i128) -> bool {
    -ZERO_AMOUNT_THRESHOLD < x < ZERO_AMOUNT_THRESHOLD
}

/// Whether `x` exceeds the zero-amount tolerance.
pub fn is_positive_with_tolerance(x: i128) -> (r: bool)
    ensures
        r == above_tolerance(x),
{
    x > ZERO_AMOUNT_THRESHOLD
}

/// Whether `|x|` is below the zero-amount tolerance. The absolute value of `i128::MIN` does not
/// exist, so that input is left out.
pub fn is_zero_with_tolerance(x: i128) -> (r: bool)
    requires
        x != i128::MIN,
    ensures
        r == within_tolerance(x),
{
    let a = if x < 0 {
        -x
    } else {
        x
    };
    a < ZERO_AMOUNT_THRESHOLD
}

/// A balance of an account with the bank it is held in. The wrapper holds copies: after an
/// operation the caller stores `balance` back into slot `balance_index` and `bank` into the
/// bank's account.
#[derive(PartialEq, Eq, Clone, Debug)]
pub struct BankAccountWrapper {
    /// The balance's slot in the account.
    pub balance_index: usize,
    pub balance: Balance,
    pub bank: Bank,
}

/// The first active balance in bank `bank_pk`, by slot.
pub open spec fn first_active_with(bs: Seq<Balance>, bank_pk: Pubkey, i: int) -> Option<usize>
    decreases bs.len() - i,
{
    if i < 0 || i >= bs.len() {
        None
    } else if balance_active(bs[i]) && bs[i].bank_pk == bank_pk {
        Some(i as usize)
    } else {
        first_active_with(bs, bank_pk, i + 1)
    }
}

/// Number of active integration balances among `bs[i..]`.
pub open spec fn integration_count(bs: Seq<Balance>, i: int) -> nat
    decreases bs.len() - i,
{
    if i < 0 || i >= bs.len() {
        0
    } else {
        (if balance_active(bs[i]) && integration_tag(bs[i].bank_asset_tag) {
            1nat
        } else {
            0nat
        }) + integration_count(bs, i + 1)
    }
}

/// The balance opened for a bank: active, untagged, empty, stamped with the time.
pub open spec fn new_balance(bank_pk: Pubkey, bank: Bank, now: i64) -> Balance {
    Balance {
        active: 1,
        bank_pk,
        bank_asset_tag: bank.config.asset_tag,
        tag: 0,
        asset_shares: 0,
        liability_shares: 0,
        emissions_outstanding: 0,
        last_update: now as u64,
    }
}

/// Finds the slot of the account's active balance in `bank_pk`, with `first_active_with`.
fn position_of_active(bs: &Vec<Balance>, bank_pk: &Pubkey) -> (r: Option<usize>)
    ensures
        r == first_active_with(bs@, *bank_pk, 0),
{
    let mut i: usize = 0;
    while i < bs.len()
        invariant
            i <= bs@.len(),
            first_active_with(bs@, *bank_pk, 0) == first_active_with(bs@, *bank_pk, i as int),
        decreases bs@.len() - i,
    {
        if bs[i].is_active() && bs[i].bank_pk.same(bank_pk) {
            return Some(i);
        }
        i = i + 1;
    }
    None
}

/// Counts the account's active integration balances.
fn count_integration_positions(bs: &Vec<Balance>) -> (r: usize)
    ensures
        r == integration_count(bs@, 0),
{
    assert(bs@.len() == bs.len());
    let mut count: usize = 0;
    let mut i: usize = bs.len();
    while i > 0
        invariant
            i <= bs@.len(),
            count == integration_count(bs@, i as int),
            count <= bs@.len() - i,
            bs@.len() <= usize::MAX,
        decreases i,
    {
        i = i - 1;
        if bs[i].is_active() && is_integration_asset_tag(bs[i].bank_asset_tag) {
            count = count + 1;
        }
    }
    count
}

impl BankAccountWrapper {
    /// Find the account's active balance in bank `bank_pk`; `BankAccountNotFound` when there is
    /// none.
    pub fn find(bank_pk: &Pubkey, bank: Bank, lending_account: &LendingAccount) -> (r: Result<
        BankAccountWrapper,
        MarginfiError,
    >)
        ensures
            match first_active_with(lending_account.balances@, *bank_pk, 0) {
                Some(i) => r matches Ok(w) && w.balance_index == i && w.balance
                    == lending_account.balances@[i as int] && w.bank == bank,
                None => r == Err::<BankAccountWrapper, MarginfiError>(
                    MarginfiError::BankAccountNotFound,
                ),
            },
    {
        match position_of_active(&lending_account.balances, bank_pk) {
            Some(i) => {
                proof {
                    assert(lending_account.balances@.len() == lending_account.balances.len());
                    lemma_first_active_bounds(lending_account.balances@, *bank_pk, 0);
                }
                Ok(BankAccountWrapper { balance_index: i, balance: lending_account.balances[i], bank })
            },
            None => Err(MarginfiError::BankAccountNotFound),
        }
    }

    /// Find the account's active balance in bank `bank_pk`, or open one in the first free slot.
    /// Opening an integration position fails with `IntegrationPositionLimitExceeded` when the
    /// account already holds the maximum; a full account fails with
    /// `LendingAccountBalanceSlotsFull`. `now` is the current Unix time.
    pub fn find_or_create(
        bank_pk: &Pubkey,
        bank: Bank,
        lending_account: &mut LendingAccount,
        now: i64,
    ) -> (r: Result<BankAccountWrapper, MarginfiError>)
        ensures
            match first_active_with(old(lending_account).balances@, *bank_pk, 0) {
                Some(i) => r matches Ok(w) && w.balance_index == i && w.balance == old(
                    lending_account,
                ).balances@[i as int] && w.bank == bank && *final(lending_account) == *old(
                    lending_account,
                ),
                None => if integration_tag(bank.config.asset_tag) && integration_count(
                    old(lending_account).balances@,
                    0,
                ) >= MAX_INTEGRATION_POSITIONS {
                    r == Err::<BankAccountWrapper, MarginfiError>(
                        MarginfiError::IntegrationPositionLimitExceeded,
                    ) && *final(lending_account) == *old(lending_account)
                } else {
                    match first_inactive_from(old(lending_account).balances@, 0) {
                        None => r == Err::<BankAccountWrapper, MarginfiError>(
                            MarginfiError::LendingAccountBalanceSlotsFull,
                        ) && *final(lending_account) == *old(lending_account),
                        Some(e) => r matches Ok(w) && w.balance_index == e && w.balance
                            == new_balance(*bank_pk, bank, now) && w.bank == bank
                            && final(lending_account).balances@ == old(
                            lending_account,
                        ).balances@.update(e as int, new_balance(*bank_pk, bank, now))
                            && final(lending_account).last_tag_used == old(
                            lending_account,
                        ).last_tag_used,
                    }
                },
            },
    {
        match position_of_active(&lending_account.balances, bank_pk) {
            Some(i) => {
                proof {
                    assert(lending_account.balances@.len() == lending_account.balances.len());
                    lemma_first_active_bounds(lending_account.balances@, *bank_pk, 0);
                }
                let balance = lending_account.balances[i];
                Ok(BankAccountWrapper { balance_index: i, balance, bank })
            },
            None => {
                if is_integration_asset_tag(bank.config.asset_tag) {
                    let integration_position_count = count_integration_positions(
                        &lending_account.balances,
                    );
                    if !(integration_position_count < MAX_INTEGRATION_POSITIONS) {
                        return Err(MarginfiError::IntegrationPositionLimitExceeded);
                    }
                }
                let empty_index = match lending_account.get_first_empty_balance() {
                    Some(e) => e,
                    None => return Err(MarginfiError::LendingAccountBalanceSlotsFull),
                };
                let balance = Balance {
                    active: 1,
                    bank_pk: *bank_pk,
                    bank_asset_tag: bank.config.asset_tag,
                    tag: 0,
                    asset_shares: 0,
                    liability_shares: 0,
                    emissions_outstanding: 0,
                    last_update: now as u64,
                };
                lending_account.balances.set(empty_index, balance);
                Ok(BankAccountWrapper { balance_index: empty_index, balance, bank })
            },
        }
    }
}

/// The bank's position counts after a balance moved from (`had_assets`, `had_liabs`) to
/// (`has_assets`, `has_liabs`): a side that appears counts one position more, a side that
/// disappears one fewer.
pub open spec fn counts_after(
    bank: Bank,
    had_assets: bool,
    has_assets: bool,
    had_liabs: bool,
    has_liabs: bool,
) -> Bank {
    let lending = if !had_assets && has_assets {
        count_up(bank.lending_position_count)
    } else if had_assets && !has_assets {
        count_down(bank.lending_position_count)
    } else {
        bank.lending_position_count
    };
    let borrowing = if !had_liabs && has_liabs {
        count_up(bank.borrowing_position_count)
    } else if had_liabs && !has_liabs {
        count_down(bank.borrowing_position_count)
    } else {
        bank.borrowing_position_count
    };
    Bank { lending_position_count: lending, borrowing_position_count: borrowing, ..bank }
}

/// The bank with the position counts that follow a change of `before` into `after`.
pub open spec fn recount(bank: Bank, before: Balance, after: Balance) -> Bank {
    counts_after(
        bank,
        above_tolerance(before.asset_shares),
        above_tolerance(after.asset_shares),
        above_tolerance(before.liability_shares),
        above_tolerance(after.liability_shares),
    )
}

/// A failed step: the error, with the balance and the bank as the failure leaves them.
pub type Failure = (MarginfiError, Balance, Bank);

/// The bank after `shares` asset shares are added to its total; the deposit limit applies when
/// shares are added, the limit is on and not `bypass`ed. A refusal by the limit leaves the total
/// updated, an overflow leaves the bank as it was; the bank left is given with the error.
pub open spec fn bank_add_asset_shares(bank: Bank, shares: i128, bypass: bool) -> Result<
    Bank,
    (MarginfiError, Bank),
> {
    match checked(bank.total_asset_shares + shares) {
        None => Err((MarginfiError::MathError, bank)),
        Some(t) => {
            let k = Bank { total_asset_shares: t, ..bank };
            if shares > 0 && deposit_limit_active(bank) && !bypass {
                match asset_amount(bank, t) {
                    Err(e) => Err((e, k)),
                    Ok(amount) => if amount < bank.config.deposit_limit * frac_unit() {
                        Ok(k)
                    } else {
                        Err((MarginfiError::BankAssetCapacityExceeded, k))
                    },
                }
            } else {
                Ok(k)
            }
        },
    }
}

/// The bank after `shares` liability shares are added to its total; the borrow limit applies
/// when shares are added, the limit is on and not `bypass`ed. As with assets, the bank left by a
/// failure is given with the error.
pub open spec fn bank_add_liability_shares(bank: Bank, shares: i128, bypass: bool) -> Result<
    Bank,
    (MarginfiError, Bank),
> {
    match checked(bank.total_liability_shares + shares) {
        None => Err((MarginfiError::MathError, bank)),
        Some(t) => {
            let k = Bank { total_liability_shares: t, ..bank };
            if shares > 0 && borrow_limit_active(bank) && !bypass {
                match liability_amount(bank, t) {
                    Err(e) => Err((e, k)),
                    Ok(amount) => if amount < bank.config.borrow_limit * frac_unit() {
                        Ok(k)
                    } else {
                        Err((MarginfiError::BankLiabilityCapacityExceeded, k))
                    },
                }
            } else {
                Ok(k)
            }
        },
    }
}

/// Adds `shares` asset shares to the balance and then to the bank.
pub open spec fn add_asset_shares(balance: Balance, bank: Bank, shares: i128, bypass: bool) -> Result<
    (Balance, Bank),
    Failure,
> {
    match checked(balance.asset_shares + shares) {
        None => Err((MarginfiError::MathError, balance, bank)),
        Some(v) => {
            let b = Balance { asset_shares: v, ..balance };
            match bank_add_asset_shares(bank, shares, bypass) {
                Err(f) => Err((f.0, b, f.1)),
                Ok(k) => Ok((b, k)),
            }
        },
    }
}

/// Adds `shares` liability shares to the balance and then to the bank.
pub open spec fn add_liability_shares(balance: Balance, bank: Bank, shares: i128, bypass: bool) -> Result<
    (Balance, Bank),
    Failure,
> {
    match checked(balance.liability_shares + shares) {
        None => Err((MarginfiError::MathError, balance, bank)),
        Some(v) => {
            let b = Balance { liability_shares: v, ..balance };
            match bank_add_liability_shares(bank, shares, bypass) {
                Err(f) => Err((f.0, b, f.1)),
                Ok(k) => Ok((b, k)),
            }
        },
    }
}

/// The smaller of two numbers.
pub open spec fn min_i(a: i128, b: i128) -> i128 {
    if a <= b {
        a
    } else {
        b
    }
}

/// The larger of two numbers.
pub open spec fn max_i(a: i128, b: i128) -> i128 {
    if a >= b {
        a
    } else {
        b
    }
}

/// The second half of a balance increase: `asset_increase` tokens become asset shares and
/// `liability_decrease` tokens of debt are paid off. `None` where the shares to pay off have no
/// negation.
pub open spec fn increase_shares(
    balance: Balance,
    bank: Bank,
    asset_increase: i128,
    liability_decrease: i128,
    bypass_deposit_limit: bool,
) -> Option<Result<(Balance, Bank), Failure>> {
    match asset_shares(bank, asset_increase) {
        Err(e) => Some(Err((e, balance, bank))),
        Ok(s) => match add_asset_shares(balance, bank, s, bypass_deposit_limit) {
            Err(f) => Some(Err(f)),
            Ok(step) => match liability_shares(step.1, liability_decrease) {
                Err(e) => Some(Err((e, step.0, step.1))),
                Ok(l) => if l == i128::MIN {
                    None
                } else {
                    match add_liability_shares(step.0, step.1, (-l) as i128, true) {
                        Err(f) => Some(Err(f)),
                        Ok(done) => Some(Ok((done.0, recount(done.1, balance, done.0)))),
                    }
                },
            },
        },
    }
}

/// What increasing a balance by `delta` tokens does: the debt is paid off first, the rest is
/// deposited; `RepayOnly` refuses a deposit beyond the tolerance, `DepositOnly` a repayment
/// beyond it. The result is the new balance and bank, or the error with the balance and bank as
/// the failing step leaves them; `None` where the arithmetic has no result (a negation or an
/// absolute value of the smallest number).
pub open spec fn increase_outcome(
    balance: Balance,
    bank: Bank,
    delta: i128,
    operation_type: BalanceIncreaseType,
) -> Option<Result<(Balance, Bank), Failure>> {
    match liability_amount(bank, balance.liability_shares) {
        Err(e) => Some(Err((e, balance, bank))),
        Ok(debt) => match checked(delta - debt) {
            None => Some(Err((MarginfiError::MathError, balance, bank))),
            Some(d) => {
                let liability_decrease = min_i(debt, delta);
                let asset_increase = max_i(d, 0);
                if operation_type == BalanceIncreaseType::RepayOnly && !within_tolerance(
                    asset_increase,
                ) {
                    Some(Err((MarginfiError::OperationRepayOnly, balance, bank)))
                } else if operation_type == BalanceIncreaseType::DepositOnly && liability_decrease
                    == i128::MIN {
                    None
                } else if operation_type == BalanceIncreaseType::DepositOnly && !within_tolerance(
                    liability_decrease,
                ) {
                    Some(Err((MarginfiError::OperationDepositOnly, balance, bank)))
                } else {
                    increase_shares(
                        balance,
                        bank,
                        asset_increase,
                        liability_decrease,
                        operation_type == BalanceIncreaseType::BypassDepositLimit,
                    )
                }
            },
        },
    }
}

/// The second half of a balance decrease: `asset_decrease` tokens of deposit are withdrawn and
/// `liability_increase` tokens are borrowed; the bank's utilization is checked unless
/// `bypass_borrow_limit`. `None` where the shares to withdraw have no negation.
pub open spec fn decrease_shares(
    balance: Balance,
    bank: Bank,
    asset_decrease: i128,
    liability_increase: i128,
    bypass_borrow_limit: bool,
) -> Option<Result<(Balance, Bank), Failure>> {
    match asset_shares(bank, asset_decrease) {
        Err(e) => Some(Err((e, balance, bank))),
        Ok(s) => if s == i128::MIN {
            None
        } else {
            match add_asset_shares(balance, bank, (-s) as i128, false) {
                Err(f) => Some(Err(f)),
                Ok(step) => match liability_shares(step.1, liability_increase) {
                    Err(e) => Some(Err((e, step.0, step.1))),
                    Ok(l) => match add_liability_shares(step.0, step.1, l, bypass_borrow_limit) {
                        Err(f) => Some(Err(f)),
                        Ok(done) => if !bypass_borrow_limit && utilization_check(done.1) is Err {
                            Some(Err((utilization_check(done.1)->Err_0, done.0, done.1)))
                        } else {
                            Some(Ok((done.0, recount(done.1, balance, done.0))))
                        },
                    },
                },
            }
        },
    }
}

/// What decreasing a balance by `delta` tokens does: the deposit is withdrawn first, the rest is
/// borrowed; `WithdrawOnly` refuses a borrow beyond the tolerance, `BorrowOnly` a withdrawal
/// beyond it. The result is the new balance and bank, or the error with the balance and bank as
/// the failing step leaves them; `None` where the arithmetic has no result (a negation or an
/// absolute value of the smallest number).
pub open spec fn decrease_outcome(
    balance: Balance,
    bank: Bank,
    delta: i128,
    operation_type: BalanceDecreaseType,
) -> Option<Result<(Balance, Bank), Failure>> {
    match asset_amount(bank, balance.asset_shares) {
        Err(e) => Some(Err((e, balance, bank))),
        Ok(deposit) => match checked(delta - deposit) {
            None => Some(Err((MarginfiError::MathError, balance, bank))),
            Some(d) => {
                let asset_decrease = min_i(deposit, delta);
                let liability_increase = max_i(d, 0);
                if operation_type == BalanceDecreaseType::WithdrawOnly && !within_tolerance(
                    liability_increase,
                ) {
                    Some(Err((MarginfiError::OperationWithdrawOnly, balance, bank)))
                } else if operation_type == BalanceDecreaseType::BorrowOnly && asset_decrease
                    == i128::MIN {
                    None
                } else if operation_type == BalanceDecreaseType::BorrowOnly && !within_tolerance(
                    asset_decrease,
                ) {
                    Some(Err((MarginfiError::OperationBorrowOnly, balance, bank)))
                } else {
                    decrease_shares(
                        balance,
                        bank,
                        asset_decrease,
                        liability_increase,
                        operation_type == BalanceDecreaseType::BypassBorrowLimit,
                    )
                }
            },
        },
    }
}

/// Moves the bank's position counts as `counts_after` says.
fn update_position_counts(
    bank: &mut Bank,
    had_assets: bool,
    has_assets: bool,
    had_liabs: bool,
    has_liabs: bool,
)
    ensures
        *final(bank) == counts_after(*old(bank), had_assets, has_assets, had_liabs, has_liabs),
{
    if !had_assets && has_assets {
        bank.increment_lending_position_count();
    }
    if had_assets && !has_assets {
        bank.decrement_lending_position_count();
    }
    if !had_liabs && has_liabs {
        bank.increment_borrowing_position_count();
    }
    if had_liabs && !has_liabs {
        bank.decrement_borrowing_position_count();
    }
}

impl BankAccountWrapper {
    /// Increases the balance by `balance_delta` tokens: debt is repaid first, the rest is
    /// deposited. In `BypassDepositLimit` mode a debt can turn into a deposit.
    fn increase_balance_internal(
        &mut self,
        balance_delta: i128,
        operation_type: BalanceIncreaseType,
    ) -> (r: Result<(), MarginfiError>)
        requires
            increase_outcome(old(self).balance, old(self).bank, balance_delta, operation_type) is Some,
        ensures
            op_result(*old(self), *final(self), r, increase_outcome(old(self).balance, old(self).bank, balance_delta, operation_type)->0),
    {
        let had_assets = is_positive_with_tolerance(self.balance.asset_shares);
        let had_liabs = is_positive_with_tolerance(self.balance.liability_shares);
        let current_liability_amount = self.bank.get_liability_amount(self.balance.liability_shares)?;
        let liability_amount_decrease = fx_min(current_liability_amount, balance_delta);
        let difference = match fx_checked_sub(balance_delta, current_liability_amount) {
            Some(d) => d,
            None => return Err(MarginfiError::MathError),
        };
        let asset_amount_increase = fx_max(difference, 0);
        match operation_type {
            BalanceIncreaseType::RepayOnly => {
                if !is_zero_with_tolerance(asset_amount_increase) {
                    return Err(MarginfiError::OperationRepayOnly);
                }
            },
            BalanceIncreaseType::DepositOnly => {
                if !is_zero_with_tolerance(liability_amount_decrease) {
                    return Err(MarginfiError::OperationDepositOnly);
                }
            },
            _ => {},
        }
        let asset_shares_increase = self.bank.get_asset_shares(asset_amount_increase)?;
        self.balance.change_asset_shares(asset_shares_increase)?;
        self.bank.change_asset_shares(
            asset_shares_increase,
            operation_type == BalanceIncreaseType::BypassDepositLimit,
        )?;
        let liability_shares_decrease = self.bank.get_liability_shares(liability_amount_decrease)?;
        self.balance.change_liability_shares(-liability_shares_decrease)?;
        self.bank.change_liability_shares(-liability_shares_decrease, true)?;
        let has_assets = is_positive_with_tolerance(self.balance.asset_shares);
        let has_liabs = is_positive_with_tolerance(self.balance.liability_shares);
        update_position_counts(&mut self.bank, had_assets, has_assets, had_liabs, has_liabs);
        Ok(())
    }

    /// Decreases the balance by `balance_delta` tokens: the deposit is withdrawn first, the rest
    /// is borrowed. In `BypassBorrowLimit` mode a deposit can turn into a debt, and the bank's
    /// utilization is not checked.
    fn decrease_balance_internal(
        &mut self,
        balance_delta: i128,
        operation_type: BalanceDecreaseType,
    ) -> (r: Result<(), MarginfiError>)
        requires
            decrease_outcome(old(self).balance, old(self).bank, balance_delta, operation_type) is Some,
        ensures
            op_result(*old(self), *final(self), r, decrease_outcome(old(self).balance, old(self).bank, balance_delta, operation_type)->0),
    {
        let had_assets = is_positive_with_tolerance(self.balance.asset_shares);
        let had_liabs = is_positive_with_tolerance(self.balance.liability_shares);
        let current_asset_amount = self.bank.get_asset_amount(self.balance.asset_shares)?;
        let asset_amount_decrease = fx_min(current_asset_amount, balance_delta);
        let difference = match fx_checked_sub(balance_delta, current_asset_amount) {
            Some(d) => d,
            None => return Err(MarginfiError::MathError),
        };
        let liability_amount_increase = fx_max(difference, 0);
        match operation_type {
            BalanceDecreaseType::WithdrawOnly => {
                if !is_zero_with_tolerance(liability_amount_increase) {
                    return Err(MarginfiError::OperationWithdrawOnly);
                }
            },
            BalanceDecreaseType::BorrowOnly => {
                if !is_zero_with_tolerance(asset_amount_decrease) {
                    return Err(MarginfiError::OperationBorrowOnly);
                }
            },
            _ => {},
        }
        let asset_shares_decrease = self.bank.get_asset_shares(asset_amount_decrease)?;
        self.balance.change_asset_shares(-asset_shares_decrease)?;
        self.bank.change_asset_shares(-asset_shares_decrease, false)?;
        let liability_shares_increase = self.bank.get_liability_shares(liability_amount_increase)?;
        self.balance.change_liability_shares(liability_shares_increase)?;
        self.bank.change_liability_shares(
            liability_shares_increase,
            operation_type == BalanceDecreaseType::BypassBorrowLimit,
        )?;
        if operation_type != BalanceDecreaseType::BypassBorrowLimit {
            self.bank.check_utilization_ratio()?;
        }
        let has_assets = is_positive_with_tolerance(self.balance.asset_shares);
        let has_liabs = is_positive_with_tolerance(self.balance.liability_shares);
        update_position_counts(&mut self.bank, had_assets, has_assets, had_liabs, has_liabs);
        Ok(())
    }
}

/// The bank with its liquidation price cache unlocked when the account is in receivership.
pub open spec fn unlock_if(bank: Bank, in_receivership: bool) -> Bank {
    if in_receivership {
        Bank {
            cache: BankCache { liquidation_price_cache_locked: false, ..bank.cache },
            ..bank
        }
    } else {
        bank
    }
}

/// The tail of closing a position in full: the bank's fee buffer takes `remainder` and the
/// transferred token amount `transfer` becomes a `u64`. A failure leaves the fee buffer updated
/// when the sum was computed.
pub open spec fn settle_in_full(bank: Bank, transfer: i128, remainder: Option<i128>, balance: Balance) -> Option<
    Result<(u64, Balance, Bank), Failure>,
> {
    match remainder {
        None => Some(Err((MarginfiError::MathError, balance, bank))),
        Some(x) => match checked(x + bank.collected_insurance_fees_outstanding) {
            None => Some(Err((MarginfiError::MathError, balance, bank))),
            Some(fees) => {
                let settled = Bank { collected_insurance_fees_outstanding: fees, ..bank };
                match to_u64(transfer) {
                    None => Some(Err((MarginfiError::MathError, balance, settled))),
                    Some(n) => Some(Ok((n, balance, settled))),
                }
            },
        },
    }
}

/// What withdrawing a deposit in full does: the deposit must exceed the tolerance and the debt
/// stay within it (`NoAssetFound` otherwise); the slot is emptied, the bank loses the shares and
/// one lending position, its utilization is checked, the whole tokens are paid out and the
/// fraction left over goes to the insurance fees. The result is the token amount, the balance
/// and the bank, or the error with the balance and bank as the failing step leaves them; `None`
/// where the arithmetic has no result.
pub open spec fn withdraw_all_outcome(balance: Balance, bank: Bank, in_receivership: bool) -> Option<
    Result<(u64, Balance, Bank), Failure>,
> {
    match asset_amount(bank, balance.asset_shares) {
        Err(e) => Some(Err((e, balance, bank))),
        Ok(deposit) => match liability_amount(bank, balance.liability_shares) {
            Err(e) => Some(Err((e, balance, bank))),
            Ok(debt) => if !above_tolerance(deposit) {
                Some(Err((MarginfiError::NoAssetFound, balance, bank)))
            } else if debt == i128::MIN {
                None
            } else if !within_tolerance(debt) {
                Some(Err((MarginfiError::NoAssetFound, balance, bank)))
            } else if balance.asset_shares == i128::MIN {
                None
            } else {
                let unlocked = unlock_if(bank, in_receivership);
                let counted = Bank {
                    lending_position_count: count_down(unlocked.lending_position_count),
                    ..unlocked
                };
                let emptied = spec_empty_balance();
                match bank_add_asset_shares(counted, (-balance.asset_shares) as i128, false) {
                    Err(f) => Some(Err((f.0, emptied, f.1))),
                    Ok(k) => match utilization_check(k) {
                        Err(e) => Some(Err((e, emptied, k))),
                        Ok(_) => match checked(floor_bits(deposit as int)) {
                            None => Some(Err((MarginfiError::MathError, emptied, k))),
                            Some(whole) => settle_in_full(
                                k,
                                whole,
                                checked(deposit - whole),
                                emptied,
                            ),
                        },
                    },
                }
            },
        },
    }
}

/// What repaying a debt in full does: the debt must exceed the tolerance and the deposit stay
/// within it (`NoLiabilityFound` otherwise); the slot is emptied, the bank loses the shares and
/// one borrowing position, the debt rounded up to whole tokens is paid in and the rounding goes
/// to the insurance fees. The result is the token amount, the balance and the bank, or the error
/// with the balance and bank as the failing step leaves them; `None` where the arithmetic has no
/// result.
pub open spec fn repay_all_outcome(balance: Balance, bank: Bank, in_receivership: bool) -> Option<
    Result<(u64, Balance, Bank), Failure>,
> {
    match liability_amount(bank, balance.liability_shares) {
        Err(e) => Some(Err((e, balance, bank))),
        Ok(debt) => match asset_amount(bank, balance.asset_shares) {
            Err(e) => Some(Err((e, balance, bank))),
            Ok(deposit) => if !above_tolerance(debt) {
                Some(Err((MarginfiError::NoLiabilityFound, balance, bank)))
            } else if deposit == i128::MIN {
                None
            } else if !within_tolerance(deposit) {
                Some(Err((MarginfiError::NoLiabilityFound, balance, bank)))
            } else if balance.liability_shares == i128::MIN {
                None
            } else {
                let unlocked = unlock_if(bank, in_receivership);
                let counted = Bank {
                    borrowing_position_count: count_down(unlocked.borrowing_position_count),
                    ..unlocked
                };
                let emptied = spec_empty_balance();
                match bank_add_liability_shares(counted, (-balance.liability_shares) as i128, false) {
                    Err(f) => Some(Err((f.0, emptied, f.1))),
                    Ok(k) => match checked(ceil_bits(debt as int)) {
                        None => Some(Err((MarginfiError::MathError, emptied, k))),
                        Some(whole) => settle_in_full(k, whole, checked(whole - debt), emptied),
                    },
                }
            },
        },
    }
}

/// What closing a balance does: both sides must be within the tolerance
/// (`IllegalBalanceState` otherwise, nothing changed); the slot is emptied. `None` where the
/// arithmetic has no result.
pub open spec fn close_balance_outcome(balance: Balance, bank: Bank, in_receivership: bool) -> Option<
    Result<(Balance, Bank), Failure>,
> {
    match liability_amount(bank, balance.liability_shares) {
        Err(e) => Some(Err((e, balance, bank))),
        Ok(debt) => match asset_amount(bank, balance.asset_shares) {
            Err(e) => Some(Err((e, balance, bank))),
            Ok(deposit) => if debt == i128::MIN {
                None
            } else if !within_tolerance(debt) {
                Some(Err((MarginfiError::IllegalBalanceState, balance, bank)))
            } else if deposit == i128::MIN {
                None
            } else if !within_tolerance(deposit) {
                Some(Err((MarginfiError::IllegalBalanceState, balance, bank)))
            } else {
                Some(Ok((spec_empty_balance(), unlock_if(bank, in_receivership))))
            },
        },
    }
}

/// The state a balance operation leaves: the new balance and bank on success, and on failure
/// the error with the balance and bank as the failing step left them.
pub open spec fn op_result(
    before: BankAccountWrapper,
    after: BankAccountWrapper,
    r: Result<(), MarginfiError>,
    outcome: Result<(Balance, Bank), Failure>,
) -> bool {
    &&& after.balance_index == before.balance_index
    &&& match outcome {
        Ok(next) => r is Ok && after.balance == next.0 && after.bank == next.1,
        Err(f) => r == Err::<(), MarginfiError>(f.0) && after.balance == f.1 && after.bank == f.2,
    }
}

/// The state a full withdrawal or repayment leaves: the token amount, the new balance and bank
/// on success, and on failure the error with the balance and bank as the failing step left them.
pub open spec fn full_result(
    before: BankAccountWrapper,
    after: BankAccountWrapper,
    r: Result<u64, MarginfiError>,
    outcome: Result<(u64, Balance, Bank), Failure>,
) -> bool {
    &&& after.balance_index == before.balance_index
    &&& match outcome {
        Ok(next) => r == Ok::<u64, MarginfiError>(next.0) && after.balance == next.1 && after.bank
            == next.2,
        Err(f) => r == Err::<u64, MarginfiError>(f.0) && after.balance == f.1 && after.bank == f.2,
    }
}

impl BankAccountWrapper {
    /// Deposits `amount`; refuses (`OperationDepositOnly`) to repay a debt instead.
    pub fn deposit(&mut self, amount: i128) -> (r: Result<(), MarginfiError>)
        requires
            increase_outcome(old(self).balance, old(self).bank, amount, BalanceIncreaseType::DepositOnly) is Some,
        ensures
            op_result(*old(self), *final(self), r, increase_outcome(old(self).balance, old(self).bank, amount, BalanceIncreaseType::DepositOnly)->0),
    {
        self.increase_balance_internal(amount, BalanceIncreaseType::DepositOnly)
    }

    /// Deposits `amount` without repaying debt, for banks where borrowing is off; like
    /// `deposit`, a repayment is refused.
    pub fn deposit_no_repay(&mut self, amount: i128) -> (r: Result<(), MarginfiError>)
        requires
            increase_outcome(old(self).balance, old(self).bank, amount, BalanceIncreaseType::DepositOnly) is Some,
        ensures
            op_result(*old(self), *final(self), r, increase_outcome(old(self).balance, old(self).bank, amount, BalanceIncreaseType::DepositOnly)->0),
    {
        self.increase_balance_internal(amount, BalanceIncreaseType::DepositOnly)
    }

    /// Repays `amount` of debt; refuses (`OperationRepayOnly`) to deposit beyond the debt.
    pub fn repay(&mut self, amount: i128) -> (r: Result<(), MarginfiError>)
        requires
            increase_outcome(old(self).balance, old(self).bank, amount, BalanceIncreaseType::RepayOnly) is Some,
        ensures
            op_result(*old(self), *final(self), r, increase_outcome(old(self).balance, old(self).bank, amount, BalanceIncreaseType::RepayOnly)->0),
    {
        self.increase_balance_internal(amount, BalanceIncreaseType::RepayOnly)
    }

    /// Withdraws `amount` of deposit; refuses (`OperationWithdrawOnly`) to borrow beyond it.
    pub fn withdraw(&mut self, amount: i128) -> (r: Result<(), MarginfiError>)
        requires
            decrease_outcome(old(self).balance, old(self).bank, amount, BalanceDecreaseType::WithdrawOnly) is Some,
        ensures
            op_result(*old(self), *final(self), r, decrease_outcome(old(self).balance, old(self).bank, amount, BalanceDecreaseType::WithdrawOnly)->0),
    {
        self.decrease_balance_internal(amount, BalanceDecreaseType::WithdrawOnly)
    }

    /// Borrows `amount`; refuses (`OperationBorrowOnly`) to withdraw a deposit instead.
    pub fn borrow(&mut self, amount: i128) -> (r: Result<(), MarginfiError>)
        requires
            decrease_outcome(old(self).balance, old(self).bank, amount, BalanceDecreaseType::BorrowOnly) is Some,
        ensures
            op_result(*old(self), *final(self), r, decrease_outcome(old(self).balance, old(self).bank, amount, BalanceDecreaseType::BorrowOnly)->0),
    {
        self.decrease_balance_internal(amount, BalanceDecreaseType::BorrowOnly)
    }

    /// Adds `amount` past the deposit limit, repaying debt first (a debt may become a deposit).
    pub fn deposit_ignore_deposit_cap(&mut self, amount: i128) -> (r: Result<(), MarginfiError>)
        requires
            increase_outcome(old(self).balance, old(self).bank, amount, BalanceIncreaseType::BypassDepositLimit) is Some,
        ensures
            op_result(*old(self), *final(self), r, increase_outcome(old(self).balance, old(self).bank, amount, BalanceIncreaseType::BypassDepositLimit)->0),
    {
        self.increase_balance_internal(amount, BalanceIncreaseType::BypassDepositLimit)
    }

    /// Takes `amount` past the borrow limit and the utilization check, withdrawing the deposit
    /// first (a deposit may become a debt).
    pub fn withdraw_ignore_borrow_cap(&mut self, amount: i128) -> (r: Result<(), MarginfiError>)
        requires
            decrease_outcome(old(self).balance, old(self).bank, amount, BalanceDecreaseType::BypassBorrowLimit) is Some,
        ensures
            op_result(*old(self), *final(self), r, decrease_outcome(old(self).balance, old(self).bank, amount, BalanceDecreaseType::BypassBorrowLimit)->0),
    {
        self.decrease_balance_internal(amount, BalanceDecreaseType::BypassBorrowLimit)
    }

    /// Withdraws the whole deposit and returns the whole tokens paid out. In receivership the
    /// bank's liquidation price cache is unlocked.
    pub fn withdraw_all(&mut self, in_receivership: bool) -> (r: Result<u64, MarginfiError>)
        requires
            withdraw_all_outcome(old(self).balance, old(self).bank, in_receivership) is Some,
        ensures
            full_result(*old(self), *final(self), r, withdraw_all_outcome(old(self).balance, old(self).bank, in_receivership)->0),
    {
        let total_asset_shares = self.balance.asset_shares;
        let current_asset_amount = self.bank.get_asset_amount(total_asset_shares)?;
        let current_liability_amount = self.bank.get_liability_amount(self.balance.liability_shares)?;
        if !is_positive_with_tolerance(current_asset_amount) {
            return Err(MarginfiError::NoAssetFound);
        }
        if !is_zero_with_tolerance(current_liability_amount) {
            return Err(MarginfiError::NoAssetFound);
        }
        self.balance.close()?;
        if in_receivership {
            self.bank.cache.clear_liquidation_price_cache_locked();
        }
        self.bank.decrement_lending_position_count();
        self.bank.change_asset_shares(-total_asset_shares, false)?;
        self.bank.check_utilization_ratio()?;
        let spl_withdraw_amount = match fx_checked_floor(current_asset_amount) {
            Some(v) => v,
            None => return Err(MarginfiError::MathError),
        };
        let remainder = match fx_checked_sub(current_asset_amount, spl_withdraw_amount) {
            Some(v) => v,
            None => return Err(MarginfiError::MathError),
        };
        let fees = match fx_checked_add(remainder, self.bank.collected_insurance_fees_outstanding) {
            Some(v) => v,
            None => return Err(MarginfiError::MathError),
        };
        self.bank.collected_insurance_fees_outstanding = fees;
        match fx_checked_to_u64(spl_withdraw_amount) {
            Some(n) => Ok(n),
            None => Err(MarginfiError::MathError),
        }
    }

    /// Repays the whole debt and returns the whole tokens paid in. In receivership the bank's
    /// liquidation price cache is unlocked.
    pub fn repay_all(&mut self, in_receivership: bool) -> (r: Result<u64, MarginfiError>)
        requires
            repay_all_outcome(old(self).balance, old(self).bank, in_receivership) is Some,
        ensures
            full_result(*old(self), *final(self), r, repay_all_outcome(old(self).balance, old(self).bank, in_receivership)->0),
    {
        let total_liability_shares = self.balance.liability_shares;
        let current_liability_amount = self.bank.get_liability_amount(total_liability_shares)?;
        let current_asset_amount = self.bank.get_asset_amount(self.balance.asset_shares)?;
        if !is_positive_with_tolerance(current_liability_amount) {
            return Err(MarginfiError::NoLiabilityFound);
        }
        if !is_zero_with_tolerance(current_asset_amount) {
            return Err(MarginfiError::NoLiabilityFound);
        }
        self.balance.close()?;
        if in_receivership {
            self.bank.cache.clear_liquidation_price_cache_locked();
        }
        self.bank.decrement_borrowing_position_count();
        self.bank.change_liability_shares(-total_liability_shares, false)?;
        let spl_deposit_amount = match fx_checked_ceil(current_liability_amount) {
            Some(v) => v,
            None => return Err(MarginfiError::MathError),
        };
        let remainder = match fx_checked_sub(spl_deposit_amount, current_liability_amount) {
            Some(v) => v,
            None => return Err(MarginfiError::MathError),
        };
        let fees = match fx_checked_add(remainder, self.bank.collected_insurance_fees_outstanding) {
            Some(v) => v,
            None => return Err(MarginfiError::MathError),
        };
        self.bank.collected_insurance_fees_outstanding = fees;
        match fx_checked_to_u64(spl_deposit_amount) {
            Some(n) => Ok(n),
            None => Err(MarginfiError::MathError),
        }
    }

    /// Empties the slot of a balance with neither deposit nor debt beyond the tolerance. In
    /// receivership the bank's liquidation price cache is unlocked.
    pub fn close_balance(&mut self, in_receivership: bool) -> (r: Result<(), MarginfiError>)
        requires
            close_balance_outcome(old(self).balance, old(self).bank, in_receivership) is Some,
        ensures
            op_result(*old(self), *final(self), r, close_balance_outcome(old(self).balance, old(self).bank, in_receivership)->0),
    {
        let current_liability_amount = self.bank.get_liability_amount(self.balance.liability_shares)?;
        let current_asset_amount = self.bank.get_asset_amount(self.balance.asset_shares)?;
        if !is_zero_with_tolerance(current_liability_amount) {
            return Err(MarginfiError::IllegalBalanceState);
        }
        if !is_zero_with_tolerance(current_asset_amount) {
            return Err(MarginfiError::IllegalBalanceState);
        }
        self.balance.close()?;
        if in_receivership {
            self.bank.cache.clear_liquidation_price_cache_locked();
        }
        Ok(())
    }
}

/// Shares move in lockstep: after a successful increase or decrease of a balance, the bank's
/// total asset shares minus the balance's asset shares are what they were, and likewise for
/// liability shares.
pub proof fn lemma_shares_move_in_lockstep(
    balance: Balance,
    bank: Bank,
    delta: i128,
    increase: BalanceIncreaseType,
    decrease: BalanceDecreaseType,
)
    ensures
        increase_outcome(balance, bank, delta, increase) matches Some(Ok(after)) ==> {
            &&& after.1.total_asset_shares - after.0.asset_shares == bank.total_asset_shares
                - balance.asset_shares
            &&& after.1.total_liability_shares - after.0.liability_shares
                == bank.total_liability_shares - balance.liability_shares
        },
        decrease_outcome(balance, bank, delta, decrease) matches Some(Ok(after)) ==> {
            &&& after.1.total_asset_shares - after.0.asset_shares == bank.total_asset_shares
                - balance.asset_shares
            &&& after.1.total_liability_shares - after.0.liability_shares
                == bank.total_liability_shares - balance.liability_shares
        },
{
}

/// The bank's position counts follow the balance: after a successful increase or decrease, the
/// lending position count is one higher exactly when the balance's asset shares rose above the
/// tolerance, one lower exactly when they fell to it, and unchanged otherwise; likewise the
/// borrowing position count with the liability shares. (A count already at the end of its range
/// stays there.)
pub proof fn lemma_position_counts_follow_the_balance(
    balance: Balance,
    bank: Bank,
    delta: i128,
    increase: BalanceIncreaseType,
    decrease: BalanceDecreaseType,
)
    ensures
        increase_outcome(balance, bank, delta, increase) matches Some(Ok(after)) ==> {
            &&& after.1.lending_position_count == if !above_tolerance(balance.asset_shares)
                && above_tolerance(after.0.asset_shares) {
                count_up(bank.lending_position_count)
            } else if above_tolerance(balance.asset_shares) && !above_tolerance(
                after.0.asset_shares,
            ) {
                count_down(bank.lending_position_count)
            } else {
                bank.lending_position_count
            }
            &&& after.1.borrowing_position_count == if !above_tolerance(balance.liability_shares)
                && above_tolerance(after.0.liability_shares) {
                count_up(bank.borrowing_position_count)
            } else if above_tolerance(balance.liability_shares) && !above_tolerance(
                after.0.liability_shares,
            ) {
                count_down(bank.borrowing_position_count)
            } else {
                bank.borrowing_position_count
            }
        },
        decrease_outcome(balance, bank, delta, decrease) matches Some(Ok(after)) ==> {
            &&& after.1.lending_position_count == if !above_tolerance(balance.asset_shares)
                && above_tolerance(after.0.asset_shares) {
                count_up(bank.lending_position_count)
            } else if above_tolerance(balance.asset_shares) && !above_tolerance(
                after.0.asset_shares,
            ) {
                count_down(bank.lending_position_count)
            } else {
                bank.lending_position_count
            }
            &&& after.1.borrowing_position_count == if !above_tolerance(balance.liability_shares)
                && above_tolerance(after.0.liability_shares) {
                count_up(bank.borrowing_position_count)
            } else if above_tolerance(balance.liability_shares) && !above_tolerance(
                after.0.liability_shares,
            ) {
                count_down(bank.borrowing_position_count)
            } else {
                bank.borrowing_position_count
            }
        },
{
}

/// A bank's deposits cover its loans: the token value of its asset shares (shares times the asset
/// share value, in fixed point) is at least that of its liability shares.
pub open spec fn deposits_cover_loans(bank: Bank) -> bool {
    mul_bits(bank.total_asset_shares as int, bank.asset_share_value as int) >= mul_bits(
        bank.total_liability_shares as int,
        bank.liability_share_value as int,
    )
}

/// Taking money out never leaves a bank lending more than it holds: after a successful full
/// withdrawal, and after a successful withdrawal or borrow that does not bypass the borrow
/// limit, the bank's deposits cover its loans.
pub proof fn lemma_withdrawals_keep_deposits_covering_loans(
    balance: Balance,
    bank: Bank,
    in_receivership: bool,
    delta: i128,
    decrease: BalanceDecreaseType,
)
    ensures
        withdraw_all_outcome(balance, bank, in_receivership) matches Some(Ok(after))
            ==> deposits_cover_loans(after.2),
        decrease != BalanceDecreaseType::BypassBorrowLimit ==> (decrease_outcome(
            balance,
            bank,
            delta,
            decrease,
        ) matches Some(Ok(after)) ==> deposits_cover_loans(after.1)),
{
}

/// Closing a side in full settles it in whole tokens: a full withdrawal pays out the deposit's
/// token value rounded down to whole tokens and a full repayment takes in the debt's token value
/// rounded up; the fraction rounded away goes to the bank's insurance fees. The balance is
/// emptied, the bank's total shares of that side drop by exactly the balance's shares, the other
/// side's total is untouched, and the bank counts one position fewer on that side.
pub proof fn lemma_full_settlement_is_whole_tokens(balance: Balance, bank: Bank, in_receivership: bool)
    ensures
        withdraw_all_outcome(balance, bank, in_receivership) matches Some(Ok(after)) ==> {
            let deposit = mul_bits(balance.asset_shares as int, bank.asset_share_value as int);
            &&& after.0 * frac_unit() <= deposit < (after.0 + 1) * frac_unit()
            &&& after.1 == spec_empty_balance()
            &&& after.2.total_asset_shares == bank.total_asset_shares - balance.asset_shares
            &&& after.2.total_liability_shares == bank.total_liability_shares
            &&& after.2.collected_insurance_fees_outstanding
                == bank.collected_insurance_fees_outstanding + (deposit - after.0 * frac_unit())
            &&& after.2.lending_position_count == count_down(bank.lending_position_count)
            &&& after.2.borrowing_position_count == bank.borrowing_position_count
        },
        repay_all_outcome(balance, bank, in_receivership) matches Some(Ok(after)) ==> {
            let debt = mul_bits(balance.liability_shares as int, bank.liability_share_value as int);
            &&& (after.0 - 1) * frac_unit() < debt <= after.0 * frac_unit()
            &&& after.1 == spec_empty_balance()
            &&& after.2.total_liability_shares == bank.total_liability_shares
                - balance.liability_shares
            &&& after.2.total_asset_shares == bank.total_asset_shares
            &&& after.2.collected_insurance_fees_outstanding
                == bank.collected_insurance_fees_outstanding + (after.0 * frac_unit() - debt)
            &&& after.2.borrowing_position_count == count_down(bank.borrowing_position_count)
            &&& after.2.lending_position_count == bank.lending_position_count
        },
{
}

/// Only active integration positions count toward the integration limit: an account none of
/// whose balances carries an integration tag holds none, a slot whose old and new balances are
/// both no active integration position leaves the count as it was, and opening an integration
/// position in a free slot raises it by one.
pub proof fn lemma_only_integration_positions_count(bs: Seq<Balance>, k: int, b: Balance)
    ensures
        (forall|i: int| 0 <= i < bs.len() ==> !integration_tag(#[trigger] bs[i].bank_asset_tag))
            ==> integration_count(bs, 0) == 0,
        0 <= k < bs.len() && !(balance_active(b) && integration_tag(b.bank_asset_tag)) && !(
        balance_active(bs[k]) && integration_tag(bs[k].bank_asset_tag)) ==> integration_count(
            bs.update(k, b),
            0,
        ) == integration_count(bs, 0),
        0 <= k < bs.len() && balance_active(b) && integration_tag(b.bank_asset_tag)
            && !balance_active(bs[k]) ==> integration_count(bs.update(k, b), 0) == integration_count(
            bs,
            0,
        ) + 1,
        integration_count(bs, 0) <= bs.len(),
{
    lemma_integration_count_from(bs, k, b, 0);
}

/// `lemma_only_integration_positions_count`, over `bs[i..]`.
proof fn lemma_integration_count_from(bs: Seq<Balance>, k: int, b: Balance, i: int)
    requires
        0 <= i,
    ensures
        (forall|j: int| 0 <= j < bs.len() ==> !integration_tag(#[trigger] bs[j].bank_asset_tag))
            ==> integration_count(bs, i) == 0,
        0 <= k < bs.len() && !(balance_active(b) && integration_tag(b.bank_asset_tag)) && !(
        balance_active(bs[k]) && integration_tag(bs[k].bank_asset_tag)) ==> integration_count(
            bs.update(k, b),
            i,
        ) == integration_count(bs, i),
        i <= k < bs.len() && balance_active(b) && integration_tag(b.bank_asset_tag)
            && !balance_active(bs[k]) ==> integration_count(bs.update(k, b), i) == integration_count(
            bs,
            i,
        ) + 1,
        k < i && 0 <= k < bs.len() ==> integration_count(bs.update(k, b), i) == integration_count(
            bs,
            i,
        ),
        integration_count(bs, i) <= if i <= bs.len() {
            bs.len() - i
        } else {
            0
        },
    decreases bs.len() - i,
{
    if i < bs.len() {
        lemma_integration_count_from(bs, k, b, i + 1);
        if forall|j: int| 0 <= j < bs.len() ==> !integration_tag(#[trigger] bs[j].bank_asset_tag) {
            assert(!integration_tag(bs[i].bank_asset_tag));
        }
        if 0 <= k < bs.len() {
            let nb = bs.update(k, b);
            if i != k {
                assert(nb[i] == bs[i]);
            }
        }
    }
}

/// Closing a position in full touches the bank's liquidation price lock only in receivership:
/// outside it, a successful full withdrawal, full repayment or closing keeps the lock as it was,
/// and in receivership each leaves it unlocked.
pub proof fn lemma_lock_cleared_only_in_receivership(balance: Balance, bank: Bank, in_receivership: bool)
    ensures
        withdraw_all_outcome(balance, bank, in_receivership) matches Some(Ok(after)) ==> after.2.cache.liquidation_price_cache_locked == (
        bank.cache.liquidation_price_cache_locked && !in_receivership),
        repay_all_outcome(balance, bank, in_receivership) matches Some(Ok(after)) ==> after.2.cache.liquidation_price_cache_locked == (
        bank.cache.liquidation_price_cache_locked && !in_receivership),
        close_balance_outcome(balance, bank, in_receivership) matches Some(Ok(after)) ==> after.1.cache.liquidation_price_cache_locked == (
        bank.cache.liquidation_price_cache_locked && !in_receivership),
{
}

/// A balance that `find_or_create` opens is the one `find` then finds: when the account has no
/// active balance in the bank and slot `e` is its first free one, after the new balance is put
/// there the first active balance in the bank is at `e`.
pub proof fn lemma_created_balance_is_found(bs: Seq<Balance>, bank_pk: Pubkey, bank: Bank, now: i64)
    requires
        bs.len() <= usize::MAX,
        first_active_with(bs, bank_pk, 0) is None,
        first_inactive_from(bs, 0) is Some,
    ensures
        first_active_with(
            bs.update(first_inactive_from(bs, 0)->0 as int, new_balance(bank_pk, bank, now)),
            bank_pk,
            0,
        ) == first_inactive_from(bs, 0),
{
    let e = first_inactive_from(bs, 0)->0 as int;
    crate::lending::lemma_first_inactive_bounds(bs, 0);
    let nb = bs.update(e, new_balance(bank_pk, bank, now));
    lemma_first_active_prefix(bs, nb, bank_pk, 0, e);
}

/// Before slot `e`, where the two sequences agree and `bs` has no active balance in the bank,
/// the search in `nb` goes on to `e`.
proof fn lemma_first_active_prefix(bs: Seq<Balance>, nb: Seq<Balance>, bank_pk: Pubkey, i: int, e: int)
    requires
        0 <= i <= e < bs.len() == nb.len(),
        bs.len() <= usize::MAX,
        forall|k: int| 0 <= k < e ==> bs[k] == nb[k],
        first_active_with(bs, bank_pk, i) is None,
        balance_active(nb[e]) && nb[e].bank_pk == bank_pk,
    ensures
        first_active_with(nb, bank_pk, i) == Some(e as usize),
    decreases e - i,
{
    if i < e {
        lemma_first_active_prefix(bs, nb, bank_pk, i + 1, e);
    }
}

/// A found balance lies inside the sequence and is active in the bank.
proof fn lemma_first_active_bounds(bs: Seq<Balance>, bank_pk: Pubkey, i: int)
    requires
        bs.len() <= usize::MAX,
    ensures
        first_active_with(bs, bank_pk, i) matches Some(k) ==> i <= k < bs.len() && balance_active(
            bs[k as int],
        ) && bs[k as int].bank_pk == bank_pk,
    decreases bs.len() - i,
{
    if 0 <= i < bs.len() {
        lemma_first_active_bounds(bs, bank_pk, i + 1);
    }
}

} // verus!
