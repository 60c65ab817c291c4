//! Account flags, authorization and the layout of the accounts passed alongside a margin account.

use crate::state::{
    balance_side, all_sides_consistent, spec_default_key, Balance, Bank,
    IndexerFlags, MarginfiAccount, MarginfiError, OracleSetup, Pubkey,
    ACCOUNT_DISABLED, ACCOUNT_FROZEN, ACCOUNT_IN_FLASHLOAN, ACCOUNT_IN_ORDER_EXECUTION,
    ACCOUNT_IN_RECEIVERSHIP, ASSET_TAG_DEFAULT, ASSET_TAG_DRIFT, ASSET_TAG_JUPLEND,
    ASSET_TAG_KAMINO, ASSET_TAG_SOL, ASSET_TAG_SOLEND, ASSET_TAG_STAKED,
};
use vstd::prelude::*;

verus! {

/// Whether any bit of `flag` is set in `flags`.
pub open spec fn has_flag(flags: u64, flag: u64) -> bool {
    flags & flag != 0
}

/// Number of accounts an asset tag takes in the remaining accounts, or `None` for an unknown
/// tag.
pub open spec fn accounts_per_asset_tag(asset_tag: u8) -> Option<usize> {
    if asset_tag == ASSET_TAG_DEFAULT || asset_tag == ASSET_TAG_SOL {
        Some(2)
    } else if asset_tag == ASSET_TAG_KAMINO || asset_tag == ASSET_TAG_DRIFT || asset_tag
        == ASSET_TAG_SOLEND || asset_tag == ASSET_TAG_JUPLEND {
        Some(3)
    } else if asset_tag == ASSET_TAG_STAKED {
        Some(4)
    } else {
        None
    }
}

/// Number of accounts a bank takes in the remaining accounts (the bank, then its oracle and
/// venue accounts), or `None` for an unknown asset tag.
pub open spec fn accounts_per_bank(bank: Bank) -> Option<usize> {
    match bank.config.oracle_setup {
        OracleSetup::Fixed => Some(1),
        OracleSetup::FixedKamino => Some(2),
        OracleSetup::FixedDrift => Some(2),
        OracleSetup::FixedJuplend => Some(2),
        _ => accounts_per_asset_tag(bank.config.asset_tag),
    }
}

/// Returns the number of remaining accounts required for a bank (bank account + oracle/venue
/// accounts).
///
/// Account counts by oracle setup and asset tag:
/// - `Fixed`: 1 (bank only)
/// - `FixedKamino`, `FixedDrift`, `FixedJuplend`: 2 (bank + venue account)
/// - `ASSET_TAG_STAKED`: 4 (bank + oracle + lst_mint + stake_pool)
/// - `ASSET_TAG_KAMINO` / `ASSET_TAG_DRIFT` / `ASSET_TAG_SOLEND` / `ASSET_TAG_JUPLEND`: 3
/// - `ASSET_TAG_DEFAULT` / `ASSET_TAG_SOL`: 2 (bank + oracle)
/// - any other tag: `AssetTagMismatch`
pub fn get_remaining_accounts_per_bank(bank: &Bank) -> (r: Result<usize, MarginfiError>)
    ensures
        r == match accounts_per_bank(*bank) {
            Some(n) => Ok::<usize, MarginfiError>(n),
            None => Err(MarginfiError::AssetTagMismatch),
        },
{
    match bank.config.oracle_setup {
        OracleSetup::Fixed => Ok(1),
        OracleSetup::FixedKamino => Ok(2),
        OracleSetup::FixedDrift => Ok(2),
        OracleSetup::FixedJuplend => Ok(2),
        _ => get_remaining_accounts_per_asset_tag(bank.config.asset_tag),
    }
}

/// 4 for `ASSET_TAG_STAKED` (bank, oracle, lst mint, lst pool), 2 for the default and SOL tags
/// (bank, oracle), 3 for the integration tags (bank, oracle, reserve).
pub fn get_remaining_accounts_per_asset_tag(asset_tag: u8) -> (r: Result<usize, MarginfiError>)
    ensures
        r == match accounts_per_asset_tag(asset_tag) {
            Some(n) => Ok::<usize, MarginfiError>(n),
            None => Err(MarginfiError::AssetTagMismatch),
        },
{
    if asset_tag == ASSET_TAG_DEFAULT || asset_tag == ASSET_TAG_SOL {
        Ok(2)
    } else if asset_tag == ASSET_TAG_KAMINO || asset_tag == ASSET_TAG_DRIFT || asset_tag
        == ASSET_TAG_SOLEND || asset_tag == ASSET_TAG_JUPLEND {
        Ok(3)
    } else if asset_tag == ASSET_TAG_STAKED {
        Ok(4)
    } else {
        Err(MarginfiError::AssetTagMismatch)
    }
}

/// The authorization rule of `is_signer_authorized`.
pub open spec fn signer_authorized(
    account: MarginfiAccount,
    group_admin: Pubkey,
    signer: Pubkey,
    allow_receivership: bool,
    allow_order_execution: bool,
) -> bool {
    if allow_receivership && has_flag(account.account_flags, ACCOUNT_IN_RECEIVERSHIP) {
        account.authority != signer
    } else if allow_order_execution && has_flag(account.account_flags, ACCOUNT_IN_ORDER_EXECUTION) {
        true
    } else if has_flag(account.account_flags, ACCOUNT_FROZEN) {
        group_admin == signer
    } else {
        account.authority == signer
    }
}

/// Checks if a signer is authorized to perform actions on a marginfi account.
///
/// Authorization rules (checked in order):
/// 1. If `allow_receivership` is true and the account is in receivership, any signer but the
///    account's own authority is authorized
/// 2. If `allow_order_execution` is true and the account is in order execution, any signer is
/// 3. If the account is frozen, only the group admin is
/// 4. Otherwise only the account authority is
pub fn is_signer_authorized(
    marginfi_account: &MarginfiAccount,
    group_admin: Pubkey,
    signer: Pubkey,
    allow_receivership: bool,
    allow_order_execution: bool,
) -> (r: bool)
    ensures
        r == signer_authorized(
            *marginfi_account,
            group_admin,
            signer,
            allow_receivership,
            allow_order_execution,
        ),
{
    if allow_receivership && marginfi_account.get_flag(ACCOUNT_IN_RECEIVERSHIP) {
        return !marginfi_account.authority.same(&signer);
    }
    if allow_order_execution && marginfi_account.get_flag(ACCOUNT_IN_ORDER_EXECUTION) {
        return true;
    }
    if marginfi_account.get_flag(ACCOUNT_FROZEN) {
        return group_admin.same(&signer);
    }
    marginfi_account.authority.same(&signer)
}

/// Checks if the account authority may act on their account given its frozen status: `false`
/// exactly when the account is frozen and the signer is its authority.
pub fn account_not_frozen_for_authority(marginfi_account: &MarginfiAccount, signer: Pubkey) -> (r:
    bool)
    ensures
        r == !(has_flag(marginfi_account.account_flags, ACCOUNT_FROZEN)
            && marginfi_account.authority == signer),
{
    !(marginfi_account.get_flag(ACCOUNT_FROZEN) && marginfi_account.authority.same(&signer))
}

/// Whether every balance of the sequence is empty on both sides.
pub open spec fn only_empty_balances(bs: Seq<Balance>) -> bool {
    forall|i: int| 0 <= i < bs.len() ==> #[trigger] balance_side(bs[i]) is None
}

/// The closing rule of `can_be_closed`.
pub open spec fn closable(account: MarginfiAccount) -> bool {
    &&& !has_flag(account.account_flags, ACCOUNT_DISABLED)
    &&& only_empty_balances(account.lending_account.balances@)
    &&& !has_flag(account.account_flags, ACCOUNT_IN_FLASHLOAN)
    &&& !has_flag(account.account_flags, ACCOUNT_IN_RECEIVERSHIP)
    &&& !has_flag(account.account_flags, ACCOUNT_FROZEN)
}

impl MarginfiAccount {
    /// Set the initial data for the marginfi account.
    pub fn initialize(&mut self, group: Pubkey, authority: Pubkey, current_timestamp: u64)
        ensures
            final(self).authority == authority,
            final(self).group == group,
            final(self).emissions_destination_account == spec_default_key(),
            final(self).migrated_from == spec_default_key(),
            final(self).migrated_to == spec_default_key(),
            final(self).last_update == current_timestamp,
            final(self).indexer_flags == (IndexerFlags {
                is_empty: 1,
                was_active_30d: 1,
                was_active_60d: 1,
                ..old(self).indexer_flags
            }),
            final(self).active_orders == 0,
            final(self).lending_account == old(self).lending_account,
            final(self).account_flags == old(self).account_flags,
            final(self).liquidation_record == old(self).liquidation_record,
    {
        self.authority = authority;
        self.group = group;
        self.emissions_destination_account = Pubkey::default_key();
        self.migrated_from = Pubkey::default_key();
        self.last_update = current_timestamp;
        self.migrated_to = Pubkey::default_key();
        self.indexer_flags.is_empty = 1;
        // Seed activity flags so freshly-created accounts aren't immediately eligible for the
        // permissionless close path before the first pulse.
        self.indexer_flags.was_active_30d = 1;
        self.indexer_flags.was_active_60d = 1;
        self.active_orders = 0;
    }

    /// Sets the bits of `flag`. `msg` only asks for a log line.
    pub fn set_flag(&mut self, flag: u64, msg: bool)
        ensures
            *final(self) == (MarginfiAccount {
                account_flags: old(self).account_flags | flag,
                ..*old(self)
            }),
    {
        self.account_flags = self.account_flags | flag;
    }

    /// Clears the bits of `flag`. `msg` only asks for a log line.
    pub fn unset_flag(&mut self, flag: u64, msg: bool)
        ensures
            *final(self) == (MarginfiAccount {
                account_flags: old(self).account_flags & !flag,
                ..*old(self)
            }),
    {
        self.account_flags = self.account_flags & !flag;
    }

    /// Whether any bit of `flag` is set.
    pub fn get_flag(&self, flag: u64) -> (r: bool)
        ensures
            r == has_flag(self.account_flags, flag),
    {
        self.account_flags & flag != 0
    }

    /// Counts one more open order; `IllegalAction` when 255 are already open.
    pub fn increment_active_orders(&mut self) -> (r: Result<(), MarginfiError>)
        ensures
            old(self).active_orders < u8::MAX ==> r is Ok && *final(self) == (MarginfiAccount {
                active_orders: (old(self).active_orders + 1) as u8,
                ..*old(self)
            }),
            old(self).active_orders == u8::MAX ==> r == Err::<(), MarginfiError>(
                MarginfiError::IllegalAction,
            ) && *final(self) == *old(self),
    {
        if !(self.active_orders < u8::MAX) {
            return Err(MarginfiError::IllegalAction);
        }
        self.active_orders = self.active_orders + 1;
        Ok(())
    }

    /// Counts one order fewer; `IllegalAction` when none is open.
    pub fn decrement_active_orders(&mut self) -> (r: Result<(), MarginfiError>)
        ensures
            old(self).active_orders > 0 ==> r is Ok && *final(self) == (MarginfiAccount {
                active_orders: (old(self).active_orders - 1) as u8,
                ..*old(self)
            }),
            old(self).active_orders == 0 ==> r == Err::<(), MarginfiError>(
                MarginfiError::IllegalAction,
            ) && *final(self) == *old(self),
    {
        if !(self.active_orders > 0) {
            return Err(MarginfiError::IllegalAction);
        }
        self.active_orders = self.active_orders - 1;
        Ok(())
    }

    /// An account can be closed when it is not disabled, in a flash loan, in receivership or
    /// frozen, and all its balances are empty.
    pub fn can_be_closed(&self) -> (r: bool)
        requires
            all_sides_consistent(self.lending_account.balances@),
        ensures
            r == closable(*self),
    {
        let is_disabled = self.get_flag(ACCOUNT_DISABLED);
        let is_in_flashloan = self.get_flag(ACCOUNT_IN_FLASHLOAN);
        let is_in_receivership = self.get_flag(ACCOUNT_IN_RECEIVERSHIP);
        let is_frozen = self.get_flag(ACCOUNT_FROZEN);
        let balances = &self.lending_account.balances;
        let mut only_has_empty_balances = true;
        let mut i: usize = 0;
        while i < balances.len()
            invariant
                i <= balances@.len(),
                all_sides_consistent(balances@),
                only_has_empty_balances == only_empty_balances(balances@.subrange(0, i as int)),
            decreases balances@.len() - i,
        {
            let side = balances[i].get_side();
            if side.is_some() {
                only_has_empty_balances = false;
            }
            proof {
                let s = balances@.subrange(0, i as int);
                let t = balances@.subrange(0, i + 1);
                assert(t == s.push(balances@[i as int]));
                if only_empty_balances(s) && balance_side(balances@[i as int]) is None {
                    assert forall|j: int| 0 <= j < t.len() implies #[trigger] balance_side(t[j]) is None by {
                        if j < s.len() {
                            assert(t[j] == s[j]);
                        }
                    }
                }
                if only_empty_balances(t) {
                    assert(balance_side(t[i as int]) is None);
                    assert forall|j: int| 0 <= j < s.len() implies #[trigger] balance_side(s[j]) is None by {
                        assert(s[j] == t[j]);
                    }
                }
            }
            i = i + 1;
        }
        proof {
            assert(balances@.subrange(0, balances@.len() as int) == balances@);
        }
        !is_disabled && only_has_empty_balances && !is_in_flashloan && !is_in_receivership
            && !is_frozen
    }
}

/// Setting a flag makes it read as set and leaves every other bit as it was; clearing it makes
/// it read as unset and likewise leaves the other bits.
pub proof fn lemma_flag_set_unset(flags: u64, flag: u64, other: u64)
    requires
        flag != 0,
        flag & other == 0,
    ensures
        has_flag(flags | flag, flag),
        !has_flag(flags & !flag, flag),
        has_flag(flags | flag, other) == has_flag(flags, other),
        has_flag(flags & !flag, other) == has_flag(flags, other),
{
    assert((flags | flag) & flag != 0) by (bit_vector)
        requires
            flag != 0,
    ;
    assert((flags & !flag) & flag == 0) by (bit_vector);
    assert(((flags | flag) & other) == (flags & other)) by (bit_vector)
        requires
            flag & other == 0,
    ;
    assert(((flags & !flag) & other) == (flags & other)) by (bit_vector)
        requires
            flag & other == 0,
    ;
}

} // verus!
