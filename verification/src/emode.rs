//! Emode: collecting the emode configurations of an account's liability banks and reconciling
//! them into the one configuration that prices the account's collateral.

use crate::account::{accounts_per_bank, get_remaining_accounts_per_bank};
use crate::bank::find_entry;
use crate::fixed_point::fx_min;
use crate::state::{
    balance_active, side_empty, BalanceSide, Bank, EmodeConfig, EmodeEntry, LendingAccount,
    Pubkey,
};
use vstd::prelude::*;

verus! {

/// The entries of each configuration.
pub open spec fn config_views(configs: Seq<EmodeConfig>) -> Seq<Seq<EmodeEntry>> {
    configs.map_values(|c: EmodeConfig| c.entries@)
}

/// A bank takes between one and four accounts.
pub proof fn lemma_accounts_per_bank_bound(bank: Bank)
    ensures
        accounts_per_bank(bank) is Some ==> 1 <= accounts_per_bank(bank)->0 <= 4,
{
}

/// An account passed alongside a margin account: its key and, when it holds one, the bank it
/// deserializes to.
#[derive(PartialEq, Eq, Clone, Debug)]
pub struct RemainingAccount {
    pub key: Pubkey,
    pub bank: Option<Bank>,
}

/// The emode configurations of the liability banks of `balances[bi..]`, reading banks from
/// `remaining[ai..]`. The walk stops (yielding nothing more) at the first active balance whose
/// bank account is missing, is not a bank, has another key than the balance's bank, or has an
/// unknown asset tag. Each bank takes one account when `banks_only`, else its full count.
pub open spec fn liability_emode_configs(
    balances: Seq<crate::state::Balance>,
    remaining: Seq<RemainingAccount>,
    banks_only: bool,
    bi: int,
    ai: int,
) -> Seq<Seq<EmodeEntry>>
    decreases balances.len() - bi,
{
    if bi < 0 || bi >= balances.len() {
        Seq::empty()
    } else if !balance_active(balances[bi]) {
        liability_emode_configs(balances, remaining, banks_only, bi + 1, ai)
    } else if ai < 0 || ai >= remaining.len() {
        Seq::empty()
    } else {
        match remaining[ai].bank {
            None => Seq::empty(),
            Some(bank) => if balances[bi].bank_pk != remaining[ai].key {
                Seq::empty()
            } else {
                let n: Option<usize> = if banks_only {
                    Some(1usize)
                } else {
                    accounts_per_bank(bank)
                };
                match n {
                    None => Seq::empty(),
                    Some(n) => {
                        let rest = liability_emode_configs(
                            balances,
                            remaining,
                            banks_only,
                            bi + 1,
                            ai + n,
                        );
                        if !side_empty(balances[bi], BalanceSide::Liabilities) {
                            seq![bank.emode.emode_config.entries@].add(rest)
                        } else {
                            rest
                        }
                    },
                }
            },
        }
    }
}

/// The emode configurations of an account's active liability balances, in balance order, as
/// the walk over the remaining accounts yields them.
pub fn collect_liability_emode_configs(
    lending_account: &LendingAccount,
    remaining_ais: &Vec<RemainingAccount>,
    banks_only: bool,
) -> (r: Vec<EmodeConfig>)
    requires
        remaining_ais@.len() + 4 <= usize::MAX,
    ensures
        config_views(r@) == liability_emode_configs(
            lending_account.balances@,
            remaining_ais@,
            banks_only,
            0,
            0,
        ),
{
    let balances = &lending_account.balances;
    let mut out: Vec<EmodeConfig> = Vec::new();
    let mut balance_index: usize = 0;
    let mut account_index: usize = 0;
    while balance_index < balances.len()
        invariant
            balances@ == lending_account.balances@,
            balance_index <= balances@.len(),
            account_index <= remaining_ais@.len() + 4,
            remaining_ais@.len() + 4 <= usize::MAX,
            config_views(out@) + liability_emode_configs(
                balances@,
                remaining_ais@,
                banks_only,
                balance_index as int,
                account_index as int,
            ) == liability_emode_configs(balances@, remaining_ais@, banks_only, 0, 0),
        decreases balances@.len() - balance_index,
    {
        let balance = &balances[balance_index];
        if !balance.is_active() {
            balance_index = balance_index + 1;
            continue;
        }
        if account_index >= remaining_ais.len() {
            proof {
                assert(liability_emode_configs(
                    balances@,
                    remaining_ais@,
                    banks_only,
                    balance_index as int,
                    account_index as int,
                ) == Seq::<Seq<EmodeEntry>>::empty());
                assert(config_views(out@) + Seq::<Seq<EmodeEntry>>::empty() == config_views(out@));
            }
            return out;
        }
        let bank = match &remaining_ais[account_index].bank {
            Some(b) => b,
            None => {
                proof {
                    assert(liability_emode_configs(
                        balances@,
                        remaining_ais@,
                        banks_only,
                        balance_index as int,
                        account_index as int,
                    ) == Seq::<Seq<EmodeEntry>>::empty());
                    assert(config_views(out@) + Seq::<Seq<EmodeEntry>>::empty() == config_views(out@));
                }
                return out;
            },
        };
        if !balance.bank_pk.same(&remaining_ais[account_index].key) {
            proof {
                assert(config_views(out@) + Seq::<Seq<EmodeEntry>>::empty() == config_views(out@));
            }
            return out;
        }
        let num_accounts = if banks_only {
            1
        } else {
            match get_remaining_accounts_per_bank(bank) {
                Ok(n) => n,
                Err(_) => {
                    proof {
                        assert(config_views(out@) + Seq::<Seq<EmodeEntry>>::empty() == config_views(out@));
                    }
                    return out;
                },
            }
        };
        proof {
            lemma_accounts_per_bank_bound(*bank);
        }
        let ghost old_out = config_views(out@);
        let ghost rest = liability_emode_configs(
            balances@,
            remaining_ais@,
            banks_only,
            balance_index + 1,
            account_index + num_accounts,
        );
        account_index = account_index + num_accounts;
        balance_index = balance_index + 1;
        if !balance.is_empty(BalanceSide::Liabilities) {
            out.push(bank.emode.emode_config.duplicate());
            proof {
                assert(config_views(out@) == old_out.push(bank.emode.emode_config.entries@));
                assert(config_views(out@) + rest == old_out + (seq![
                    bank.emode.emode_config.entries@,
                ].add(rest)));
            }
        }
    }
    proof {
        assert(config_views(out@) + Seq::<Seq<EmodeEntry>>::empty() == config_views(out@));
    }
    out
}

/// The weights a list of emode configurations agree on for a tag: `None` when the list is
/// empty, the tag is 0, or some configuration grants the tag nothing; otherwise the smallest
/// initial and the smallest maintenance weight the configurations grant.
pub open spec fn reconciled_weights(configs: Seq<Seq<EmodeEntry>>, tag: u16) -> Option<(i128, i128)>
    decreases configs.len(),
{
    if configs.len() == 0 || tag == 0 {
        None
    } else if configs.len() == 1 {
        match find_entry(configs[0], tag) {
            Some(e) => Some((e.asset_weight_init, e.asset_weight_maint)),
            None => None,
        }
    } else {
        match reconciled_weights(configs.drop_last(), tag) {
            None => None,
            Some((i, m)) => match find_entry(configs.last(), tag) {
                None => None,
                Some(e) => Some(
                    (
                        if i <= e.asset_weight_init {
                            i
                        } else {
                            e.asset_weight_init
                        },
                        if m <= e.asset_weight_maint {
                            m
                        } else {
                            e.asset_weight_maint
                        },
                    ),
                ),
            },
        }
    }
}

/// The entry a reconciled configuration must hold for a tag.
pub open spec fn reconciled_entry(configs: Seq<Seq<EmodeEntry>>, tag: u16) -> Option<EmodeEntry> {
    match reconciled_weights(configs, tag) {
        None => None,
        Some((i, m)) => Some(
            EmodeEntry { collateral_bank_emode_tag: tag, asset_weight_init: i, asset_weight_maint: m },
        ),
    }
}

/// Looking up a tag after appending an entry.
proof fn lemma_find_entry_push(s: Seq<EmodeEntry>, x: EmodeEntry, tag: u16)
    ensures
        find_entry(s.push(x), tag) == if find_entry(s, tag) is Some {
            find_entry(s, tag)
        } else if tag != 0 && x.collateral_bank_emode_tag == tag {
            Some(x)
        } else {
            None
        },
    decreases s.len(),
{
    if tag == 0 || s.len() == 0 {
        if s.len() == 0 {
            assert(s.push(x).drop_first() == Seq::<EmodeEntry>::empty());
        }
    } else {
        assert(s.push(x).drop_first() == s.drop_first().push(x));
        lemma_find_entry_push(s.drop_first(), x, tag);
    }
}

/// A tag is found exactly when some entry carries it, and what is found carries it.
proof fn lemma_find_entry_exists(s: Seq<EmodeEntry>, tag: u16)
    ensures
        find_entry(s, tag) is Some <==> (tag != 0 && exists|k: int|
            0 <= k < s.len() && #[trigger] s[k].collateral_bank_emode_tag == tag),
        find_entry(s, tag) is Some ==> find_entry(s, tag)->0.collateral_bank_emode_tag == tag,
    decreases s.len(),
{
    if tag != 0 && s.len() > 0 {
        lemma_find_entry_exists(s.drop_first(), tag);
        if s[0].collateral_bank_emode_tag != tag {
            if exists|k: int| 0 <= k < s.len() && #[trigger] s[k].collateral_bank_emode_tag == tag {
                let k = choose|k: int| 0 <= k < s.len() && #[trigger] s[k].collateral_bank_emode_tag == tag;
                assert(s.drop_first()[k - 1] == s[k]);
            }
            if exists|k: int| 0 <= k < s.len() - 1 && #[trigger] s.drop_first()[k].collateral_bank_emode_tag == tag {
                let k = choose|k: int| 0 <= k < s.len() - 1 && #[trigger] s.drop_first()[k].collateral_bank_emode_tag == tag;
                assert(s[k + 1] == s.drop_first()[k]);
            }
        } else {
            assert(s[0].collateral_bank_emode_tag == tag);
        }
    }
}

/// Reconciles the emode configurations of all liability banks of an account into one: a
/// collateral tag keeps emode treatment only when every configuration grants it, and then with
/// the smallest weights any of them grants. No configurations give an empty configuration.
pub fn reconcile_emode_configs(configs: &Vec<EmodeConfig>) -> (r: EmodeConfig)
    ensures
        forall|tag: u16| #[trigger] find_entry(r.entries@, tag) == reconciled_entry(
            config_views(configs@),
            tag,
        ),
{
    let ghost views = config_views(configs@);
    let mut entries: Vec<EmodeEntry> = Vec::new();
    if configs.len() == 0 {
        return EmodeConfig { entries };
    }
    let first = &configs[0].entries;
    let mut k: usize = 0;
    while k < first.len()
        invariant
            configs@.len() > 0,
            views == config_views(configs@),
            first@ == configs@[0].entries@,
            k <= first@.len(),
            forall|tag: u16| #[trigger] find_entry(entries@, tag) == if tag != 0 && exists|j: int|
                0 <= j < k && first@[j].collateral_bank_emode_tag == tag {
                reconciled_entry(views, tag)
            } else {
                None
            },
        decreases first@.len() - k,
    {
        let tag = first[k].collateral_bank_emode_tag;
        let ghost old_entries = entries@;
        let ghost mut added: Option<EmodeEntry> = None;
        if tag != 0 {
            proof {
                lemma_find_entry_exists(first@, tag);
                assert(first@[k as int].collateral_bank_emode_tag == tag);
            }
            let e0 = configs[0].find_with_tag(tag).unwrap();
            let mut init = e0.asset_weight_init;
            let mut maint = e0.asset_weight_maint;
            let mut granted = true;
            let mut j: usize = 1;
            proof {
                assert(views.subrange(0, 1).drop_last() == Seq::<Seq<EmodeEntry>>::empty());
                assert(views.subrange(0, 1)[0] == configs@[0].entries@);
            }
            while j < configs.len() && granted
                invariant
                    1 <= j <= configs@.len(),
                    views == config_views(configs@),
                    tag != 0,
                    granted ==> reconciled_weights(views.subrange(0, j as int), tag) == Some(
                        (init, maint),
                    ),
                    !granted ==> reconciled_weights(views, tag) is None,
                decreases configs@.len() - j,
            {
                proof {
                    let s = views.subrange(0, j + 1);
                    assert(s.drop_last() == views.subrange(0, j as int));
                    assert(s.last() == configs@[j as int].entries@);
                }
                match configs[j].find_with_tag(tag) {
                    Some(e) => {
                        init = fx_min(init, e.asset_weight_init);
                        maint = fx_min(maint, e.asset_weight_maint);
                    },
                    None => {
                        granted = false;
                        proof {
                            lemma_reconciled_none_extends(views, j as int + 1, tag);
                        }
                    },
                }
                j = j + 1;
            }
            proof {
                if granted {
                    assert(views.subrange(0, views.len() as int) == views);
                }
            }
            if granted {
                let e = EmodeEntry {
                    collateral_bank_emode_tag: tag,
                    asset_weight_init: init,
                    asset_weight_maint: maint,
                };
                entries.push(e);
                proof {
                    added = Some(e);
                }
            }
            proof {
                if !granted {
                    assert(reconciled_entry(views, tag) is None);
                } else {
                    assert(reconciled_entry(views, tag) == added);
                }
            }
        }
        proof {
            if added is Some {
                assert(entries@ == old_entries.push(added->0));
            } else {
                assert(entries@ == old_entries);
            }
        }
        proof {
            assert forall|t: u16| #[trigger] find_entry(entries@, t) == if t != 0 && exists|j: int|
                0 <= j < k + 1 && first@[j].collateral_bank_emode_tag == t {
                reconciled_entry(views, t)
            } else {
                None
            } by {
                if t != 0 && (exists|j: int| 0 <= j < k && first@[j].collateral_bank_emode_tag == t) {
                    let j0 = choose|j: int| 0 <= j < k && first@[j].collateral_bank_emode_tag == t;
                    assert(0 <= j0 < k + 1 && first@[j0].collateral_bank_emode_tag == t);
                }
                if t != 0 && (exists|j: int| 0 <= j < k + 1 && first@[j].collateral_bank_emode_tag == t) && !(exists|j: int| 0 <= j < k && first@[j].collateral_bank_emode_tag == t) {
                    let j0 = choose|j: int| 0 <= j < k + 1 && first@[j].collateral_bank_emode_tag == t;
                    assert(j0 == k);
                }
                if added is Some {
                    lemma_find_entry_push(old_entries, added->0, t);
                }
            }
        }
        k = k + 1;
    }
    proof {
        assert forall|tag: u16| #[trigger] find_entry(entries@, tag) == reconciled_entry(views, tag) by {
            lemma_find_entry_exists(first@, tag);
            if tag != 0 && reconciled_entry(views, tag) is Some {
                lemma_reconciled_first(views, tag);
                let k0 = choose|k: int| 0 <= k < first@.len() && #[trigger] first@[k].collateral_bank_emode_tag == tag;
                assert(0 <= k0 < first@.len() && first@[k0].collateral_bank_emode_tag == tag);
            }
        }
    }
    EmodeConfig { entries }
}

/// Once some configuration of a prefix grants a tag nothing, no longer list agrees on it.
proof fn lemma_reconciled_none_extends(configs: Seq<Seq<EmodeEntry>>, j: int, tag: u16)
    requires
        1 <= j <= configs.len(),
        reconciled_weights(configs.subrange(0, j), tag) is None,
    ensures
        reconciled_weights(configs, tag) is None,
    decreases configs.len() - j,
{
    if j < configs.len() {
        let s = configs.subrange(0, j + 1);
        assert(s.drop_last() == configs.subrange(0, j));
        lemma_reconciled_none_extends(configs, j + 1, tag);
    } else {
        assert(configs.subrange(0, j) == configs);
    }
}

/// A tag the list agrees on is granted by its first configuration.
proof fn lemma_reconciled_first(configs: Seq<Seq<EmodeEntry>>, tag: u16)
    requires
        reconciled_weights(configs, tag) is Some,
    ensures
        configs.len() > 0,
        find_entry(configs[0], tag) is Some,
    decreases configs.len(),
{
    if configs.len() > 1 {
        lemma_reconciled_first(configs.drop_last(), tag);
        assert(configs.drop_last()[0] == configs[0]);
    }
}

/// Reconciled emode is never more generous than any liability bank: when the configurations
/// agree on weights for a tag, each of them grants that tag, with initial and maintenance
/// weights no lower than the agreed ones.
pub proof fn lemma_reconciled_is_most_conservative(configs: Seq<Seq<EmodeEntry>>, tag: u16, j: int)
    requires
        0 <= j < configs.len(),
    ensures
        reconciled_weights(configs, tag) matches Some(w) ==> {
            &&& find_entry(configs[j], tag) is Some
            &&& w.0 <= find_entry(configs[j], tag)->0.asset_weight_init
            &&& w.1 <= find_entry(configs[j], tag)->0.asset_weight_maint
        },
    decreases configs.len(),
{
    if configs.len() > 1 && j < configs.len() - 1 {
        lemma_reconciled_is_most_conservative(configs.drop_last(), tag, j);
        assert(configs.drop_last()[j] == configs[j]);
    }
}

} // verus!
