//! A lending account's balance slots: share changes, lookup, ordering and empty slots.

use crate::fixed_point::{checked, fx_checked_add};
use crate::state::{
    balance_active, key_lt, spec_empty_balance, Balance, LendingAccount, MarginfiError, Pubkey,
};
use vstd::prelude::*;
use vstd::seq_lib::lemma_multiset_commutative;

verus! {

broadcast use vstd::seq_lib::group_to_multiset_ensures;

impl Balance {
    /// Adds `delta` to the asset shares; `MathError` on overflow (the balance is then unchanged).
    pub fn change_asset_shares(&mut self, delta: i128) -> (r: Result<(), MarginfiError>)
        ensures
            match checked(old(self).asset_shares + delta) {
                Some(v) => r is Ok && *final(self) == (Balance { asset_shares: v, ..*old(self) }),
                None => r == Err::<(), MarginfiError>(MarginfiError::MathError) && *final(self)
                    == *old(self),
            },
    {
        match fx_checked_add(self.asset_shares, delta) {
            Some(v) => {
                self.asset_shares = v;
                Ok(())
            },
            None => Err(MarginfiError::MathError),
        }
    }

    /// Adds `delta` to the liability shares; `MathError` on overflow (the balance is then
    /// unchanged).
    pub fn change_liability_shares(&mut self, delta: i128) -> (r: Result<(), MarginfiError>)
        ensures
            match checked(old(self).liability_shares + delta) {
                Some(v) => r is Ok && *final(self) == (Balance {
                    liability_shares: v,
                    ..*old(self)
                }),
                None => r == Err::<(), MarginfiError>(MarginfiError::MathError) && *final(self)
                    == *old(self),
            },
    {
        match fx_checked_add(self.liability_shares, delta) {
            Some(v) => {
                self.liability_shares = v;
                Ok(())
            },
            None => Err(MarginfiError::MathError),
        }
    }

    /// Empties and deactivates the slot.
    pub fn close(&mut self) -> (r: Result<(), MarginfiError>)
        ensures
            r is Ok,
            *final(self) == spec_empty_balance(),
    {
        *self = Balance::empty_deactivated();
        Ok(())
    }
}

/// The first inactive slot of the sequence at or after `i`.
pub open spec fn first_inactive_from(bs: Seq<Balance>, i: int) -> Option<usize>
    decreases bs.len() - i,
{
    if i < 0 || i >= bs.len() {
        None
    } else if !balance_active(bs[i]) {
        Some(i as usize)
    } else {
        first_inactive_from(bs, i + 1)
    }
}

/// A free slot found from `i` on lies in the sequence, after `i`, and is inactive.
pub proof fn lemma_first_inactive_bounds(bs: Seq<Balance>, i: int)
    requires
        bs.len() <= usize::MAX,
    ensures
        first_inactive_from(bs, i) matches Some(k) ==> i <= k < bs.len() && !balance_active(
            bs[k as int],
        ),
    decreases bs.len() - i,
{
    if 0 <= i < bs.len() {
        lemma_first_inactive_bounds(bs, i + 1);
    }
}

/// Keys in non-increasing byte order.
pub open spec fn sorted_descending(bs: Seq<Balance>) -> bool {
    forall|i: int, j: int| 0 <= i < j < bs.len() ==> !key_lt(#[trigger] bs[i].bank_pk, #[trigger] bs[j].bank_pk)
}

/// The balances of bank `k`, in their order.
pub open spec fn with_key(bs: Seq<Balance>, k: Pubkey) -> Seq<Balance> {
    bs.filter(|b: Balance| b.bank_pk == k)
}

/// Appending a balance appends it to the balances of its bank only.
proof fn lemma_with_key_push(bs: Seq<Balance>, x: Balance, k: Pubkey)
    ensures
        with_key(bs.push(x), k) == if x.bank_pk == k {
            with_key(bs, k).push(x)
        } else {
            with_key(bs, k)
        },
{
    reveal(Seq::filter);
    assert(bs.push(x).drop_last() == bs);
}

/// A sequence without balances of bank `k` has none to keep.
proof fn lemma_with_key_none(bs: Seq<Balance>, k: Pubkey)
    requires
        forall|q: int| 0 <= q < bs.len() ==> (#[trigger] bs[q]).bank_pk != k,
    ensures
        with_key(bs, k) == Seq::<Balance>::empty(),
    decreases bs.len(),
{
    reveal(Seq::filter);
    if bs.len() > 0 {
        lemma_with_key_none(bs.drop_last(), k);
    }
}

/// Byte order of keys is a strict total order.
pub proof fn lemma_key_order(a: Pubkey, b: Pubkey, c: Pubkey)
    ensures
        !key_lt(a, a),
        key_lt(a, b) ==> !key_lt(b, a),
        key_lt(a, b) && key_lt(b, c) ==> key_lt(a, c),
        !key_lt(a, b) && !key_lt(b, a) ==> a == b,
        !key_lt(a, b) && !key_lt(b, c) ==> !key_lt(a, c),
{
}

/// The index the binary search over a descending sequence settles on: the search keeps a window
/// `[base, base + size)` and halves it, moving to the upper half whenever the middle key is not
/// below the searched key.
pub open spec fn search_base(bs: Seq<Balance>, key: Pubkey, base: int, size: int) -> int
    decreases size,
{
    if size <= 1 {
        base
    } else {
        let half = size / 2;
        let mid = base + half;
        if key_lt(bs[mid].bank_pk, key) {
            search_base(bs, key, base, size - half)
        } else {
            search_base(bs, key, mid, size - half)
        }
    }
}

/// What `get_balance_index` returns: the index the search settles on when that slot holds the
/// key and is active, else `LendingAccountBalanceNotFound`.
pub open spec fn spec_balance_index(bs: Seq<Balance>, key: Pubkey) -> Result<usize, MarginfiError> {
    if bs.len() == 0 {
        Err(MarginfiError::LendingAccountBalanceNotFound)
    } else {
        let i = search_base(bs, key, 0, bs.len() as int);
        if bs[i].bank_pk == key && balance_active(bs[i]) {
            Ok(i as usize)
        } else {
            Err(MarginfiError::LendingAccountBalanceNotFound)
        }
    }
}

/// The search window stays inside the sequence.
proof fn lemma_search_base_bounds(bs: Seq<Balance>, key: Pubkey, base: int, size: int)
    requires
        0 <= base,
        1 <= size,
        base + size <= bs.len(),
    ensures
        base <= search_base(bs, key, base, size) < base + size,
    decreases size,
{
    if size > 1 {
        let half = size / 2;
        if key_lt(bs[base + half].bank_pk, key) {
            lemma_search_base_bounds(bs, key, base, size - half);
        } else {
            lemma_search_base_bounds(bs, key, base + half, size - half);
        }
    }
}

/// On a descending sequence holding the key, the search settles on a slot holding the key.
proof fn lemma_search_finds(bs: Seq<Balance>, key: Pubkey, base: int, size: int, k: int)
    requires
        sorted_descending(bs),
        0 <= base <= k < base + size <= bs.len(),
        bs[k].bank_pk == key,
    ensures
        bs[search_base(bs, key, base, size)].bank_pk == key,
    decreases size,
{
    if size > 1 {
        let half = size / 2;
        let mid = base + half;
        if key_lt(bs[mid].bank_pk, key) {
            if k >= mid {
                lemma_key_order(bs[mid].bank_pk, key, key);
                assert(!key_lt(bs[mid].bank_pk, bs[k].bank_pk) || mid == k);
            }
            lemma_search_finds(bs, key, base, size - half, k);
        } else {
            if k < mid {
                // every key from mid up to k's position is equal to the searched key
                assert(!key_lt(bs[k].bank_pk, bs[mid].bank_pk));
                lemma_key_order(bs[k].bank_pk, bs[mid].bank_pk, key);
                assert(bs[mid].bank_pk == key);
                lemma_search_finds(bs, key, mid, size - half, mid);
            } else {
                lemma_search_finds(bs, key, mid, size - half, k);
            }
        }
    }
}

impl LendingAccount {
    /// The first inactive balance slot, if any.
    pub fn get_first_empty_balance(&self) -> (r: Option<usize>)
        ensures
            r == first_inactive_from(self.balances@, 0),
            r matches Some(i) ==> i < self.balances@.len() && !balance_active(self.balances@[i as int]),
    {
        let mut i: usize = 0;
        while i < self.balances.len()
            invariant
                i <= self.balances@.len(),
                first_inactive_from(self.balances@, 0) == first_inactive_from(self.balances@, i as int),
            decreases self.balances@.len() - i,
        {
            if !self.balances[i].is_active() {
                return Some(i);
            }
            i = i + 1;
        }
        None
    }

    /// Sorts the balances by bank key, largest first; the sort is stable: the balances of each
    /// bank keep their order.
    pub fn sort_balances(&mut self)
        ensures
            final(self).balances@.to_multiset() == old(self).balances@.to_multiset(),
            sorted_descending(final(self).balances@),
            forall|k: Pubkey| #[trigger] with_key(final(self).balances@, k) == with_key(
                old(self).balances@,
                k,
            ),
            final(self).last_tag_used == old(self).last_tag_used,
    {
        let mut sorted: Vec<Balance> = Vec::new();
        let mut i: usize = 0;
        while i < self.balances.len()
            invariant
                i <= self.balances@.len(),
                self.balances@ == old(self).balances@,
                self.last_tag_used == old(self).last_tag_used,
                sorted@.to_multiset() == self.balances@.subrange(0, i as int).to_multiset(),
                sorted_descending(sorted@),
                forall|k: Pubkey| #[trigger] with_key(sorted@, k) == with_key(
                    self.balances@.subrange(0, i as int),
                    k,
                ),
            decreases self.balances@.len() - i,
        {
            let x = self.balances[i];
            let mut p: usize = 0;
            while p < sorted.len() && !sorted[p].bank_pk.less_than(&x.bank_pk)
                invariant
                    p <= sorted@.len(),
                    forall|q: int| 0 <= q < p ==> !key_lt(#[trigger] sorted@[q].bank_pk, x.bank_pk),
                decreases sorted@.len() - p,
            {
                p = p + 1;
            }
            let ghost before = sorted@;
            proof {
                // every key from p on is below x's key
                assert forall|q: int| p <= q < before.len() implies key_lt(#[trigger] before[q].bank_pk, x.bank_pk) by {
                    if q > p {
                        lemma_key_order(before[q].bank_pk, before[p as int].bank_pk, x.bank_pk);
                        assert(!key_lt(before[p as int].bank_pk, before[q].bank_pk));
                    }
                }
            }
            sorted.insert(p, x);
            proof {
                let a = before.subrange(0, p as int);
                let b = before.subrange(p as int, before.len() as int);
                assert(before == a + b);
                assert(sorted@ == a.push(x) + b);
                lemma_multiset_commutative(a, b);
                lemma_multiset_commutative(a.push(x), b);
                assert(self.balances@.subrange(0, i + 1) == self.balances@.subrange(0, i as int).push(x));
                assert forall|k: Pubkey| #[trigger] with_key(sorted@, k) == with_key(
                    self.balances@.subrange(0, i + 1),
                    k,
                ) by {
                    let pred = |b: Balance| b.bank_pk == k;
                    Seq::filter_distributes_over_add(a.push(x), b, pred);
                    Seq::filter_distributes_over_add(a, b, pred);
                    lemma_with_key_push(a, x, k);
                    lemma_with_key_push(self.balances@.subrange(0, i as int), x, k);
                    assert(with_key(before, k) == with_key(self.balances@.subrange(0, i as int), k));
                    if x.bank_pk == k {
                        assert forall|q: int| 0 <= q < b.len() implies (#[trigger] b[q]).bank_pk != k by {
                            assert(b[q] == before[p + q]);
                            lemma_key_order(b[q].bank_pk, x.bank_pk, x.bank_pk);
                        }
                        lemma_with_key_none(b, k);
                        assert(with_key(a, k) + Seq::<Balance>::empty() == with_key(a, k));
                        assert(with_key(a, k).push(x) + Seq::<Balance>::empty() == with_key(a, k).push(x));
                    }
                }
                assert forall|m: int, n: int| 0 <= m < n < sorted@.len() implies !key_lt(
                    #[trigger] sorted@[m].bank_pk,
                    #[trigger] sorted@[n].bank_pk,
                ) by {
                    if n < p {
                        assert(sorted@[m] == before[m] && sorted@[n] == before[n]);
                    } else if n == p {
                        assert(sorted@[m] == before[m]);
                    } else if m == p {
                        assert(sorted@[n] == before[n - 1]);
                        lemma_key_order(before[n - 1].bank_pk, x.bank_pk, x.bank_pk);
                    } else if m < p {
                        assert(sorted@[m] == before[m] && sorted@[n] == before[n - 1]);
                    } else {
                        assert(sorted@[m] == before[m - 1] && sorted@[n] == before[n - 1]);
                    }
                }
            }
            i = i + 1;
        }
        proof {
            assert(self.balances@.subrange(0, self.balances@.len() as int) == self.balances@);
        }
        self.balances = sorted;
    }

    /// Index of the active balance in bank `bank_pk`, found by binary search over the balances
    /// (kept sorted largest key first); `LendingAccountBalanceNotFound` when the slot the search
    /// settles on does not hold an active balance of that bank.
    pub fn get_balance_index(&self, bank_pk: &Pubkey) -> (r: Result<usize, MarginfiError>)
        ensures
            r == spec_balance_index(self.balances@, *bank_pk),
            r matches Ok(i) ==> i < self.balances@.len() && self.balances@[i as int].bank_pk
                == *bank_pk && balance_active(self.balances@[i as int]),
            sorted_descending(self.balances@) && (forall|j: int|
                0 <= j < self.balances@.len() && #[trigger] self.balances@[j].bank_pk == *bank_pk
                    ==> balance_active(self.balances@[j])) && (exists|j: int|
                0 <= j < self.balances@.len() && #[trigger] self.balances@[j].bank_pk == *bank_pk)
                ==> r is Ok,
    {
        let bs = &self.balances;
        if bs.len() == 0 {
            return Err(MarginfiError::LendingAccountBalanceNotFound);
        }
        let mut size: usize = bs.len();
        let mut base: usize = 0;
        while size > 1
            invariant
                bs@ == self.balances@,
                1 <= size,
                base + size <= bs@.len(),
                search_base(bs@, *bank_pk, base as int, size as int) == search_base(
                    bs@,
                    *bank_pk,
                    0,
                    bs@.len() as int,
                ),
            decreases size,
        {
            let half = size / 2;
            assert(half < size);
            assert(base + half < bs@.len());
            assert(bs@.len() == bs.len());
            let mid = base + half;
            if !bs[mid].bank_pk.less_than(bank_pk) {
                base = mid;
            }
            size = size - half;
        }
        proof {
            lemma_search_base_bounds(bs@, *bank_pk, 0, bs@.len() as int);
            if sorted_descending(bs@) && (exists|j: int|
                0 <= j < bs@.len() && #[trigger] bs@[j].bank_pk == *bank_pk) {
                let k = choose|j: int| 0 <= j < bs@.len() && #[trigger] bs@[j].bank_pk == *bank_pk;
                lemma_search_finds(bs@, *bank_pk, 0, bs@.len() as int, k);
            }
        }
        if bs[base].bank_pk.same(bank_pk) && bs[base].is_active() {
            Ok(base)
        } else {
            Err(MarginfiError::LendingAccountBalanceNotFound)
        }
    }
}

} // verus!
