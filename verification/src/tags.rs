//! Order tags: handing out fresh non-zero tags that no active balance carries.

use crate::state::{
    balance_active, lending_account_wf, Balance, LendingAccount, MAX_LENDING_ACCOUNT_BALANCES,
    ORDER_ACTIVE_TAGS,
};
use vstd::prelude::*;
use vstd::set_lib::lemma_len_subset;

verus! {

/// The `k`-th tag tried after `last`: the non-zero tags in cyclic order, starting after `last`.
pub open spec fn tag_candidate(last: u16, k: int) -> u16 {
    (1 + (last + k) % 65535) as u16
}

/// Whether an active balance carries the non-zero tag `t`.
pub open spec fn tag_in_use(bs: Seq<Balance>, t: u16) -> bool {
    exists|i: int| 0 <= i < bs.len() && balance_active(bs[i]) && bs[i].tag != 0 && #[trigger] bs[i].tag == t
}

/// The first try at or after `k` whose tag is free.
pub open spec fn next_free(bs: Seq<Balance>, last: u16, k: int) -> int
    decreases 65535 - k,
{
    if k < 0 || k >= 65535 {
        k
    } else if !tag_in_use(bs, tag_candidate(last, k)) {
        k
    } else {
        next_free(bs, last, k + 1)
    }
}

/// The try that yields the `i`-th free tag (counting from 0).
pub open spec fn nth_free(bs: Seq<Balance>, last: u16, i: nat) -> int
    decreases i,
{
    if i == 0 {
        next_free(bs, last, 0)
    } else {
        next_free(bs, last, nth_free(bs, last, (i - 1) as nat) + 1)
    }
}

/// The tags `reserve_n_tags(n)` hands out: the first `n` free tags after `last`, in order,
/// followed by zeros.
pub open spec fn reserved_tags(bs: Seq<Balance>, last: u16, n: nat) -> Seq<u16> {
    Seq::new(
        ORDER_ACTIVE_TAGS as nat,
        |i: int|
            if i < n {
                tag_candidate(last, nth_free(bs, last, i as nat))
            } else {
                0u16
            },
    )
}

/// Two different tries among the first 65535 give different tags.
proof fn lemma_candidates_distinct(last: u16, a: int, b: int)
    requires
        0 <= a < b < 65535,
    ensures
        tag_candidate(last, a) != tag_candidate(last, b),
{
    let x = last + a;
    let y = last + b;
    assert(x % 65535 != y % 65535) by (nonlinear_arith)
        requires
            0 <= x < y,
            y - x < 65535,
    ;
}

/// Among 17 consecutive tries a free tag occurs: the active balances carry at most 16 tags.
proof fn lemma_free_within(bs: Seq<Balance>, last: u16, j: int)
    requires
        bs.len() <= MAX_LENDING_ACCOUNT_BALANCES,
        0 <= j,
        j + 17 <= 65535,
    ensures
        exists|m: int| j <= m <= j + 16 && !tag_in_use(bs, #[trigger] tag_candidate(last, m)),
{
    if forall|m: int| j <= m <= j + 16 ==> tag_in_use(bs, #[trigger] tag_candidate(last, m)) {
        let tries = Seq::new(17, |m: int| tag_candidate(last, j + m));
        let carried = bs.map_values(|b: Balance| b.tag);
        assert(tries.no_duplicates()) by {
            assert forall|p: int, q: int| 0 <= p < tries.len() && 0 <= q < tries.len() && p != q implies tries[p]
                != tries[q] by {
                if p < q {
                    lemma_candidates_distinct(last, j + p, j + q);
                } else {
                    lemma_candidates_distinct(last, j + q, j + p);
                }
            }
        }
        tries.unique_seq_to_set();
        carried.lemma_cardinality_of_set();
        assert(tries.to_set().subset_of(carried.to_set())) by {
            assert forall|t: u16| tries.to_set().contains(t) implies carried.to_set().contains(t) by {
                let p = choose|p: int| 0 <= p < tries.len() && tries[p] == t;
                assert(tag_in_use(bs, tag_candidate(last, j + p)));
                let i = choose|i: int|
                    0 <= i < bs.len() && balance_active(bs[i]) && bs[i].tag != 0 && #[trigger] bs[i].tag
                        == tag_candidate(last, j + p);
                assert(carried[i] == t);
            }
        }
        lemma_len_subset(tries.to_set(), carried.to_set());
        assert(false);
    }
}

/// A search never stops before it starts.
proof fn lemma_next_free_ge(bs: Seq<Balance>, last: u16, j: int)
    ensures
        next_free(bs, last, j) >= j,
    decreases 65535 - j,
{
    if 0 <= j < 65535 && tag_in_use(bs, tag_candidate(last, j)) {
        lemma_next_free_ge(bs, last, j + 1);
    }
}

/// A search that starts at `j` stops no later than a free try `m`.
proof fn lemma_next_free_le(bs: Seq<Balance>, last: u16, j: int, m: int)
    requires
        0 <= j <= m < 65535,
        !tag_in_use(bs, tag_candidate(last, m)),
    ensures
        j <= next_free(bs, last, j) <= m,
    decreases m - j,
{
    if j < m && tag_in_use(bs, tag_candidate(last, j)) {
        lemma_next_free_le(bs, last, j + 1, m);
    }
}

/// A search that starts at `j` stops within 17 tries, on a free tag.
proof fn lemma_next_free_bound(bs: Seq<Balance>, last: u16, j: int)
    requires
        bs.len() <= MAX_LENDING_ACCOUNT_BALANCES,
        0 <= j,
        j + 17 <= 65535,
    ensures
        j <= next_free(bs, last, j) <= j + 16,
        !tag_in_use(bs, tag_candidate(last, next_free(bs, last, j))),
{
    lemma_free_within(bs, last, j);
    let m = choose|m: int| j <= m <= j + 16 && !tag_in_use(bs, #[trigger] tag_candidate(last, m));
    lemma_next_free_le(bs, last, j, m);
    lemma_next_free_stops(bs, last, j);
}

/// Where the search stops, short of the end, the tag is free.
proof fn lemma_next_free_stops(bs: Seq<Balance>, last: u16, j: int)
    requires
        0 <= j,
        next_free(bs, last, j) < 65535,
    ensures
        !tag_in_use(bs, tag_candidate(last, next_free(bs, last, j))),
    decreases 65535 - j,
{
    if j < 65535 && tag_in_use(bs, tag_candidate(last, j)) {
        lemma_next_free_stops(bs, last, j + 1);
    }
}

/// The first two free tags are found within 34 tries.
proof fn lemma_first_two_bounds(bs: Seq<Balance>, last: u16)
    requires
        bs.len() <= MAX_LENDING_ACCOUNT_BALANCES,
    ensures
        0 <= nth_free(bs, last, 0) <= 16,
        nth_free(bs, last, 0) < nth_free(bs, last, 1) <= 33,
        !tag_in_use(bs, tag_candidate(last, nth_free(bs, last, 0))),
        !tag_in_use(bs, tag_candidate(last, nth_free(bs, last, 1))),
{
    lemma_next_free_bound(bs, last, 0);
    lemma_next_free_bound(bs, last, nth_free(bs, last, 0) + 1);
    assert(nth_free(bs, last, 1) == next_free(bs, last, nth_free(bs, last, 0) + 1));
}

/// Whether an active balance carries the non-zero tag `t`.
fn tag_used(balances: &Vec<Balance>, t: u16) -> (r: bool)
    ensures
        r == tag_in_use(balances@, t),
{
    let mut i: usize = 0;
    while i < balances.len()
        invariant
            i <= balances@.len(),
            forall|p: int|
                0 <= p < i ==> !(balance_active(balances@[p]) && balances@[p].tag != 0
                    && #[trigger] balances@[p].tag == t),
        decreases balances@.len() - i,
    {
        if balances[i].is_active() && balances[i].tag != 0 && balances[i].tag == t {
            return true;
        }
        i = i + 1;
    }
    false
}

/// The tag that the wrapped counter stands for: 0 stands for 1.
spec fn counter_tag(next: u16) -> u16 {
    if next == 0 {
        1
    } else {
        next
    }
}

impl LendingAccount {
    /// Reserves `n` fresh tags for new orders: the first `n` non-zero tags after the last one
    /// handed out, in cyclic order, that no active balance carries. The rest of the array is 0,
    /// and the last reserved tag is remembered.
    pub fn reserve_n_tags(&mut self, n: usize) -> (r: [u16; ORDER_ACTIVE_TAGS])
        requires
            lending_account_wf(*old(self)),
            n <= ORDER_ACTIVE_TAGS,
        ensures
            r@ == reserved_tags(old(self).balances@, old(self).last_tag_used, n as nat),
            final(self).balances@ == old(self).balances@,
            final(self).last_tag_used == if n > 0 {
                r@[n - 1]
            } else {
                old(self).last_tag_used
            },
    {
        let ghost bs = self.balances@;
        let ghost last = self.last_tag_used;
        proof {
            lemma_first_two_bounds(bs, last);
        }
        let mut tags: [u16; ORDER_ACTIVE_TAGS] = [0u16, 0u16];
        let mut next: u16 = self.last_tag_used.wrapping_add(1);
        let mut filled: usize = 0;
        let ghost mut k: int = 0;
        while filled < n
            invariant
                bs == self.balances@,
                last == self.last_tag_used,
                n <= ORDER_ACTIVE_TAGS,
                filled <= n,
                0 <= nth_free(bs, last, 0) <= 16,
                nth_free(bs, last, 0) < nth_free(bs, last, 1) <= 33,
                0 <= k <= 34,
                counter_tag(next) == tag_candidate(last, k),
                filled < n ==> k <= nth_free(bs, last, filled as nat),
                filled < n ==> next_free(bs, last, k) == nth_free(bs, last, filled as nat),
                filled == n && n > 0 ==> k == nth_free(bs, last, (n - 1) as nat) + 1,
                forall|i: int|
                    0 <= i < ORDER_ACTIVE_TAGS ==> #[trigger] tags@[i] == if i < filled {
                        tag_candidate(last, nth_free(bs, last, i as nat))
                    } else {
                        0u16
                    },
            decreases 35 - k,
        {
            if next == 0 {
                next = 1;
            }
            assert(next == tag_candidate(last, k));
            if !tag_used(&self.balances, next) {
                assert(next_free(bs, last, k) == k);
                tags[filled] = next;
                filled = filled + 1;
                proof {
                    if filled < n {
                        assert(nth_free(bs, last, filled as nat) == next_free(bs, last, k + 1));
                    }
                }
            } else {
                assert(next_free(bs, last, k) == next_free(bs, last, k + 1));
            }
            proof {
                lemma_next_free_ge(bs, last, k + 1);
            }
            next = next.wrapping_add(1);
            proof {
                let x = last + k;
                assert(counter_tag(next) == tag_candidate(last, k + 1)) by (nonlinear_arith)
                    requires
                        x == last + k,
                        0 <= x,
                        next == (if 1 + x % 65535 == 65535 {
                            0int
                        } else {
                            2 + x % 65535
                        }),
                        counter_tag(next) == if next == 0 {
                            1
                        } else {
                            next
                        },
                        tag_candidate(last, k + 1) == (1 + (x + 1) % 65535) as u16,
                ;
                k = k + 1;
            }
        }
        if n > 0 {
            self.last_tag_used = tags[n - 1];
        }
        assert(tags@ == reserved_tags(bs, last, n as nat));
        tags
    }
}

/// Reserved tags are fresh: each of the first `n` is non-zero and carried by no active
/// balance, the first `n` differ from one another, and the rest are 0.
pub proof fn lemma_reserved_tags_fresh(la: LendingAccount, n: nat)
    requires
        lending_account_wf(la),
        n <= ORDER_ACTIVE_TAGS,
    ensures
        forall|i: int|
            0 <= i < n ==> #[trigger] reserved_tags(la.balances@, la.last_tag_used, n)[i] != 0
                && !tag_in_use(la.balances@, reserved_tags(la.balances@, la.last_tag_used, n)[i]),
        forall|i: int, j: int|
            0 <= i < j < n ==> #[trigger] reserved_tags(la.balances@, la.last_tag_used, n)[i]
                != #[trigger] reserved_tags(la.balances@, la.last_tag_used, n)[j],
        forall|i: int|
            n <= i < ORDER_ACTIVE_TAGS ==> #[trigger] reserved_tags(la.balances@, la.last_tag_used, n)[i]
                == 0,
{
    let bs = la.balances@;
    let last = la.last_tag_used;
    lemma_first_two_bounds(bs, last);
    lemma_candidates_distinct(last, nth_free(bs, last, 0), nth_free(bs, last, 1));
    assert(reserved_tags(bs, last, n)[0] == if 0 < n {
        tag_candidate(last, nth_free(bs, last, 0))
    } else {
        0u16
    });
    assert(reserved_tags(bs, last, n)[1] == if 1 < n {
        tag_candidate(last, nth_free(bs, last, 1))
    } else {
        0u16
    });
}

} // verus!
