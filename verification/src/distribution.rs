use vstd::arithmetic::div_mod::lemma_div_is_ordered;
use vstd::arithmetic::div_mod::lemma_div_multiples_vanish;
use vstd::arithmetic::div_mod::lemma_fundamental_div_mod;
use vstd::arithmetic::div_mod::lemma_mod_bound;
use vstd::arithmetic::mul::lemma_mul_inequality;
use vstd::arithmetic::mul::lemma_mul_is_distributive_add;
use vstd::prelude::*;

verus! {

/// Largest number of winners (and so distribution entries) a pool may have.
pub const MAX_WINNERS: usize = 10;

/// Sum of the first `n` percentage entries of a distribution table.
pub open spec fn pct_sum_prefix(dist: Seq<u8>, n: int) -> int
    decreases n,
{
    if n <= 0 {
        0
    } else {
        pct_sum_prefix(dist, n - 1) + dist[n - 1]
    }
}

/// Sum of all percentage entries of a distribution table.
pub open spec fn pct_sum(dist: Seq<u8>) -> int {
    pct_sum_prefix(dist, dist.len() as int)
}

/// A well-formed percentage table: between 1 and `MAX_WINNERS` entries,
/// every entry at least 1, entries summing to exactly 100.
pub open spec fn valid_distribution(dist: Seq<u8>) -> bool {
    &&& 1 <= dist.len() <= MAX_WINNERS
    &&& forall|i: int| 0 <= i < dist.len() ==> dist[i] >= 1
    &&& pct_sum(dist) == 100
}

/// The exact amount a rank with percentage `pct` is owed out of `total`:
/// the integer part of `total * pct / 100`.
pub open spec fn payout_of(total: u64, pct: u8) -> int {
    (total as int) * (pct as int) / 100
}

/// What the integer division in `payout_of` discards.
pub open spec fn payout_rem(total: u64, pct: u8) -> int {
    (total as int) * (pct as int) % 100
}

/// Sum of the payouts of the first `n` ranks.
pub open spec fn payout_sum_prefix(total: u64, dist: Seq<u8>, n: int) -> int
    decreases n,
{
    if n <= 0 {
        0
    } else {
        payout_sum_prefix(total, dist, n - 1) + payout_of(total, dist[n - 1])
    }
}

/// Sum of the payouts of all ranks of the table.
pub open spec fn payout_sum(total: u64, dist: Seq<u8>) -> int {
    payout_sum_prefix(total, dist, dist.len() as int)
}

/// Sum of the rounding remainders of the first `n` ranks.
pub open spec fn rem_sum_prefix(total: u64, dist: Seq<u8>, n: int) -> int
    decreases n,
{
    if n <= 0 {
        0
    } else {
        rem_sum_prefix(total, dist, n - 1) + payout_rem(total, dist[n - 1])
    }
}

/// Sum of the rounding remainders of all ranks of the table.
pub open spec fn rem_sum(total: u64, dist: Seq<u8>) -> int {
    rem_sum_prefix(total, dist, dist.len() as int)
}

/// Sum of the payouts of the ranks below `n` that are marked claimed.
pub open spec fn paid_sum_prefix(total: u64, dist: Seq<u8>, claimed: Seq<bool>, n: int) -> int
    decreases n,
{
    if n <= 0 {
        0
    } else {
        paid_sum_prefix(total, dist, claimed, n - 1) + if claimed[n - 1] {
            payout_of(total, dist[n - 1])
        } else {
            0
        }
    }
}

/// Sum of the payouts of all ranks marked claimed.
pub open spec fn paid_sum(total: u64, dist: Seq<u8>, claimed: Seq<bool>) -> int {
    paid_sum_prefix(total, dist, claimed, claimed.len() as int)
}

/// One rank's payout is nonnegative, bounded by the total whenever its
/// percentage is at most 100, and related to its remainder by the division
/// identity.
pub proof fn lemma_payout_bounds(total: u64, pct: u8)
    ensures
        0 <= payout_of(total, pct),
        pct <= 100 ==> payout_of(total, pct) <= total,
        0 <= payout_rem(total, pct) < 100,
        100 * payout_of(total, pct) + payout_rem(total, pct) == (total as int) * (pct as int),
{
    assert((total as int) * (pct as int) >= 0) by (nonlinear_arith);
    lemma_fundamental_div_mod((total as int) * (pct as int), 100);
    lemma_mod_bound((total as int) * (pct as int), 100);
    assert(0 <= payout_of(total, pct)) by {
        lemma_div_is_ordered(0, (total as int) * (pct as int), 100);
    }
    if pct <= 100 {
        assert((total as int) * (pct as int) <= 100 * (total as int)) by {
            lemma_mul_inequality(pct as int, 100, total as int);
            assert((pct as int) * (total as int) == (total as int) * (pct as int))
                by (nonlinear_arith);
        }
        assert((100 * (total as int)) / 100 == total as int) by {
            lemma_div_multiples_vanish(total as int, 100);
        }
        lemma_div_is_ordered((total as int) * (pct as int), 100 * (total as int), 100);
    }
}

/// Percentage prefix sums are nonnegative.
proof fn lemma_pct_sum_nonneg(dist: Seq<u8>, n: int)
    ensures
        0 <= pct_sum_prefix(dist, n),
    decreases n,
{
    if n > 0 {
        lemma_pct_sum_nonneg(dist, n - 1);
    }
}

/// Every entry of the table is bounded by any prefix sum that covers it.
pub proof fn lemma_entry_le_pct_sum(dist: Seq<u8>, i: int, n: int)
    requires
        0 <= i < n <= dist.len(),
    ensures
        dist[i] <= pct_sum_prefix(dist, n),
    decreases n,
{
    if i == n - 1 {
        lemma_pct_sum_nonneg(dist, n - 1);
    } else {
        lemma_entry_le_pct_sum(dist, i, n - 1);
    }
}

/// One hundred times the payout prefix sum plus the remainder prefix sum is
/// the total times the percentage prefix sum.
proof fn lemma_sum_decompose(total: u64, dist: Seq<u8>, n: int)
    requires
        0 <= n <= dist.len(),
    ensures
        100 * payout_sum_prefix(total, dist, n) + rem_sum_prefix(total, dist, n) == (
        total as int) * pct_sum_prefix(dist, n),
    decreases n,
{
    if n > 0 {
        lemma_sum_decompose(total, dist, n - 1);
        lemma_payout_bounds(total, dist[n - 1]);
        lemma_mul_is_distributive_add(
            total as int,
            pct_sum_prefix(dist, n - 1),
            dist[n - 1] as int,
        );
        lemma_mul_is_distributive_add(100, payout_sum_prefix(total, dist, n - 1), payout_of(total, dist[n - 1]));
    }
}

/// Remainder prefix sums are nonnegative.
proof fn lemma_rem_sum_nonneg(total: u64, dist: Seq<u8>, n: int)
    ensures
        0 <= rem_sum_prefix(total, dist, n),
    decreases n,
{
    if n > 0 {
        lemma_rem_sum_nonneg(total, dist, n - 1);
        lemma_payout_bounds(total, dist[n - 1]);
    }
}

/// What a valid pool can ever owe: the payouts of all ranks together never
/// exceed the total, and they reach it exactly when rounding discards
/// nothing.
pub proof fn lemma_payout_sum_bounded(total: u64, dist: Seq<u8>)
    requires
        valid_distribution(dist),
    ensures
        0 <= payout_sum(total, dist) <= total,
        payout_sum(total, dist) == total <==> rem_sum(total, dist) == 0,
{
    let n = dist.len() as int;
    lemma_sum_decompose(total, dist, n);
    lemma_rem_sum_nonneg(total, dist, n);
    lemma_paid_like_nonneg(total, dist, n);
    assert(100 * payout_sum_prefix(total, dist, n) + rem_sum_prefix(total, dist, n) == (
    total as int) * 100);
    assert((total as int) * 100 == 100 * (total as int)) by (nonlinear_arith);
}

/// Payout prefix sums are nonnegative.
proof fn lemma_paid_like_nonneg(total: u64, dist: Seq<u8>, n: int)
    ensures
        0 <= payout_sum_prefix(total, dist, n),
    decreases n,
{
    if n > 0 {
        lemma_paid_like_nonneg(total, dist, n - 1);
        lemma_payout_bounds(total, dist[n - 1]);
    }
}

/// The claimed payouts are a sub-sum of all payouts: nonnegative and at most
/// the sum over every rank.
pub proof fn lemma_paid_le_payout_sum(total: u64, dist: Seq<u8>, claimed: Seq<bool>, n: int)
    requires
        0 <= n <= dist.len(),
        n <= claimed.len(),
    ensures
        0 <= paid_sum_prefix(total, dist, claimed, n) <= payout_sum_prefix(total, dist, n),
    decreases n,
{
    if n > 0 {
        lemma_paid_le_payout_sum(total, dist, claimed, n - 1);
        lemma_payout_bounds(total, dist[n - 1]);
    }
}

/// Marking one unclaimed rank claimed raises the claimed sum by exactly that
/// rank's payout, over any prefix that covers the rank.
proof fn lemma_paid_sum_update_prefix(
    total: u64,
    dist: Seq<u8>,
    claimed: Seq<bool>,
    i: int,
    n: int,
)
    requires
        0 <= i < claimed.len(),
        !claimed[i],
        0 <= n <= claimed.len(),
    ensures
        paid_sum_prefix(total, dist, claimed.update(i, true), n) == paid_sum_prefix(
            total,
            dist,
            claimed,
            n,
        ) + if n > i {
            payout_of(total, dist[i])
        } else {
            0
        },
    decreases n,
{
    if n > 0 {
        lemma_paid_sum_update_prefix(total, dist, claimed, i, n - 1);
    }
}

/// Marking one unclaimed rank claimed raises the claimed sum by exactly that
/// rank's payout.
pub proof fn lemma_paid_sum_update(total: u64, dist: Seq<u8>, claimed: Seq<bool>, i: int)
    requires
        0 <= i < claimed.len(),
        !claimed[i],
    ensures
        paid_sum(total, dist, claimed.update(i, true)) == paid_sum(total, dist, claimed)
            + payout_of(total, dist[i]),
{
    lemma_paid_sum_update_prefix(total, dist, claimed, i, claimed.len() as int);
}

/// A table with nothing claimed has paid out nothing.
pub proof fn lemma_paid_sum_all_false(total: u64, dist: Seq<u8>, claimed: Seq<bool>, n: int)
    requires
        0 <= n <= claimed.len(),
        forall|j: int| 0 <= j < n ==> !claimed[j],
    ensures
        paid_sum_prefix(total, dist, claimed, n) == 0,
    decreases n,
{
    if n > 0 {
        lemma_paid_sum_all_false(total, dist, claimed, n - 1);
    }
}

} // verus!
