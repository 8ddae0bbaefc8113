use crate::distribution::lemma_paid_le_payout_sum;
use crate::distribution::lemma_payout_sum_bounded;
use crate::distribution::paid_sum;
use crate::distribution::payout_of;
use crate::distribution::valid_distribution;
use crate::errors::ErrorCode;
use crate::identity::Identity;
use vstd::prelude::*;

verus! {

/// One prize pool: the durable record of a sponsor's deposit, the payout
/// table, and how much of it each winner has taken so far.
pub struct PrizePool {
    /// The sponsor who created the pool. Immutable after creation.
    pub owner: Identity,
    /// The post this pool rewards; at most 64 characters, immutable, and the
    /// key under which the host stores the record.
    pub post_id: String,
    /// The fungible-asset kind the pool is denominated and paid out in.
    pub usdc_mint: Identity,
    /// The full amount deposited at creation; the base of every payout
    /// calculation, never reduced as prizes are claimed.
    pub total_amount: u64,
    /// How many winners the pool pays.
    pub winners_count: u8,
    /// Percentage share per rank; entries sum to exactly 100.
    pub distribution: Vec<u8>,
    /// Winner identities by rank; empty until set, then one per rank.
    pub winners: Vec<Identity>,
    /// Which ranks have already been paid; same length as `winners`.
    pub claimed: Vec<bool>,
    /// Running sum of the amounts paid out so far.
    pub total_claimed: u64,
    /// The close time; winners can only be set at or after it.
    pub ends_at: i64,
    /// Whether the winners have been set (and claims may begin).
    pub distributed: bool,
    /// The seed with which the host derived the pool's signing authority
    /// from `post_id`; stored so the pool can authorize escrow debits.
    pub bump: u8,
}

impl PrizePool {
    /// The record's invariant. Creation establishes it and every operation
    /// preserves it: the payout table is valid, winners are either unset or
    /// fully set with one claim mark each, `distributed` says which, and
    /// `total_claimed` is exactly the sum of the payouts already taken.
    pub open spec fn wf(self) -> bool {
        &&& self.post_id@.len() <= 64
        &&& self.winners_count as int == self.distribution@.len()
        &&& valid_distribution(self.distribution@)
        &&& self.winners@.len() == 0 || self.winners@.len() == self.distribution@.len()
        &&& self.claimed@.len() == self.winners@.len()
        &&& (self.distributed <==> self.winners@.len() == self.distribution@.len())
        &&& self.total_claimed == paid_sum(self.total_amount, self.distribution@, self.claimed@)
        &&& self.total_amount > 0
    }

    /// True once the close time has been reached.
    pub fn has_ended(&self, current_time: i64) -> (r: bool)
        ensures
            r == (current_time >= self.ends_at),
    {
        current_time >= self.ends_at
    }

    /// True once the winner list has been fully set.
    pub fn all_winners_set(&self) -> (r: bool)
        ensures
            r == (self.winners@.len() == self.winners_count as int),
    {
        self.winners.len() == self.winners_count as usize
    }

    /// True if the given rank exists and has already been paid.
    pub fn has_claimed(&self, winner_index: usize) -> (r: bool)
        ensures
            r == (winner_index < self.claimed@.len() && self.claimed@[winner_index as int]),
    {
        if winner_index >= self.claimed.len() {
            return false;
        }
        self.claimed[winner_index]
    }

    /// The prize owed to `rank`: the integer part of
    /// `total_amount * distribution[rank] / 100`, computed with checked
    /// arithmetic so an overflow is reported rather than wrapped.
    pub fn calculate_prize(&self, rank: usize) -> (r: Result<u64, ErrorCode>)
        ensures
            rank >= self.distribution@.len() ==> r == Err::<u64, ErrorCode>(ErrorCode::InvalidRank),
            rank < self.distribution@.len() && (self.total_amount as int) * (
            self.distribution@[rank as int] as int) > u64::MAX ==> r == Err::<u64, ErrorCode>(
                ErrorCode::MathOverflow,
            ),
            rank < self.distribution@.len() && (self.total_amount as int) * (
            self.distribution@[rank as int] as int) <= u64::MAX ==> r == Ok::<u64, ErrorCode>(
                payout_of(self.total_amount, self.distribution@[rank as int]) as u64,
            ),
    {
        if rank >= self.distribution.len() {
            return Err(ErrorCode::InvalidRank);
        }
        let percentage = self.distribution[rank] as u64;
        let product = match self.total_amount.checked_mul(percentage) {
            Some(p) => p,
            None => {
                return Err(ErrorCode::MathOverflow);
            },
        };
        let amount = match product.checked_div(100) {
            Some(a) => a,
            None => {
                return Err(ErrorCode::MathOverflow);
            },
        };
        Ok(amount)
    }

    /// True once every rank's prize has been claimed.
    pub fn all_claimed(&self) -> (r: bool)
        ensures
            r == (forall|i: int| 0 <= i < self.claimed@.len() ==> self.claimed@[i]),
    {
        let n = self.claimed.len();
        let mut k: usize = 0;
        while k < n
            invariant
                0 <= k <= n,
                n == self.claimed@.len(),
                forall|i: int| 0 <= i < k ==> self.claimed@[i],
            decreases n - k,
        {
            if !self.claimed[k] {
                return false;
            }
            k = k + 1;
        }
        true
    }
}

/// The rank of the first occurrence of `caller` in `winners` from position
/// `i` on, or -1 if there is none.
pub open spec fn find_from(winners: Seq<Identity>, caller: Identity, i: int) -> int
    decreases winners.len() - i,
{
    if i < 0 || i >= winners.len() {
        -1
    } else if winners[i] == caller {
        i
    } else {
        find_from(winners, caller, i + 1)
    }
}

/// The rank of the first occurrence of `caller` in `winners`, or -1 if the
/// caller is not a winner.
pub open spec fn find_index(winners: Seq<Identity>, caller: Identity) -> int {
    find_from(winners, caller, 0)
}

/// `find_from` returns the first match: if `k` holds the caller and nothing
/// in `[i, k)` does, the search from `i` lands on `k`.
pub proof fn lemma_find_from_found(winners: Seq<Identity>, caller: Identity, i: int, k: int)
    requires
        0 <= i <= k < winners.len(),
        winners[k] == caller,
        forall|j: int| i <= j < k ==> winners[j] != caller,
    ensures
        find_from(winners, caller, i) == k,
    decreases k - i,
{
    if i < k {
        lemma_find_from_found(winners, caller, i + 1, k);
    }
}

/// If nothing from position `i` on holds the caller, the search fails.
pub proof fn lemma_find_from_none(winners: Seq<Identity>, caller: Identity, i: int)
    requires
        0 <= i <= winners.len(),
        forall|j: int| i <= j < winners.len() ==> winners[j] != caller,
    ensures
        find_from(winners, caller, i) == -1,
    decreases winners.len() - i,
{
    if i < winners.len() {
        lemma_find_from_none(winners, caller, i + 1);
    }
}

/// A successful search lands inside the list, on the caller, and on the
/// first position that holds the caller.
pub proof fn lemma_find_from_props(winners: Seq<Identity>, caller: Identity, i: int)
    requires
        0 <= i <= winners.len(),
        find_from(winners, caller, i) != -1,
    ensures
        i <= find_from(winners, caller, i) < winners.len(),
        winners[find_from(winners, caller, i)] == caller,
    decreases winners.len() - i,
{
    if i < winners.len() && winners[i] != caller {
        lemma_find_from_props(winners, caller, i + 1);
    }
}

/// A valid pool never owes less than it has paid: the running claimed total
/// is bounded by the deposit.
pub proof fn lemma_total_claimed_bounded(pool: PrizePool)
    requires
        pool.wf(),
    ensures
        pool.total_claimed <= pool.total_amount,
{
    if pool.claimed@.len() != 0 {
        lemma_paid_le_payout_sum(
            pool.total_amount,
            pool.distribution@,
            pool.claimed@,
            pool.claimed@.len() as int,
        );
        lemma_payout_sum_bounded(pool.total_amount, pool.distribution@);
    }
}

} // verus!
