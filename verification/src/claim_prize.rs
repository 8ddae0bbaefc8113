use crate::distribution::lemma_paid_le_payout_sum;
use crate::distribution::lemma_paid_sum_update;
use crate::distribution::lemma_payout_bounds;
use crate::distribution::lemma_payout_sum_bounded;
use crate::distribution::lemma_entry_le_pct_sum;
use crate::distribution::payout_of;
use crate::errors::ErrorCode;
use crate::identity::Identity;
use crate::prize_pool::find_index;
use crate::prize_pool::lemma_find_from_found;
use crate::prize_pool::lemma_find_from_none;
use crate::prize_pool::lemma_find_from_props;
use crate::prize_pool::PrizePool;
use vstd::prelude::*;

verus! {

/// Why a claim fails, if it does: the checks run in this order and the
/// first one that fails decides the error. `None` means the payout is owed.
/// A caller who appears twice among the winners claims their first rank.
pub open spec fn claim_error(pool: PrizePool, caller: Identity, escrow_balance: u64) -> Option<
    ErrorCode,
> {
    let idx = find_index(pool.winners@, caller);
    if !pool.distributed {
        Some(ErrorCode::WinnersNotSet)
    } else if idx == -1 {
        Some(ErrorCode::InvalidWinner)
    } else if pool.claimed@[idx] {
        Some(ErrorCode::AlreadyClaimed)
    } else if (pool.total_amount as int) * (pool.distribution@[idx] as int) > u64::MAX {
        Some(ErrorCode::MathOverflow)
    } else if escrow_balance < payout_of(pool.total_amount, pool.distribution@[idx]) {
        Some(ErrorCode::InsufficientFunds)
    } else {
        None
    }
}

/// The successful transition: the caller's first rank is marked claimed,
/// the running total grows by exactly that rank's payout, and every other
/// field is untouched.
pub open spec fn claim_ok(pre: PrizePool, post: PrizePool, caller: Identity, amount: u64) -> bool {
    let idx = find_index(pre.winners@, caller);
    &&& pre.distributed
    &&& 0 <= idx < pre.claimed@.len()
    &&& !pre.claimed@[idx]
    &&& amount == payout_of(pre.total_amount, pre.distribution@[idx])
    &&& post.owner == pre.owner
    &&& post.post_id@ == pre.post_id@
    &&& post.usdc_mint == pre.usdc_mint
    &&& post.total_amount == pre.total_amount
    &&& post.winners_count == pre.winners_count
    &&& post.distribution@ == pre.distribution@
    &&& post.winners@ == pre.winners@
    &&& post.claimed@ == pre.claimed@.update(idx, true)
    &&& post.total_claimed == pre.total_claimed + amount
    &&& post.ends_at == pre.ends_at
    &&& post.distributed == pre.distributed
    &&& post.bump == pre.bump
}

/// The rank of the first occurrence of `caller`, if any.
#[verifier::loop_isolation(false)]
fn find_winner_index(winners: &Vec<Identity>, caller: Identity) -> (r: Option<usize>)
    ensures
        match r {
            Some(i) => find_index(winners@, caller) == i as int,
            None => find_index(winners@, caller) == -1,
        },
{
    let n = winners.len();
    let mut k: usize = 0;
    while k < n
        invariant
            0 <= k <= n,
            forall|j: int| 0 <= j < k ==> winners@[j] != caller,
        decreases n - k,
    {
        if winners[k] == caller {
            proof {
                lemma_find_from_found(winners@, caller, 0, k as int);
            }
            return Some(k);
        }
        k = k + 1;
    }
    proof {
        lemma_find_from_none(winners@, caller, 0);
    }
    None
}

/// Pay the caller's prize out of escrow.
///
/// The record mutation here and the escrow debit of the returned amount are
/// one atomic unit: the host performs the transfer, authorized by the
/// pool's own derived authority, and must roll the record back if the
/// transfer fails, so that a claimed mark never outlives a missing payout.
pub fn handler(pool: &mut PrizePool, caller: Identity, escrow_balance: u64) -> (r: Result<
    u64,
    ErrorCode,
>)
    requires
        old(pool).wf(),
    ensures
        final(pool).wf(),
        claim_error(*old(pool), caller, escrow_balance) matches Some(e) ==> r == Err::<
            u64,
            ErrorCode,
        >(e) && *final(pool) == *old(pool),
        claim_error(*old(pool), caller, escrow_balance) is None ==> (r matches Ok(amount)
            && claim_ok(*old(pool), *final(pool), caller, amount)),
{
    if !pool.distributed {
        return Err(ErrorCode::WinnersNotSet);
    }
    let winner_index = match find_winner_index(&pool.winners, caller) {
        Some(i) => i,
        None => {
            return Err(ErrorCode::InvalidWinner);
        },
    };
    proof {
        lemma_find_from_props(pool.winners@, caller, 0);
    }
    if pool.has_claimed(winner_index) {
        return Err(ErrorCode::AlreadyClaimed);
    }
    let prize_amount = match pool.calculate_prize(winner_index) {
        Ok(a) => a,
        Err(e) => {
            return Err(e);
        },
    };
    proof {
        // The rank's percentage is at most the whole table's 100, so the
        // payout fits in the deposit.
        lemma_entry_le_pct_sum(
            pool.distribution@,
            winner_index as int,
            pool.distribution@.len() as int,
        );
        lemma_payout_bounds(pool.total_amount, pool.distribution@[winner_index as int]);
    }
    if escrow_balance < prize_amount {
        return Err(ErrorCode::InsufficientFunds);
    }
    proof {
        // What has been paid plus this payout is the paid sum of the updated
        // table, which the deposit bounds — so the running total cannot
        // overflow.
        lemma_paid_sum_update(
            pool.total_amount,
            pool.distribution@,
            pool.claimed@,
            winner_index as int,
        );
        lemma_paid_le_payout_sum(
            pool.total_amount,
            pool.distribution@,
            pool.claimed@.update(winner_index as int, true),
            pool.distribution@.len() as int,
        );
        lemma_payout_sum_bounded(pool.total_amount, pool.distribution@);
    }
    let new_total = match pool.total_claimed.checked_add(prize_amount) {
        Some(t) => t,
        None => {
            return Err(ErrorCode::MathOverflow);
        },
    };
    pool.claimed[winner_index] = true;
    pool.total_claimed = new_total;
    Ok(prize_amount)
}

/// Claiming is idempotent per rank: one successful claim marks the caller's
/// rank claimed, so by `handler`'s contract a second claim by the same
/// caller — whatever the escrow balance — fails with `AlreadyClaimed` and
/// changes nothing, and the running total has grown by exactly one payout.
pub proof fn lemma_claim_idempotent(
    pre: PrizePool,
    post: PrizePool,
    caller: Identity,
    amount: u64,
    escrow_balance: u64,
)
    requires
        pre.wf(),
        claim_ok(pre, post, caller, amount),
    ensures
        claim_error(post, caller, escrow_balance) == Some(ErrorCode::AlreadyClaimed),
        post.total_claimed == pre.total_claimed + amount,
{
    let idx = find_index(pre.winners@, caller);
    assert(find_index(post.winners@, caller) == idx);
    assert(post.claimed@[idx]);
}

} // verus!
