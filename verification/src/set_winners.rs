use crate::distribution::lemma_paid_sum_all_false;
use crate::errors::ErrorCode;
use crate::identity::Identity;
use crate::prize_pool::PrizePool;
use vstd::prelude::*;

verus! {

/// Why setting winners fails, if it does: the checks run in this order and
/// the first one that fails decides the error. `None` means the transition
/// is owed. In particular the operation is permitted exactly at or after the
/// close time and always fails with `PoolNotEnded` before it.
pub open spec fn set_winners_error(
    pool: PrizePool,
    caller: Identity,
    winners: Seq<Identity>,
    current_time: i64,
) -> Option<ErrorCode> {
    if caller != pool.owner {
        Some(ErrorCode::Unauthorized)
    } else if current_time < pool.ends_at {
        Some(ErrorCode::PoolNotEnded)
    } else if winners.len() != pool.winners_count {
        Some(ErrorCode::WinnersLengthMismatch)
    } else if exists|i: int| 0 <= i < winners.len() && winners[i].spec_is_null() {
        Some(ErrorCode::InvalidWinner)
    } else {
        None
    }
}

/// The successful transition: the winner list is recorded verbatim (index =
/// rank), every rank starts unclaimed, the pool becomes distributed, and
/// every other field is untouched.
pub open spec fn set_winners_ok(pre: PrizePool, post: PrizePool, winners: Seq<Identity>) -> bool {
    &&& post.owner == pre.owner
    &&& post.post_id@ == pre.post_id@
    &&& post.usdc_mint == pre.usdc_mint
    &&& post.total_amount == pre.total_amount
    &&& post.winners_count == pre.winners_count
    &&& post.distribution@ == pre.distribution@
    &&& post.winners@ == winners
    &&& post.claimed@.len() == winners.len()
    &&& (forall|i: int| 0 <= i < post.claimed@.len() ==> !post.claimed@[i])
    &&& post.total_claimed == pre.total_claimed
    &&& post.ends_at == pre.ends_at
    &&& post.distributed
    &&& post.bump == pre.bump
}

/// Set the pool's winners, once, after the close time.
///
/// Only the owner may call this, only at or after `ends_at`, with exactly
/// `winners_count` identities, none of them null. The host must not call it
/// on a pool whose winners are already set: nothing can revert
/// `distributed`, so a second call would silently overwrite accounting that
/// claims have already touched.
#[verifier::loop_isolation(false)]
pub fn handler(
    pool: &mut PrizePool,
    caller: Identity,
    winners: Vec<Identity>,
    current_time: i64,
) -> (r: Result<(), ErrorCode>)
    requires
        old(pool).wf(),
        !old(pool).distributed,
    ensures
        final(pool).wf(),
        set_winners_error(*old(pool), caller, winners@, current_time) matches Some(e) ==> r
            == Err::<(), ErrorCode>(e) && *final(pool) == *old(pool),
        set_winners_error(*old(pool), caller, winners@, current_time) is None ==> r == Ok::<
            (),
            ErrorCode,
        >(()) && set_winners_ok(*old(pool), *final(pool), winners@),
{
    if caller != pool.owner {
        return Err(ErrorCode::Unauthorized);
    }
    if !pool.has_ended(current_time) {
        return Err(ErrorCode::PoolNotEnded);
    }
    if winners.len() != pool.winners_count as usize {
        return Err(ErrorCode::WinnersLengthMismatch);
    }

    let n = winners.len();
    let mut k: usize = 0;
    while k < n
        invariant
            0 <= k <= n,
            forall|j: int| 0 <= j < k ==> !winners@[j].spec_is_null(),
        decreases n - k,
    {
        if winners[k].is_null() {
            assert(winners@[k as int].spec_is_null());
            return Err(ErrorCode::InvalidWinner);
        }
        k = k + 1;
    }

    let mut claimed: Vec<bool> = Vec::new();
    while claimed.len() < n
        invariant
            claimed@.len() <= n,
            forall|j: int| 0 <= j < claimed@.len() ==> !claimed@[j],
        decreases n - claimed@.len(),
    {
        claimed.push(false);
    }

    proof {
        // The pool has paid nothing yet, and the fresh all-false table says so.
        lemma_paid_sum_all_false(
            pool.total_amount,
            pool.distribution@,
            pool.claimed@,
            pool.claimed@.len() as int,
        );
        lemma_paid_sum_all_false(
            pool.total_amount,
            pool.distribution@,
            claimed@,
            claimed@.len() as int,
        );
    }

    pool.winners = winners;
    pool.claimed = claimed;
    pool.distributed = true;
    Ok(())
}

} // verus!
