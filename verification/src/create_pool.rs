use crate::distribution::pct_sum;
use crate::distribution::pct_sum_prefix;
use crate::distribution::MAX_WINNERS;
use crate::errors::ErrorCode;
use crate::identity::Identity;
use crate::prize_pool::PrizePool;
use vstd::prelude::*;

verus! {

/// Why creation fails, if it does: the checks run in this order and the
/// first one that fails decides the error. `None` means creation is owed.
pub open spec fn create_error(
    post_id: Seq<char>,
    dist: Seq<u8>,
    total_amount: u64,
    ends_at: i64,
    current_time: i64,
) -> Option<ErrorCode> {
    if post_id.len() > 64 {
        Some(ErrorCode::PostIdTooLong)
    } else if dist.len() < 1 || dist.len() > MAX_WINNERS {
        Some(ErrorCode::InvalidWinnersCount)
    } else if pct_sum(dist) != 100 {
        Some(ErrorCode::DistributionNotHundred)
    } else if exists|i: int| 0 <= i < dist.len() && dist[i] == 0 {
        Some(ErrorCode::InvalidDistribution)
    } else if total_amount == 0 {
        Some(ErrorCode::InsufficientFunds)
    } else if ends_at <= current_time {
        Some(ErrorCode::PoolEnded)
    } else {
        None
    }
}

/// Create a pool: validate the inputs and initialize the record.
///
/// On success the host must move exactly `total_amount` of the settlement
/// asset from the sponsor's account into the pool's escrow, under the
/// sponsor's own signature, and store the record under `post_id`; if that
/// transfer fails the host must discard the record, so that no partial
/// creation is observable.
pub fn handler(
    owner: Identity,
    post_id: String,
    usdc_mint: Identity,
    total_amount: u64,
    distribution: Vec<u8>,
    ends_at: i64,
    current_time: i64,
    bump: u8,
) -> (r: Result<PrizePool, ErrorCode>)
    ensures
        create_error(post_id@, distribution@, total_amount, ends_at, current_time) matches Some(e)
            ==> r == Err::<PrizePool, ErrorCode>(e),
        create_error(post_id@, distribution@, total_amount, ends_at, current_time) is None ==> (
        r matches Ok(pool) && pool.wf() && pool.owner == owner && pool.post_id@ == post_id@
            && pool.usdc_mint == usdc_mint && pool.total_amount == total_amount
            && pool.winners_count as int == distribution@.len() && pool.distribution@
            == distribution@ && pool.winners@.len() == 0 && pool.claimed@.len() == 0
            && pool.total_claimed == 0 && pool.ends_at == ends_at && !pool.distributed
            && pool.bump == bump),
{
    if post_id.as_str().unicode_len() > 64 {
        return Err(ErrorCode::PostIdTooLong);
    }
    let winners_count = distribution.len();
    if winners_count == 0 || winners_count > MAX_WINNERS {
        return Err(ErrorCode::InvalidWinnersCount);
    }

    let mut sum: u32 = 0;
    let mut k: usize = 0;
    while k < distribution.len()
        invariant
            0 <= k <= distribution@.len(),
            distribution@.len() <= MAX_WINNERS,
            sum == pct_sum_prefix(distribution@, k as int),
            sum <= 255 * k,
        decreases distribution@.len() - k,
    {
        sum = sum + distribution[k] as u32;
        k = k + 1;
    }
    if sum != 100 {
        return Err(ErrorCode::DistributionNotHundred);
    }

    let mut k: usize = 0;
    while k < distribution.len()
        invariant
            0 <= k <= distribution@.len(),
            post_id@.len() <= 64,
            1 <= distribution@.len() <= MAX_WINNERS,
            pct_sum(distribution@) == 100,
            forall|j: int| 0 <= j < k ==> distribution@[j] > 0,
        decreases distribution@.len() - k,
    {
        if distribution[k] == 0 {
            assert(exists|i: int| 0 <= i < distribution@.len() && distribution@[i] == 0) by {
                assert(distribution@[k as int] == 0);
            }
            return Err(ErrorCode::InvalidDistribution);
        }
        k = k + 1;
    }

    if total_amount == 0 {
        return Err(ErrorCode::InsufficientFunds);
    }
    if ends_at <= current_time {
        return Err(ErrorCode::PoolEnded);
    }

    let pool = PrizePool {
        owner,
        post_id,
        usdc_mint,
        total_amount,
        winners_count: winners_count as u8,
        distribution,
        winners: Vec::new(),
        claimed: Vec::new(),
        total_claimed: 0,
        ends_at,
        distributed: false,
        bump,
    };
    Ok(pool)
}

} // verus!
