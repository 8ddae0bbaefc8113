use crate::errors::ErrorCode;
use crate::identity::Identity;
use crate::prize_pool::PrizePool;
use vstd::prelude::*;

verus! {

/// Why an emergency withdrawal fails, if it does. Only the owner may
/// reclaim, and only while nothing is owed to pending winners: either the
/// winners were never set, or every rank has already been paid. Whenever the
/// pool is distributed with at least one rank unclaimed, the operation fails
/// with `AlreadyDistributed`.
pub open spec fn emergency_withdraw_error(pool: PrizePool, caller: Identity) -> Option<ErrorCode> {
    if caller != pool.owner {
        Some(ErrorCode::Unauthorized)
    } else if pool.distributed && !(forall|i: int|
        0 <= i < pool.claimed@.len() ==> pool.claimed@[i]) {
        Some(ErrorCode::AlreadyDistributed)
    } else {
        None
    }
}

/// Reclaim the pool's remainder and close it.
///
/// On success the host must transfer the entire remaining escrow balance —
/// the returned amount — back to the owner under the pool's own derived
/// authority (skipping the transfer when it is zero), then destroy the
/// record and return its storage deposit to the owner. The pool's key is
/// free for a fresh creation afterwards; that is intentional.
pub fn handler(pool: &PrizePool, caller: Identity, escrow_balance: u64) -> (r: Result<
    u64,
    ErrorCode,
>)
    requires
        pool.wf(),
    ensures
        emergency_withdraw_error(*pool, caller) matches Some(e) ==> r == Err::<u64, ErrorCode>(e),
        emergency_withdraw_error(*pool, caller) is None ==> r == Ok::<u64, ErrorCode>(
            escrow_balance,
        ),
{
    if caller != pool.owner {
        return Err(ErrorCode::Unauthorized);
    }
    if pool.distributed && !pool.all_claimed() {
        return Err(ErrorCode::AlreadyDistributed);
    }
    Ok(escrow_balance)
}

} // verus!
