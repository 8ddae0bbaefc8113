use vstd::prelude::*;

verus! {

/// Every way a pool operation can fail. Each handler's contract states
/// exactly which of these it reports on which inputs.
#[derive(Clone, Copy, Debug, PartialEq, Eq)]
pub enum ErrorCode {
    /// The pool's close time has not been reached yet.
    PoolNotEnded,
    /// The pool's close time is not strictly in the future.
    PoolEnded,
    /// The number of winners is zero or exceeds the allowed maximum.
    InvalidWinnersCount,
    /// Some distribution percentage is zero.
    InvalidDistribution,
    /// The distribution percentages do not sum to exactly 100.
    DistributionNotHundred,
    /// The proposed winner list does not match the declared winner count.
    WinnersLengthMismatch,
    /// Winners must be set before anyone can claim.
    WinnersNotSet,
    /// A winner identity is null, or the caller is not among the winners.
    InvalidWinner,
    /// This rank's prize has already been claimed.
    AlreadyClaimed,
    /// The rank is outside the distribution table.
    InvalidRank,
    /// An arithmetic step would overflow its representation.
    MathOverflow,
    /// The deposit is zero, or the escrow cannot cover a payout.
    InsufficientFunds,
    /// Only the pool's owner may perform this action.
    Unauthorized,
    /// Winners are set and not everything has been claimed yet.
    AlreadyDistributed,
    /// The post identifier exceeds 64 characters.
    PostIdTooLong,
}

impl ErrorCode {
    /// A human-readable description, for hosts that report failures.
    pub fn message(&self) -> &'static str {
        match self {
            ErrorCode::PoolNotEnded => "Pool has not ended yet",
            ErrorCode::PoolEnded => "Pool has already ended",
            ErrorCode::InvalidWinnersCount => "Invalid number of winners",
            ErrorCode::InvalidDistribution => "Invalid distribution percentages",
            ErrorCode::DistributionNotHundred => "Distribution must sum to 100",
            ErrorCode::WinnersLengthMismatch => "Winners array length mismatch",
            ErrorCode::WinnersNotSet => "All winners must be set before claiming",
            ErrorCode::InvalidWinner => "Invalid winner address",
            ErrorCode::AlreadyClaimed => "Prize already claimed",
            ErrorCode::InvalidRank => "Invalid rank",
            ErrorCode::MathOverflow => "Math overflow",
            ErrorCode::InsufficientFunds => "Insufficient funds in pool",
            ErrorCode::Unauthorized => "Only owner can perform this action",
            ErrorCode::AlreadyDistributed => "Pool already distributed",
            ErrorCode::PostIdTooLong => "Post ID too long (max 64 chars)",
        }
    }
}

} // verus!
