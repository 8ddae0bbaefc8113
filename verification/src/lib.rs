//! A sponsor-funded prize pool with verified fund-custody invariants.
//!
//! A sponsor deposits a fixed amount tied to a post identifier, declares how
//! many winners there will be and which percentage share each rank receives,
//! and — once a fixed close time has passed — designates the winner
//! identities. Winners then individually claim their share from a custodial
//! escrow, and the sponsor may reclaim any undistributed or unclaimed
//! remainder once the pool is no longer active.
//!
//! This crate holds the pool lifecycle state machine and the payout
//! arithmetic, with contracts that pin down exactly which error each
//! operation reports on which inputs and how each operation changes the
//! pool record. Moving the actual funds, reading the clock, and allocating
//! the storage that backs a record are the hosting environment's business:
//! the handlers here take the current time and the escrow balance as plain
//! values and return the amount that the host must transfer.

pub mod claim_prize;
pub mod create_pool;
pub mod distribution;
pub mod emergency_withdraw;
pub mod errors;
pub mod identity;
pub mod prize_pool;
pub mod set_winners;
