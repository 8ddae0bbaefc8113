use gimme_idea::claim_prize;
use gimme_idea::create_pool;
use gimme_idea::emergency_withdraw;
use gimme_idea::errors::ErrorCode;
use gimme_idea::identity::Identity;
use gimme_idea::prize_pool::PrizePool;
use gimme_idea::set_winners;

const ENDS_AT: i64 = 1000;

fn sponsor() -> Identity {
    Identity { key: 1 }
}

fn mint() -> Identity {
    Identity { key: 2 }
}

fn winner_a() -> Identity {
    Identity { key: 10 }
}

fn winner_b() -> Identity {
    Identity { key: 11 }
}

fn create(total_amount: u64, distribution: Vec<u8>) -> Result<PrizePool, ErrorCode> {
    create_pool::handler(
        sponsor(),
        String::from("post-1"),
        mint(),
        total_amount,
        distribution,
        ENDS_AT,
        0,
        255,
    )
}

fn create_err(total_amount: u64, distribution: Vec<u8>) -> ErrorCode {
    match create(total_amount, distribution) {
        Ok(_) => panic!("creation unexpectedly succeeded"),
        Err(e) => e,
    }
}

fn distributed_pool(total_amount: u64, distribution: Vec<u8>, winners: Vec<Identity>) -> PrizePool {
    let mut pool = create(total_amount, distribution).unwrap();
    set_winners::handler(&mut pool, sponsor(), winners, ENDS_AT).unwrap();
    pool
}

#[test]
fn create_accepts_valid_distributions() {
    let valid: Vec<Vec<u8>> = vec![
        vec![100],
        vec![50, 50],
        vec![60, 40],
        vec![34, 33, 33],
        vec![1, 99],
        vec![10, 10, 10, 10, 10, 10, 10, 10, 10, 10],
    ];
    for dist in valid {
        let pool = create(1_000_000, dist.clone()).unwrap();
        assert_eq!(pool.owner, sponsor());
        assert_eq!(pool.total_amount, 1_000_000);
        assert_eq!(pool.winners_count as usize, dist.len());
        assert_eq!(pool.distribution, dist);
        assert!(pool.winners.is_empty());
        assert!(pool.claimed.is_empty());
        assert_eq!(pool.total_claimed, 0);
        assert_eq!(pool.ends_at, ENDS_AT);
        assert!(!pool.distributed);
        assert_eq!(pool.bump, 255);
    }
}

#[test]
fn create_rejects_wrong_sums() {
    assert_eq!(create_err(1000, vec![50, 49]), ErrorCode::DistributionNotHundred);
    assert_eq!(create_err(1000, vec![50, 51]), ErrorCode::DistributionNotHundred);
    assert_eq!(create_err(1000, vec![99]), ErrorCode::DistributionNotHundred);
    assert_eq!(create_err(1000, vec![200, 100]), ErrorCode::DistributionNotHundred);
}

#[test]
fn create_rejects_zero_entries() {
    assert_eq!(create_err(1000, vec![0, 100]), ErrorCode::InvalidDistribution);
    assert_eq!(create_err(1000, vec![100, 0]), ErrorCode::InvalidDistribution);
}

#[test]
fn create_rejects_bad_winner_counts() {
    assert_eq!(create_err(1000, vec![]), ErrorCode::InvalidWinnersCount);
    assert_eq!(
        create_err(1000, vec![10, 9, 9, 9, 9, 9, 9, 9, 9, 9, 9]),
        ErrorCode::InvalidWinnersCount
    );
}

#[test]
fn create_rejects_long_post_id() {
    let long_id: String = "x".repeat(65);
    let r = create_pool::handler(
        sponsor(),
        long_id,
        mint(),
        1000,
        vec![100],
        ENDS_AT,
        0,
        255,
    );
    assert!(matches!(r, Err(ErrorCode::PostIdTooLong)));
    let just_fits: String = "x".repeat(64);
    let r = create_pool::handler(
        sponsor(),
        just_fits,
        mint(),
        1000,
        vec![100],
        ENDS_AT,
        0,
        255,
    );
    assert!(r.is_ok());
}

#[test]
fn create_rejects_zero_amount() {
    assert_eq!(create_err(0, vec![100]), ErrorCode::InsufficientFunds);
}

#[test]
fn create_rejects_non_future_end() {
    let r = create_pool::handler(
        sponsor(),
        String::from("post-1"),
        mint(),
        1000,
        vec![100],
        ENDS_AT,
        ENDS_AT,
        255,
    );
    assert!(matches!(r, Err(ErrorCode::PoolEnded)));
}

#[test]
fn set_winners_requires_owner() {
    let mut pool = create(1000, vec![100]).unwrap();
    let r = set_winners::handler(&mut pool, winner_a(), vec![winner_a()], ENDS_AT);
    assert_eq!(r, Err(ErrorCode::Unauthorized));
    assert!(!pool.distributed);
}

#[test]
fn set_winners_before_end_fails() {
    let mut pool = create(1000, vec![100]).unwrap();
    let r = set_winners::handler(&mut pool, sponsor(), vec![winner_a()], ENDS_AT - 1);
    assert_eq!(r, Err(ErrorCode::PoolNotEnded));
    assert!(!pool.distributed);
}

#[test]
fn set_winners_at_exact_end_succeeds() {
    let mut pool = create(1000, vec![100]).unwrap();
    let r = set_winners::handler(&mut pool, sponsor(), vec![winner_a()], ENDS_AT);
    assert_eq!(r, Ok(()));
    assert!(pool.distributed);
    assert_eq!(pool.winners, vec![winner_a()]);
    assert_eq!(pool.claimed, vec![false]);
}

#[test]
fn set_winners_rejects_wrong_length() {
    let mut pool = create(1000, vec![60, 40]).unwrap();
    let r = set_winners::handler(&mut pool, sponsor(), vec![winner_a()], ENDS_AT);
    assert_eq!(r, Err(ErrorCode::WinnersLengthMismatch));
}

#[test]
fn set_winners_rejects_null_identity() {
    let mut pool = create(1000, vec![60, 40]).unwrap();
    let r = set_winners::handler(
        &mut pool,
        sponsor(),
        vec![winner_a(), Identity { key: 0 }],
        ENDS_AT,
    );
    assert_eq!(r, Err(ErrorCode::InvalidWinner));
    assert!(!pool.distributed);
}

#[test]
fn claim_before_winners_set_fails() {
    let mut pool = create(1000, vec![100]).unwrap();
    let r = claim_prize::handler(&mut pool, winner_a(), 1000);
    assert_eq!(r, Err(ErrorCode::WinnersNotSet));
}

#[test]
fn claim_by_non_winner_fails() {
    let mut pool = distributed_pool(1000, vec![100], vec![winner_a()]);
    let r = claim_prize::handler(&mut pool, winner_b(), 1000);
    assert_eq!(r, Err(ErrorCode::InvalidWinner));
}

#[test]
fn claim_with_short_escrow_fails() {
    let mut pool = distributed_pool(1000, vec![100], vec![winner_a()]);
    let r = claim_prize::handler(&mut pool, winner_a(), 999);
    assert_eq!(r, Err(ErrorCode::InsufficientFunds));
    assert_eq!(pool.claimed, vec![false]);
    assert_eq!(pool.total_claimed, 0);
}

#[test]
fn claim_twice_pays_once() {
    let mut pool = distributed_pool(1_000_000, vec![60, 40], vec![winner_a(), winner_b()]);
    let first = claim_prize::handler(&mut pool, winner_a(), 1_000_000);
    assert_eq!(first, Ok(600_000));
    assert_eq!(pool.total_claimed, 600_000);
    let second = claim_prize::handler(&mut pool, winner_a(), 1_000_000);
    assert_eq!(second, Err(ErrorCode::AlreadyClaimed));
    assert_eq!(pool.total_claimed, 600_000);
    assert_eq!(pool.claimed, vec![true, false]);
}

#[test]
fn duplicate_winner_claims_only_first_rank() {
    let mut pool = distributed_pool(1000, vec![60, 40], vec![winner_a(), winner_a()]);
    let first = claim_prize::handler(&mut pool, winner_a(), 1000);
    assert_eq!(first, Ok(600));
    assert_eq!(pool.claimed, vec![true, false]);
    let second = claim_prize::handler(&mut pool, winner_a(), 400);
    assert_eq!(second, Err(ErrorCode::AlreadyClaimed));
    assert_eq!(pool.claimed, vec![true, false]);
}

#[test]
fn claim_overflow_is_reported() {
    let mut pool = distributed_pool(u64::MAX, vec![100], vec![winner_a()]);
    let r = claim_prize::handler(&mut pool, winner_a(), u64::MAX);
    assert_eq!(r, Err(ErrorCode::MathOverflow));
    assert_eq!(pool.total_claimed, 0);
    assert_eq!(pool.claimed, vec![false]);
}

#[test]
fn emergency_withdraw_requires_owner() {
    let pool = create(1000, vec![100]).unwrap();
    let r = emergency_withdraw::handler(&pool, winner_a(), 1000);
    assert_eq!(r, Err(ErrorCode::Unauthorized));
}

#[test]
fn emergency_withdraw_before_winners_set_succeeds() {
    let pool = create(1000, vec![100]).unwrap();
    let r = emergency_withdraw::handler(&pool, sponsor(), 1000);
    assert_eq!(r, Ok(1000));
}

#[test]
fn emergency_withdraw_mid_distribution_fails() {
    let mut pool = distributed_pool(1_000_000, vec![60, 40], vec![winner_a(), winner_b()]);
    let r = emergency_withdraw::handler(&pool, sponsor(), 1_000_000);
    assert_eq!(r, Err(ErrorCode::AlreadyDistributed));
    claim_prize::handler(&mut pool, winner_a(), 1_000_000).unwrap();
    let r = emergency_withdraw::handler(&pool, sponsor(), 400_000);
    assert_eq!(r, Err(ErrorCode::AlreadyDistributed));
}

#[test]
fn emergency_withdraw_after_all_claims_succeeds() {
    let mut pool = distributed_pool(1_000_000, vec![60, 40], vec![winner_a(), winner_b()]);
    claim_prize::handler(&mut pool, winner_a(), 1_000_000).unwrap();
    claim_prize::handler(&mut pool, winner_b(), 400_000).unwrap();
    let r = emergency_withdraw::handler(&pool, sponsor(), 0);
    assert_eq!(r, Ok(0));
}

#[test]
fn end_to_end_scenario() {
    let now: i64 = 0;
    let ends_at: i64 = now + 3600;
    let mut pool = create_pool::handler(
        sponsor(),
        String::from("post-1"),
        mint(),
        1_000_000,
        vec![60, 40],
        ends_at,
        now,
        255,
    )
    .unwrap();
    let mut escrow: u64 = 1_000_000;

    // claiming immediately fails: winners are not set
    assert_eq!(
        claim_prize::handler(&mut pool, winner_a(), escrow),
        Err(ErrorCode::WinnersNotSet)
    );

    // after the close time the owner sets the winners
    let r = set_winners::handler(
        &mut pool,
        sponsor(),
        vec![winner_a(), winner_b()],
        ends_at,
    );
    assert_eq!(r, Ok(()));
    assert_eq!(pool.claimed, vec![false, false]);

    // first winner claims 600,000
    let prize = claim_prize::handler(&mut pool, winner_a(), escrow).unwrap();
    assert_eq!(prize, 600_000);
    escrow -= prize;
    assert_eq!(pool.claimed, vec![true, false]);
    assert_eq!(pool.total_claimed, 600_000);

    // claiming again fails
    assert_eq!(
        claim_prize::handler(&mut pool, winner_a(), escrow),
        Err(ErrorCode::AlreadyClaimed)
    );

    // the owner cannot withdraw while the second prize is pending
    assert_eq!(
        emergency_withdraw::handler(&pool, sponsor(), escrow),
        Err(ErrorCode::AlreadyDistributed)
    );

    // second winner claims 400,000
    let prize = claim_prize::handler(&mut pool, winner_b(), escrow).unwrap();
    assert_eq!(prize, 400_000);
    escrow -= prize;
    assert_eq!(pool.total_claimed, 1_000_000);

    // now the owner may close the pool; the remainder is zero
    assert_eq!(emergency_withdraw::handler(&pool, sponsor(), escrow), Ok(0));
}

#[test]
fn pool_queries_reflect_state() {
    let mut pool = create(1000, vec![60, 40]).unwrap();
    assert!(!pool.has_ended(ENDS_AT - 1));
    assert!(pool.has_ended(ENDS_AT));
    assert!(pool.has_ended(ENDS_AT + 1));
    assert!(!pool.all_winners_set());
    assert!(pool.all_claimed());
    assert!(!pool.has_claimed(0));
    assert!(!pool.has_claimed(5));
    set_winners::handler(&mut pool, sponsor(), vec![winner_a(), winner_b()], ENDS_AT).unwrap();
    assert!(pool.all_winners_set());
    assert!(!pool.all_claimed());
    claim_prize::handler(&mut pool, winner_a(), 1000).unwrap();
    assert!(pool.has_claimed(0));
    assert!(!pool.has_claimed(1));
    claim_prize::handler(&mut pool, winner_b(), 400).unwrap();
    assert!(pool.all_claimed());
    assert_eq!(ErrorCode::AlreadyClaimed.message(), "Prize already claimed");
}
