use gimme_idea::create_pool;
use gimme_idea::errors::ErrorCode;
use gimme_idea::identity::Identity;
use gimme_idea::prize_pool::PrizePool;

fn sponsor() -> Identity {
    Identity { key: 1 }
}

fn mint() -> Identity {
    Identity { key: 2 }
}

fn make_pool(total_amount: u64, distribution: Vec<u8>) -> PrizePool {
    match create_pool::handler(
        sponsor(),
        String::from("post-1"),
        mint(),
        total_amount,
        distribution,
        1000,
        0,
        255,
    ) {
        Ok(pool) => pool,
        Err(e) => panic!("pool creation failed: {:?}", e),
    }
}

#[test]
fn fifty_fifty_on_hundred_has_no_remainder() {
    let pool = make_pool(100, vec![50, 50]);
    assert_eq!(pool.calculate_prize(0), Ok(50));
    assert_eq!(pool.calculate_prize(1), Ok(50));
}

#[test]
fn uneven_split_on_hundred_has_no_remainder() {
    let pool = make_pool(100, vec![34, 33, 33]);
    assert_eq!(pool.calculate_prize(0), Ok(34));
    assert_eq!(pool.calculate_prize(1), Ok(33));
    assert_eq!(pool.calculate_prize(2), Ok(33));
}

#[test]
fn small_total_rounds_down_and_retains_remainder() {
    let pool = make_pool(10, vec![33, 33, 34]);
    let mut paid: u64 = 0;
    for rank in 0..3 {
        let prize = pool.calculate_prize(rank).unwrap();
        assert_eq!(prize, 3);
        paid += prize;
    }
    assert_eq!(paid, 9);
    assert!(paid <= pool.total_amount);
}

#[test]
fn payouts_never_exceed_total() {
    let cases: Vec<(u64, Vec<u8>)> = vec![
        (1, vec![100]),
        (7, vec![1, 99]),
        (999, vec![10, 20, 30, 40]),
        (1_000_000, vec![60, 40]),
        (123_456_789, vec![9, 9, 9, 9, 9, 9, 9, 9, 9, 19]),
    ];
    for (total, dist) in cases {
        let n = dist.len();
        let pool = make_pool(total, dist);
        let mut paid: u64 = 0;
        for rank in 0..n {
            paid += pool.calculate_prize(rank).unwrap();
        }
        assert!(paid <= total);
    }
}

#[test]
fn out_of_range_rank_is_invalid() {
    let pool = make_pool(100, vec![50, 50]);
    assert_eq!(pool.calculate_prize(2), Err(ErrorCode::InvalidRank));
    assert_eq!(pool.calculate_prize(usize::MAX), Err(ErrorCode::InvalidRank));
}

#[test]
fn huge_total_overflows_prize_computation() {
    let pool = make_pool(u64::MAX, vec![60, 40]);
    assert_eq!(pool.calculate_prize(0), Err(ErrorCode::MathOverflow));
    assert_eq!(pool.calculate_prize(1), Err(ErrorCode::MathOverflow));
}

#[test]
fn largest_safe_total_still_computes() {
    let total = u64::MAX / 100;
    let pool = make_pool(total, vec![50, 50]);
    assert_eq!(pool.calculate_prize(0), Ok(total * 50 / 100));
}
