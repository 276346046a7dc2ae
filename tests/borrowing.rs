use fall::{
    borrow, calculate_interest, deposit_collateral, liquidate, repay, BorrowPosition, FallError, LendingReserves,
    LiquidateOutcome, Pool, RepayOutcome,
};

fn reserves_with(token_a: u64, token_b: u64, borrowed: u64) -> LendingReserves {
    LendingReserves {
        token_a,
        token_b,
        lending_receipt_supply: token_a + borrowed,
        borrow_receipt_supply: borrowed,
        collateral_receipt_supply: 0,
    }
}

fn balanced_pool(a: u64, b: u64) -> Pool {
    let mut p = Pool::new();
    p.token_a_amount = a;
    p.token_b_amount = b;
    p
}

#[test]
fn borrow_refuses_thin_collateral() {
    let mut pool = balanced_pool(1000, 1000);
    let mut position = BorrowPosition { borrowed: 0, collateral: 99, block_height: 0 };
    assert_eq!(
        borrow(&mut pool, &reserves_with(500, 0, 0), &mut position, 100, 10),
        Err(FallError::InsufficientCollateral)
    );
    assert_eq!(position.borrowed, 0);
}

#[test]
fn borrow_opens_loan_against_collateral() {
    let mut pool = balanced_pool(1000, 1000);
    let mut position = BorrowPosition { borrowed: 0, collateral: 100, block_height: 0 };
    assert_eq!(borrow(&mut pool, &reserves_with(500, 0, 0), &mut position, 100, 10), Ok(()));
    assert_eq!(position, BorrowPosition { borrowed: 100, collateral: 100, block_height: 10 });
    assert_eq!(pool.borrow_interest_accumulator_block_height, 10);
}

#[test]
fn borrow_values_collateral_at_reserve_ratio() {
    let mut pool = balanced_pool(2000, 1000);
    let mut position = BorrowPosition { borrowed: 0, collateral: 60, block_height: 0 };
    assert_eq!(borrow(&mut pool, &reserves_with(500, 0, 0), &mut position, 100, 10), Ok(()));
    let mut thin = BorrowPosition { borrowed: 0, collateral: 49, block_height: 0 };
    assert_eq!(
        borrow(&mut pool, &reserves_with(500, 0, 0), &mut thin, 100, 10),
        Err(FallError::InsufficientCollateral)
    );
}

#[test]
fn borrow_advances_interest_over_earlier_loans() {
    let mut pool = balanced_pool(100000, 100000);
    let mut position = BorrowPosition { borrowed: 0, collateral: 1000, block_height: 0 };
    assert_eq!(borrow(&mut pool, &reserves_with(50000, 0, 10000), &mut position, 1000, 200), Ok(()));
    assert_eq!(pool.borrow_interest_accumulator, 1000);
}

#[test]
fn borrow_refusals() {
    let mut pool = balanced_pool(1000, 1000);
    let mut position = BorrowPosition { borrowed: 0, collateral: 1000, block_height: 0 };
    assert_eq!(
        borrow(&mut pool, &reserves_with(50, 0, 0), &mut position, 100, 10),
        Err(FallError::InsufficientLiquidity)
    );
    let mut small_pool = balanced_pool(50, 50);
    assert_eq!(
        borrow(&mut small_pool, &reserves_with(500, 0, 0), &mut position, 100, 10),
        Err(FallError::InsufficientLiquidity)
    );
    let mut open = BorrowPosition { borrowed: 5, collateral: 1000, block_height: 0 };
    assert_eq!(
        borrow(&mut pool, &reserves_with(500, 0, 0), &mut open, 100, 10),
        Err(FallError::ExistingBorrow)
    );
    let mut no_b = balanced_pool(1000, 0);
    assert_eq!(
        borrow(&mut no_b, &reserves_with(500, 0, 0), &mut position, 100, 10),
        Err(FallError::CalculationError)
    );
    pool.borrow_interest_accumulator_block_height = 20;
    assert_eq!(
        borrow(&mut pool, &reserves_with(500, 0, 0), &mut position, 100, 10),
        Err(FallError::ArithmeticOverflow)
    );
}

#[test]
fn collateral_deposits_add_up() {
    let mut position = BorrowPosition { borrowed: 0, collateral: 0, block_height: 0 };
    assert_eq!(deposit_collateral(&mut position, 1000, 500), Ok(()));
    assert_eq!(deposit_collateral(&mut position, 1000, 200), Ok(()));
    assert_eq!(position.collateral, 700);
    assert_eq!(deposit_collateral(&mut position, 100, 200), Err(FallError::InsufficientBalance));
    position.collateral = u64::MAX;
    assert_eq!(deposit_collateral(&mut position, 1000, 1), Err(FallError::MathOverflow));
}

#[test]
fn interest_owed_by_rate_and_blocks() {
    assert_eq!(calculate_interest(100, 10000, 300), Ok(1000));
    assert_eq!(calculate_interest(100, 1999, 101), Ok(0));
    assert_eq!(calculate_interest(300, 1, 100), Err(FallError::CalculationError));
    assert_eq!(calculate_interest(0, u64::MAX, u64::MAX), Err(FallError::CalculationError));
}

#[test]
fn repay_returns_collateral_net_of_interest() {
    let mut pool = balanced_pool(1000, 2000);
    pool.borrow_interest_accumulator_block_height = 100;
    let mut position = BorrowPosition { borrowed: 10000, collateral: 30000, block_height: 100 };
    let o = repay(&mut pool, &reserves_with(0, 50000, 10000), &mut position, 300).unwrap();
    assert_eq!(o, RepayOutcome { repaid_a: 10000, collateral_returned_b: 28000 });
    assert_eq!(position, BorrowPosition { borrowed: 0, collateral: 0, block_height: 0 });
    assert_eq!(pool.borrow_interest_accumulator, 1000);
}

#[test]
fn repay_keeps_collateral_the_pool_cannot_pay() {
    let mut pool = balanced_pool(1000, 2000);
    let mut position = BorrowPosition { borrowed: 10000, collateral: 30000, block_height: 100 };
    let o = repay(&mut pool, &reserves_with(0, 1000, 10000), &mut position, 300).unwrap();
    assert_eq!(o.collateral_returned_b, 0);
    let mut costly = BorrowPosition { borrowed: 10000, collateral: 2000, block_height: 100 };
    let o2 = repay(&mut pool, &reserves_with(0, 50000, 10000), &mut costly, 300).unwrap();
    assert_eq!(o2, RepayOutcome { repaid_a: 10000, collateral_returned_b: 0 });
}

#[test]
fn repay_refuses_clock_regression() {
    let mut pool = balanced_pool(1000, 2000);
    let mut position = BorrowPosition { borrowed: 10000, collateral: 30000, block_height: 400 };
    assert_eq!(
        repay(&mut pool, &reserves_with(0, 50000, 10000), &mut position, 300),
        Err(FallError::CalculationError)
    );
    assert_eq!(position.borrowed, 10000);
}

#[test]
fn liquidation_of_undercollateralized_loan() {
    let mut pool = balanced_pool(1000, 1000);
    let mut position = BorrowPosition { borrowed: 1000, collateral: 990, block_height: 0 };
    let o = liquidate(&mut pool, &reserves_with(0, 990, 1000), &mut position, 5).unwrap();
    assert_eq!(o, LiquidateOutcome { reward_b: 9 });
    assert_eq!(position, BorrowPosition { borrowed: 0, collateral: 0, block_height: 0 });
    assert_eq!(pool.borrow_interest_accumulator_block_height, 5);
}

#[test]
fn liquidation_of_healthy_loan_is_refused() {
    let mut pool = balanced_pool(1000, 1000);
    let mut position = BorrowPosition { borrowed: 1000, collateral: 1000, block_height: 0 };
    assert_eq!(
        liquidate(&mut pool, &reserves_with(0, 1000, 1000), &mut position, 5),
        Err(FallError::HealthyPosition)
    );
    assert_eq!(position.collateral, 1000);
}
