use fall::{interest_payout, lend, redeem, redeem_principal, FallError, LendingPosition, LendingReserves, Pool, RedeemOutcome};

fn empty_reserves() -> LendingReserves {
    LendingReserves {
        token_a: 0,
        token_b: 0,
        lending_receipt_supply: 0,
        borrow_receipt_supply: 0,
        collateral_receipt_supply: 0,
    }
}

fn no_position() -> LendingPosition {
    LendingPosition { amount: 0, block_height: 0 }
}

#[test]
fn lend_then_redeem_in_same_block_pays_no_interest() {
    let mut pool = Pool::new();
    pool.borrow_interest_accumulator = 400;
    let mut position = no_position();
    assert_eq!(lend(&mut pool, &empty_reserves(), &mut position, 5000, 1000, 100), Ok(()));
    assert_eq!(position, LendingPosition { amount: 1000, block_height: 100 });
    let after = LendingReserves { token_a: 1000, lending_receipt_supply: 1000, ..empty_reserves() };
    let r = redeem(&mut pool, &after, &mut position, 100);
    assert_eq!(r, Ok(RedeemOutcome { interest_b: 0, principal_a: 1000, principal_b: 0 }));
    assert_eq!(position, no_position());
}

#[test]
fn lend_then_redeem_returns_principal() {
    let mut pool = Pool::new();
    let mut position = no_position();
    let before = LendingReserves { token_a: 700, lending_receipt_supply: 700, ..empty_reserves() };
    assert_eq!(lend(&mut pool, &before, &mut position, 1000, 1000, 100), Ok(()));
    assert_eq!(pool.share_lending_accumulator, 70000);
    let after = LendingReserves { token_a: 1700, lending_receipt_supply: 1700, ..before };
    let o = redeem(&mut pool, &after, &mut position, 150).unwrap();
    assert_eq!(o, RedeemOutcome { interest_b: 0, principal_a: 1000, principal_b: 0 });
    assert_eq!(pool.share_lending_accumulator, 70000 + 85000 - 50000);
    assert_eq!(pool.share_lending_block_height, 150);
}

#[test]
fn redeem_pays_share_of_borrow_interest() {
    let mut pool = Pool::new();
    pool.borrow_interest_accumulator = 400;
    pool.share_lending_block_height = 100;
    let mut position = LendingPosition { amount: 1000, block_height: 100 };
    let reserves = LendingReserves { token_a: 1000, token_b: 1000, lending_receipt_supply: 1000, ..empty_reserves() };
    let o = redeem(&mut pool, &reserves, &mut position, 150).unwrap();
    assert_eq!(o, RedeemOutcome { interest_b: 400, principal_a: 1000, principal_b: 0 });
    assert_eq!(pool.share_lending_accumulator, 0);
}

#[test]
fn redeem_skips_interest_the_pool_cannot_pay() {
    let mut pool = Pool::new();
    pool.borrow_interest_accumulator = 400;
    let mut position = LendingPosition { amount: 1000, block_height: 0 };
    let reserves = LendingReserves { token_a: 1000, token_b: 300, lending_receipt_supply: 1000, ..empty_reserves() };
    let o = redeem(&mut pool, &reserves, &mut position, 50).unwrap();
    assert_eq!(o.interest_b, 0);
    assert_eq!(o.principal_a, 1000);
}

#[test]
fn redeem_refuses_clock_regression() {
    let mut pool = Pool::new();
    let mut position = LendingPosition { amount: 1000, block_height: 200 };
    let reserves = LendingReserves { token_a: 1000, lending_receipt_supply: 1000, ..empty_reserves() };
    assert_eq!(redeem(&mut pool, &reserves, &mut position, 100), Err(FallError::ArithmeticOverflow));
    assert_eq!(position, LendingPosition { amount: 1000, block_height: 200 });
    assert_eq!(pool, Pool::new());
}

#[test]
fn redeem_falls_back_to_liquidated_collateral() {
    let mut pool = Pool::new();
    let mut position = LendingPosition { amount: 1000, block_height: 0 };
    let reserves = LendingReserves {
        token_a: 500,
        token_b: 1000,
        lending_receipt_supply: 2000,
        borrow_receipt_supply: 1000,
        collateral_receipt_supply: 200,
    };
    let o = redeem(&mut pool, &reserves, &mut position, 0).unwrap();
    assert_eq!(o, RedeemOutcome { interest_b: 0, principal_a: 500, principal_b: 800 });
}

#[test]
fn waterfall_shares_pro_rata() {
    assert_eq!(redeem_principal(1000, 1000, 0, 1000, 0, 0), Ok((1000, 0)));
    assert_eq!(redeem_principal(1000, 500, 1000, 2000, 1000, 200), Ok((500, 800)));
    assert_eq!(redeem_principal(1000, 600, 1000, 3000, 1000, 200), Ok((600, 228)));
}

#[test]
fn waterfall_refuses_inconsistent_accounts() {
    assert_eq!(redeem_principal(1000, 100, 1000, 1500, 1000, 0), Err(FallError::CalculationError));
    assert_eq!(redeem_principal(1000, 100, 1000, 500, 1000, 0), Err(FallError::CalculationError));
    assert_eq!(redeem_principal(1000, 500, 100, 2000, 1000, 200), Err(FallError::CalculationError));
}

#[test]
fn lend_refuses_open_position_and_short_balance() {
    let mut pool = Pool::new();
    let mut open = LendingPosition { amount: 5, block_height: 1 };
    assert_eq!(lend(&mut pool, &empty_reserves(), &mut open, 100, 10, 2), Err(FallError::ExistingLending));
    let mut position = no_position();
    assert_eq!(lend(&mut pool, &empty_reserves(), &mut position, 10, 20, 2), Err(FallError::InsufficientBalance));
    assert_eq!(position, no_position());
    pool.share_lending_block_height = 50;
    assert_eq!(lend(&mut pool, &empty_reserves(), &mut position, 100, 20, 2), Err(FallError::ArithmeticOverflow));
}

#[test]
fn interest_share_of_accumulator() {
    assert_eq!(interest_payout(50000, 400, 50000, 1000), 400);
    assert_eq!(interest_payout(25000, 400, 50000, 1000), 200);
    assert_eq!(interest_payout(50000, 400, 50000, 300), 0);
    assert_eq!(interest_payout(50000, 400, 0, 1000), 0);
}
