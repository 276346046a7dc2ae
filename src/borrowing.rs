use vstd::prelude::*;
use crate::constants::{BASE_INTEREST_RATE, LIQUIDATION_REWARD_DIVISOR, PERCENT_BASE};
use crate::errors::FallError;
use crate::lending::LendingReserves;
use crate::math::lemma_mul_u64_fits_u128;
use crate::state::Pool;

verus! {

/// A borrower's position: principal borrowed (first asset), collateral posted
/// (second asset) and the block height from which interest runs. A
/// `borrowed` of zero means no open loan.
#[derive(Debug, Clone, Copy, PartialEq, Eq, Structural)]
pub struct BorrowPosition {
    pub borrowed: u64,
    pub collateral: u64,
    pub block_height: u64,
}

/// What a repayment moves.
#[derive(Debug, Clone, Copy, PartialEq, Eq, Structural)]
pub struct RepayOutcome {
    /// Principal paid back, in the first asset.
    pub repaid_a: u64,
    /// Collateral returned net of interest, in the second asset.
    pub collateral_returned_b: u64,
}

/// What a liquidation moves.
#[derive(Debug, Clone, Copy, PartialEq, Eq, Structural)]
pub struct LiquidateOutcome {
    /// Reward paid to the liquidator, in the second asset.
    pub reward_b: u64,
}

/// An empty position.
pub open spec fn closed_position() -> BorrowPosition {
    BorrowPosition { borrowed: 0, collateral: 0, block_height: 0 }
}

/// Interest due on `borrowed` from height `h0` to `h`:
/// `blocks * borrowed * BASE_INTEREST_RATE / PERCENT_BASE`.
pub open spec fn interest_due(h0: u64, borrowed: u64, h: u64) -> Result<u64, FallError> {
    let due = (h - h0) * borrowed * BASE_INTEREST_RATE / PERCENT_BASE as int;
    if h < h0 || due > u64::MAX {
        Err(FallError::CalculationError)
    } else {
        Ok(due as u64)
    }
}

/// Outcome of `deposit_collateral`.
pub open spec fn deposit_collateral_result(position: BorrowPosition, borrower_balance_b: u64, amount: u64) -> Result<BorrowPosition, FallError> {
    if borrower_balance_b < amount {
        Err(FallError::InsufficientBalance)
    } else if position.collateral + amount > u64::MAX {
        Err(FallError::MathOverflow)
    } else {
        Ok(BorrowPosition { collateral: (position.collateral + amount) as u64, ..position })
    }
}

/// Outcome of `borrow`: the pool with its borrow-interest accumulator
/// advanced over the principal borrowed before, and the position.
pub open spec fn borrow_result(
    pool: Pool,
    reserves: LendingReserves,
    position: BorrowPosition,
    borrow_amount: u64,
    h: u64,
) -> Result<(Pool, BorrowPosition), FallError> {
    match pool.token_b_value(position.collateral) {
        Err(e) => Err(e),
        Ok(value) => if !Pool::collateral_covers(value, borrow_amount) {
            Err(FallError::InsufficientCollateral)
        } else if position.borrowed != 0 {
            Err(FallError::ExistingBorrow)
        } else if borrow_amount > reserves.token_a || borrow_amount > pool.token_a_amount {
            Err(FallError::InsufficientLiquidity)
        } else {
            match pool.with_borrow_interest(reserves.borrow_receipt_supply, h) {
                Err(e) => Err(e),
                Ok(p) => Ok((p, BorrowPosition { borrowed: borrow_amount, collateral: position.collateral, block_height: h })),
            }
        },
    }
}

/// Outcome of `repay`: the pool with its borrow-interest accumulator
/// advanced, and the collateral returned, which is what exceeds the interest
/// valued in the second asset, when the pool holds that much.
pub open spec fn repay_result(
    pool: Pool,
    reserves: LendingReserves,
    position: BorrowPosition,
    h: u64,
) -> Result<(Pool, RepayOutcome), FallError> {
    match pool.with_borrow_interest(reserves.borrow_receipt_supply, h) {
        Err(e) => Err(e),
        Ok(p) => match interest_due(position.block_height, position.borrowed, h) {
            Err(e) => Err(e),
            Ok(interest_a) => match p.token_a_value(interest_a) {
                Err(e) => Err(e),
                Ok(interest_b) => {
                    let returned = if position.collateral > interest_b && reserves.token_b >= position.collateral - interest_b {
                        (position.collateral - interest_b) as u64
                    } else {
                        0
                    };
                    Ok((p, RepayOutcome { repaid_a: position.borrowed, collateral_returned_b: returned }))
                },
            },
        },
    }
}

/// Outcome of `liquidate`: allowed only on a position whose collateral is
/// worth less than its principal.
pub open spec fn liquidate_result(
    pool: Pool,
    reserves: LendingReserves,
    position: BorrowPosition,
    h: u64,
) -> Result<(Pool, LiquidateOutcome), FallError> {
    match pool.token_b_value(position.collateral) {
        Err(e) => Err(e),
        Ok(value) => if value >= position.borrowed {
            Err(FallError::HealthyPosition)
        } else {
            match pool.with_borrow_interest(reserves.borrow_receipt_supply, h) {
                Err(e) => Err(e),
                Ok(p) => Ok((p, LiquidateOutcome { reward_b: position.collateral / LIQUIDATION_REWARD_DIVISOR })),
            }
        },
    }
}

/// Posts `amount` more of the second asset as collateral.
pub fn deposit_collateral(position: &mut BorrowPosition, borrower_balance_b: u64, amount: u64) -> (r: Result<(), FallError>)
    ensures
        match r {
            Ok(_) => deposit_collateral_result(*old(position), borrower_balance_b, amount)
                == Ok::<BorrowPosition, FallError>(*final(position)),
            Err(e) => deposit_collateral_result(*old(position), borrower_balance_b, amount)
                == Err::<BorrowPosition, FallError>(e) && *final(position) == *old(position),
        },
{
    if borrower_balance_b < amount {
        return Err(FallError::InsufficientBalance);
    }
    match position.collateral.checked_add(amount) {
        Some(v) => {
            position.collateral = v;
            Ok(())
        },
        None => Err(FallError::MathOverflow),
    }
}

/// Opens a loan of `borrow_amount` of the first asset against the
/// position's collateral, valued at the recorded reserve ratio, and advances
/// the borrow-interest accumulator over the principal borrowed before.
/// Moving the loan and minting the receipts is the ledger's part.
pub fn borrow(
    pool: &mut Pool,
    reserves: &LendingReserves,
    position: &mut BorrowPosition,
    borrow_amount: u64,
    current_block_height: u64,
) -> (r: Result<(), FallError>)
    ensures
        match r {
            Ok(_) => borrow_result(*old(pool), *reserves, *old(position), borrow_amount, current_block_height)
                == Ok::<(Pool, BorrowPosition), FallError>((*final(pool), *final(position))),
            Err(e) => borrow_result(*old(pool), *reserves, *old(position), borrow_amount, current_block_height)
                == Err::<(Pool, BorrowPosition), FallError>(e)
                && *final(pool) == *old(pool) && *final(position) == *old(position),
        },
        old(pool).token_b_value(old(position).collateral) matches Ok(value)
            && value * PERCENT_BASE < borrow_amount * crate::constants::MIN_COLLATERAL_RATIO
            ==> r == Err::<(), FallError>(FallError::InsufficientCollateral),
{
    let value = match pool.calculate_token_b_value(position.collateral) {
        Ok(v) => v,
        Err(e) => return Err(e),
    };
    if !pool.check_collateral_ratio(value, borrow_amount) {
        return Err(FallError::InsufficientCollateral);
    }
    if position.borrowed != 0 {
        return Err(FallError::ExistingBorrow);
    }
    if borrow_amount > reserves.token_a || borrow_amount > pool.token_a_amount {
        return Err(FallError::InsufficientLiquidity);
    }
    match pool.update_borrow_interest_accumulator(reserves.borrow_receipt_supply, current_block_height) {
        Ok(_) => {},
        Err(e) => return Err(e),
    }
    *position = BorrowPosition { borrowed: borrow_amount, collateral: position.collateral, block_height: current_block_height };
    Ok(())
}

/// Interest due on `borrowed_amount` from `record_block_height` to
/// `current_block_height`: `blocks * borrowed * BASE_INTEREST_RATE /
/// PERCENT_BASE`, refused when the height went backwards or the result does
/// not fit in a `u64`.
pub fn calculate_interest(record_block_height: u64, borrowed_amount: u64, current_block_height: u64) -> (r: Result<u64, FallError>)
    ensures
        r == interest_due(record_block_height, borrowed_amount, current_block_height),
{
    if current_block_height < record_block_height {
        return Err(FallError::CalculationError);
    }
    let blocks: u64 = current_block_height - record_block_height;
    proof {
        lemma_mul_u64_fits_u128(blocks, borrowed_amount);
    }
    let weighted: u128 = (blocks as u128) * (borrowed_amount as u128);
    let scaled: u128 = match weighted.checked_mul(BASE_INTEREST_RATE as u128) {
        Some(v) => v,
        None => return Err(FallError::CalculationError),
    };
    let due: u128 = scaled / (PERCENT_BASE as u128);
    if due > u64::MAX as u128 {
        return Err(FallError::CalculationError);
    }
    Ok(due as u64)
}

/// Closes a loan: advances the borrow-interest accumulator, takes back the
/// principal and returns the collateral less the interest valued in the
/// second asset, when that is positive and the pool holds it. Moving the
/// amounts and burning the receipts is the ledger's part.
pub fn repay(
    pool: &mut Pool,
    reserves: &LendingReserves,
    position: &mut BorrowPosition,
    current_block_height: u64,
) -> (r: Result<RepayOutcome, FallError>)
    ensures
        match r {
            Ok(o) => repay_result(*old(pool), *reserves, *old(position), current_block_height)
                == Ok::<(Pool, RepayOutcome), FallError>((*final(pool), o))
                && *final(position) == closed_position(),
            Err(e) => repay_result(*old(pool), *reserves, *old(position), current_block_height)
                == Err::<(Pool, RepayOutcome), FallError>(e)
                && *final(pool) == *old(pool) && *final(position) == *old(position),
        },
{
    let mut updated = *pool;
    match updated.update_borrow_interest_accumulator(reserves.borrow_receipt_supply, current_block_height) {
        Ok(_) => {},
        Err(e) => return Err(e),
    }
    let interest_a = match calculate_interest(position.block_height, position.borrowed, current_block_height) {
        Ok(v) => v,
        Err(e) => return Err(e),
    };
    let interest_b = match updated.calculate_token_a_value(interest_a) {
        Ok(v) => v,
        Err(e) => return Err(e),
    };
    let returned: u64 = if position.collateral > interest_b && reserves.token_b >= position.collateral - interest_b {
        position.collateral - interest_b
    } else {
        0
    };
    let repaid_a = position.borrowed;
    *pool = updated;
    *position = BorrowPosition { borrowed: 0, collateral: 0, block_height: 0 };
    Ok(RepayOutcome { repaid_a, collateral_returned_b: returned })
}

/// Liquidates a position whose collateral, valued in the first asset, is
/// worth less than its principal: the liquidator receives one hundredth of
/// the collateral, the position is closed and the borrow-interest
/// accumulator advanced. Paying the reward and burning the receipts is the
/// ledger's part.
pub fn liquidate(
    pool: &mut Pool,
    reserves: &LendingReserves,
    position: &mut BorrowPosition,
    current_block_height: u64,
) -> (r: Result<LiquidateOutcome, FallError>)
    ensures
        match r {
            Ok(o) => liquidate_result(*old(pool), *reserves, *old(position), current_block_height)
                == Ok::<(Pool, LiquidateOutcome), FallError>((*final(pool), o))
                && *final(position) == closed_position(),
            Err(e) => liquidate_result(*old(pool), *reserves, *old(position), current_block_height)
                == Err::<(Pool, LiquidateOutcome), FallError>(e)
                && *final(pool) == *old(pool) && *final(position) == *old(position),
        },
{
    let value = match pool.calculate_token_b_value(position.collateral) {
        Ok(v) => v,
        Err(e) => return Err(e),
    };
    if value >= position.borrowed {
        return Err(FallError::HealthyPosition);
    }
    let reward_b = position.collateral / LIQUIDATION_REWARD_DIVISOR;
    match pool.update_borrow_interest_accumulator(reserves.borrow_receipt_supply, current_block_height) {
        Ok(_) => {},
        Err(e) => return Err(e),
    }
    *position = BorrowPosition { borrowed: 0, collateral: 0, block_height: 0 };
    Ok(LiquidateOutcome { reward_b })
}

} // verus!
