use vstd::prelude::*;
use crate::errors::FallError;
use crate::math::{lemma_div_le, lemma_mul_u64_fits_u128};
use crate::state::{blocks_between, calculate_blocks_passed, Pool};

verus! {

/// A lender's open position: principal lent and the block height from which
/// its time weight counts. An amount of zero means no position.
#[derive(Debug, Clone, Copy, PartialEq, Eq, Structural)]
pub struct LendingPosition {
    pub amount: u64,
    pub block_height: u64,
}

/// What the ledger holds for a lending pool.
#[derive(Debug, Clone, Copy, PartialEq, Eq, Structural)]
pub struct LendingReserves {
    /// Unborrowed balance of the lent (first) asset.
    pub token_a: u64,
    /// Balance of the second asset: posted collateral, liquidated collateral
    /// and interest.
    pub token_b: u64,
    /// Total principal lent.
    pub lending_receipt_supply: u64,
    /// Total principal borrowed.
    pub borrow_receipt_supply: u64,
    /// Total collateral posted by open loans.
    pub collateral_receipt_supply: u64,
}

/// What a redemption pays the lender.
#[derive(Debug, Clone, Copy, PartialEq, Eq, Structural)]
pub struct RedeemOutcome {
    /// Interest, in the second asset.
    pub interest_b: u64,
    /// Principal paid in the lent asset.
    pub principal_a: u64,
    /// Principal shortfall paid out of liquidated collateral, in the second
    /// asset.
    pub principal_b: u64,
}

/// Outcome of `lend`: the pool with its share-lending accumulator advanced
/// over the supply lent before, and the new position.
pub open spec fn lend_result(
    pool: Pool,
    reserves: LendingReserves,
    position: LendingPosition,
    lender_balance: u64,
    amount: u64,
    current_block_height: u64,
) -> Result<(Pool, LendingPosition), FallError> {
    if position.amount != 0 {
        Err(FallError::ExistingLending)
    } else if lender_balance < amount {
        Err(FallError::InsufficientBalance)
    } else {
        match pool.with_share_lending(reserves.lending_receipt_supply, current_block_height) {
            Err(e) => Err(e),
            Ok(p) => Ok((p, LendingPosition { amount, block_height: current_block_height })),
        }
    }
}

/// Interest owed to a lender of time weight `weight` out of a pool time
/// weight `delta`, as a share of the borrow-interest accumulator `acc`, paid
/// only when the pool holds `available_b` enough of the second asset.
pub open spec fn interest_paid(weight: u64, acc: u64, delta: u64, available_b: u64) -> u64 {
    if delta == 0 {
        0
    } else {
        let owed = weight * acc / delta as int;
        if owed <= available_b {
            owed as u64
        } else {
            0
        }
    }
}

/// How a lender's principal `receipt` is paid: in the lent asset when the
/// pool holds enough of it; otherwise all that it holds, and for the
/// shortfall a share of the second asset above the posted collateral,
/// pro rata to the principal lost to liquidations.
pub open spec fn waterfall(
    receipt: u64,
    pool_a: u64,
    pool_b: u64,
    lending_supply: u64,
    borrow_supply: u64,
    collateral_supply: u64,
) -> Result<(u64, u64), FallError> {
    let liquidated = lending_supply - borrow_supply - pool_a;
    let remaining = receipt - pool_a;
    if pool_a >= receipt {
        Ok((receipt, 0))
    } else if liquidated < 0 || remaining > liquidated || pool_b < collateral_supply {
        Err(FallError::CalculationError)
    } else {
        Ok((pool_a, ((pool_b - collateral_supply) * remaining / liquidated) as u64))
    }
}

/// Outcome of `redeem` at height `h`: the pool with its share-lending
/// accumulator advanced and the lender's time weight taken out, and what is
/// paid.
pub open spec fn redeem_result(
    pool: Pool,
    reserves: LendingReserves,
    position: LendingPosition,
    h: u64,
) -> Result<(Pool, RedeemOutcome), FallError> {
    match blocks_between(position.block_height, h) {
        Err(e) => Err(e),
        Ok(blocks) => if blocks * position.amount > u64::MAX {
            Err(FallError::ArithmeticOverflow)
        } else {
            let weight = (blocks * position.amount) as u64;
            match pool.with_share_lending(reserves.lending_receipt_supply, h) {
                Err(e) => Err(e),
                Ok(p) => {
                    let delta = (p.share_lending_accumulator - pool.share_lending_accumulator) as u64;
                    let interest = interest_paid(weight, pool.borrow_interest_accumulator, delta, reserves.token_b);
                    match waterfall(
                        position.amount,
                        reserves.token_a,
                        (reserves.token_b - interest) as u64,
                        reserves.lending_receipt_supply,
                        reserves.borrow_receipt_supply,
                        reserves.collateral_receipt_supply,
                    ) {
                        Err(e) => Err(e),
                        Ok((principal_a, principal_b)) => Ok((
                            Pool {
                                share_lending_accumulator: if p.share_lending_accumulator >= weight {
                                    (p.share_lending_accumulator - weight) as u64
                                } else {
                                    0
                                },
                                ..p
                            },
                            RedeemOutcome { interest_b: interest, principal_a, principal_b },
                        )),
                    }
                },
            }
        },
    }
}

/// Opens a lending position of `amount` at `current_block_height`, first
/// advancing the share-lending accumulator over the supply lent before.
/// Moving the principal and minting the receipts is the ledger's part.
pub fn lend(
    pool: &mut Pool,
    reserves: &LendingReserves,
    position: &mut LendingPosition,
    lender_balance: u64,
    amount: u64,
    current_block_height: u64,
) -> (r: Result<(), FallError>)
    ensures
        match r {
            Ok(_) => lend_result(*old(pool), *reserves, *old(position), lender_balance, amount, current_block_height)
                == Ok::<(Pool, LendingPosition), FallError>((*final(pool), *final(position))),
            Err(e) => lend_result(*old(pool), *reserves, *old(position), lender_balance, amount, current_block_height)
                == Err::<(Pool, LendingPosition), FallError>(e)
                && *final(pool) == *old(pool) && *final(position) == *old(position),
        },
{
    if position.amount != 0 {
        return Err(FallError::ExistingLending);
    }
    if lender_balance < amount {
        return Err(FallError::InsufficientBalance);
    }
    match pool.get_updated_share_lending_accumulator(reserves.lending_receipt_supply, current_block_height) {
        Ok(_) => {},
        Err(e) => return Err(e),
    }
    *position = LendingPosition { amount, block_height: current_block_height };
    Ok(())
}

/// Interest owed to a lender: `lender_time_weight * borrow_interest_accumulator
/// / pool_time_weight_delta`, or nothing when the delta is zero or the pool
/// holds less than that of the second asset.
pub fn interest_payout(
    lender_time_weight: u64,
    borrow_interest_accumulator: u64,
    pool_time_weight_delta: u64,
    available_b: u64,
) -> (r: u64)
    ensures
        r == interest_paid(lender_time_weight, borrow_interest_accumulator, pool_time_weight_delta, available_b),
{
    if pool_time_weight_delta == 0 {
        return 0;
    }
    proof {
        lemma_mul_u64_fits_u128(lender_time_weight, borrow_interest_accumulator);
    }
    let owed: u128 = (lender_time_weight as u128) * (borrow_interest_accumulator as u128)
        / (pool_time_weight_delta as u128);
    if owed <= available_b as u128 {
        owed as u64
    } else {
        0
    }
}

/// Pays a lender's principal `lending_receipt_amount`: in the lent asset when
/// the pool's unborrowed balance covers it, otherwise that whole balance plus,
/// for the shortfall, `available * shortfall / liquidated` of the second
/// asset, where `available` is its balance above the posted collateral and
/// `liquidated = lending_supply - borrow_supply - pool_token_a`. Refused with
/// `CalculationError` when these do not add up.
pub fn redeem_principal(
    lending_receipt_amount: u64,
    pool_token_a: u64,
    pool_token_b: u64,
    lending_receipt_supply: u64,
    borrow_receipt_supply: u64,
    collateral_receipt_supply: u64,
) -> (r: Result<(u64, u64), FallError>)
    ensures
        r == waterfall(lending_receipt_amount, pool_token_a, pool_token_b, lending_receipt_supply,
            borrow_receipt_supply, collateral_receipt_supply),
{
    if pool_token_a >= lending_receipt_amount {
        return Ok((lending_receipt_amount, 0));
    }
    let liquidated: u64 = match lending_receipt_supply.checked_sub(borrow_receipt_supply) {
        Some(v) => match v.checked_sub(pool_token_a) {
            Some(w) => w,
            None => return Err(FallError::CalculationError),
        },
        None => return Err(FallError::CalculationError),
    };
    let remaining: u64 = lending_receipt_amount - pool_token_a;
    if remaining > liquidated {
        return Err(FallError::CalculationError);
    }
    let available: u64 = match pool_token_b.checked_sub(collateral_receipt_supply) {
        Some(v) => v,
        None => return Err(FallError::CalculationError),
    };
    proof {
        lemma_mul_u64_fits_u128(available, remaining);
        assert(available * remaining / (liquidated as int) <= available) by (nonlinear_arith)
            requires
                remaining <= liquidated,
                liquidated > 0,
        ;
        lemma_div_le(available * remaining, liquidated as int);
    }
    let share: u128 = (available as u128) * (remaining as u128) / (liquidated as u128);
    Ok((pool_token_a, share as u64))
}

/// Closes a lending position at `current_block_height`: pays interest in
/// proportion to the lender's time weight, takes that weight out of the
/// share-lending accumulator and pays the principal through the waterfall.
/// Moving the amounts and burning the receipts is the ledger's part.
pub fn redeem(
    pool: &mut Pool,
    reserves: &LendingReserves,
    position: &mut LendingPosition,
    current_block_height: u64,
) -> (r: Result<RedeemOutcome, FallError>)
    ensures
        match r {
            Ok(o) => redeem_result(*old(pool), *reserves, *old(position), current_block_height)
                == Ok::<(Pool, RedeemOutcome), FallError>((*final(pool), o))
                && *final(position) == (LendingPosition { amount: 0, block_height: 0 }),
            Err(e) => redeem_result(*old(pool), *reserves, *old(position), current_block_height)
                == Err::<(Pool, RedeemOutcome), FallError>(e)
                && *final(pool) == *old(pool) && *final(position) == *old(position),
        },
{
    let blocks = match calculate_blocks_passed(position.block_height, current_block_height) {
        Ok(b) => b,
        Err(e) => return Err(e),
    };
    let lender_time_weight: u64 = match blocks.checked_mul(position.amount) {
        Some(v) => v,
        None => return Err(FallError::ArithmeticOverflow),
    };
    let last_accumulator = pool.share_lending_accumulator;
    let mut updated = *pool;
    let current_accumulator = match updated.get_updated_share_lending_accumulator(
        reserves.lending_receipt_supply,
        current_block_height,
    ) {
        Ok(v) => v,
        Err(e) => return Err(e),
    };
    let pool_time_weight_delta = current_accumulator - last_accumulator;
    let interest = interest_payout(
        lender_time_weight,
        pool.borrow_interest_accumulator,
        pool_time_weight_delta,
        reserves.token_b,
    );
    let (principal_a, principal_b) = match redeem_principal(
        position.amount,
        reserves.token_a,
        reserves.token_b - interest,
        reserves.lending_receipt_supply,
        reserves.borrow_receipt_supply,
        reserves.collateral_receipt_supply,
    ) {
        Ok(v) => v,
        Err(e) => return Err(e),
    };
    updated.reduce_share_lending_accumulator(lender_time_weight);
    *pool = updated;
    *position = LendingPosition { amount: 0, block_height: 0 };
    Ok(RedeemOutcome { interest_b: interest, principal_a, principal_b })
}

/// Lending `amount` and redeeming it later, with no borrowing in between,
/// pays back exactly the principal, in the lent asset and nothing of it in
/// the second; no interest is paid when the redemption comes in the same
/// block or no borrow interest has accrued. The redemption succeeds whenever
/// the lender's and the pool's time weights fit in a `u64`.
pub proof fn lemma_lend_then_redeem_returns_principal(
    pool: Pool,
    reserves: LendingReserves,
    lender_balance: u64,
    amount: u64,
    lend_height: u64,
    redeem_height: u64,
)
    requires
        lend_result(pool, reserves, LendingPosition { amount: 0, block_height: 0 }, lender_balance, amount, lend_height) is Ok,
        lend_height <= redeem_height,
        reserves.token_a + amount <= u64::MAX,
        reserves.lending_receipt_supply + amount <= u64::MAX,
        (redeem_height - lend_height) * amount <= u64::MAX,
        (redeem_height - lend_height) * (reserves.lending_receipt_supply + amount) <= u64::MAX,
    ensures
        ({
            let (lent_pool, position) = lend_result(pool, reserves, LendingPosition { amount: 0, block_height: 0 },
                lender_balance, amount, lend_height)->Ok_0;
            let after_lend = LendingReserves {
                token_a: (reserves.token_a + amount) as u64,
                lending_receipt_supply: (reserves.lending_receipt_supply + amount) as u64,
                ..reserves
            };
            let r = redeem_result(lent_pool, after_lend, position, redeem_height);
            &&& r is Ok
            &&& r->Ok_0.1.principal_a == amount
            &&& r->Ok_0.1.principal_b == 0
            &&& (redeem_height == lend_height || pool.borrow_interest_accumulator == 0) ==> r->Ok_0.1.interest_b == 0
        }),
{
    let (lent_pool, position) = lend_result(pool, reserves, LendingPosition { amount: 0, block_height: 0 },
        lender_balance, amount, lend_height)->Ok_0;
    assert(lent_pool.share_lending_block_height == lend_height);
    assert(lent_pool.borrow_interest_accumulator == pool.borrow_interest_accumulator);
    let weight = (redeem_height - lend_height) * amount;
    let acc = pool.borrow_interest_accumulator as int;
    assert(forall|d: int| d > 0 && (weight == 0 || acc == 0) ==> #[trigger] (weight * acc / d) == 0) by {
        assert forall|d: int| d > 0 && (weight == 0 || acc == 0) implies #[trigger] (weight * acc / d) == 0 by {
            assert(weight * acc == 0) by (nonlinear_arith)
                requires
                    weight == 0 || acc == 0,
            ;
        }
    }
    if redeem_height == lend_height {
        assert(weight == 0) by (nonlinear_arith)
            requires
                weight == (redeem_height - lend_height) * amount,
                redeem_height == lend_height,
        ;
    }
}

} // verus!
