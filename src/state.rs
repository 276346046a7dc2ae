use vstd::prelude::*;
use crate::constants::{BASE_INTEREST_RATE, MIN_COLLATERAL_RATIO, PERCENT_BASE};
use crate::errors::FallError;
use crate::math::{lemma_div_le, lemma_mul_u64_fits_u128};

verus! {

/// Liquidity fee charged on swap output by a new exchange, in basis points.
pub const DEFAULT_LIQUIDITY_FEE: u16 = 10;

/// Part of minted liquidity diverted to the administrator by a new exchange,
/// in basis points.
pub const DEFAULT_PROTOCOL_FEE_PERCENTAGE: u16 = 10;

/// Fee configuration of one exchange.
#[derive(Debug, Clone, Copy, PartialEq, Eq, Structural)]
pub struct Amm {
    /// Fee kept by the pool on each swap output, in basis points.
    pub liquidity_fee: u16,
    /// Part of each deposit's minted liquidity that goes to the
    /// administrator, in basis points.
    pub protocol_fee_percentage: u16,
}

impl Amm {
    /// Both rates are at most one hundred percent.
    pub open spec fn wf(self) -> bool {
        &&& self.liquidity_fee <= PERCENT_BASE
        &&& self.protocol_fee_percentage <= PERCENT_BASE
    }
}

/// A new exchange with the default fee rates.
pub fn create_amm() -> (amm: Amm)
    ensures
        amm.liquidity_fee == DEFAULT_LIQUIDITY_FEE,
        amm.protocol_fee_percentage == DEFAULT_PROTOCOL_FEE_PERCENTAGE,
        amm.wf(),
{
    Amm { liquidity_fee: DEFAULT_LIQUIDITY_FEE, protocol_fee_percentage: DEFAULT_PROTOCOL_FEE_PERCENTAGE }
}

/// Bookkeeping of one trading pair and of the lending pool built on it.
#[derive(Debug, Clone, Copy, PartialEq, Eq, Structural)]
pub struct Pool {
    /// Recorded reserve of the first asset.
    pub token_a_amount: u64,
    /// Recorded reserve of the second asset.
    pub token_b_amount: u64,
    /// Block height at which the borrow-interest accumulator was last advanced.
    pub borrow_interest_accumulator_block_height: u64,
    /// Interest accrued by all borrowers; saturates at `u64::MAX`.
    pub borrow_interest_accumulator: u64,
    /// Block height at which the share-lending accumulator was last advanced.
    pub share_lending_block_height: u64,
    /// Lent principal integrated over blocks; saturates at `u64::MAX`.
    pub share_lending_accumulator: u64,
}

/// The reserves returned by a price query.
#[derive(Debug, Clone, Copy, PartialEq, Eq, Structural)]
pub struct PriceResult {
    pub token_a_amount: u64,
    pub token_b_amount: u64,
}

/// The current reserves of a pair.
pub fn price(token_a_amount: u64, token_b_amount: u64) -> (r: PriceResult)
    ensures
        r.token_a_amount == token_a_amount,
        r.token_b_amount == token_b_amount,
{
    PriceResult { token_a_amount, token_b_amount }
}

/// `amount * num / den`, refused when the product exceeds `u64::MAX` or the
/// denominator is zero.
pub open spec fn convert_value(amount: u64, num: u64, den: u64) -> Result<u64, FallError> {
    if amount * num > u64::MAX || den == 0 {
        Err(FallError::CalculationError)
    } else {
        Ok((amount * num / den as int) as u64)
    }
}

/// `acc + delta`, held at `u64::MAX` when it would exceed it.
pub open spec fn saturating_sum(acc: u64, delta: int) -> u64 {
    if acc + delta > u64::MAX {
        u64::MAX
    } else {
        (acc + delta) as u64
    }
}

/// Blocks between a recorded height and the current one; a height that went
/// backwards is refused.
pub open spec fn blocks_between(recorded: u64, current: u64) -> Result<u64, FallError> {
    if current < recorded {
        Err(FallError::ArithmeticOverflow)
    } else {
        Ok((current - recorded) as u64)
    }
}

/// Blocks between a recorded height and the current one.
pub fn calculate_blocks_passed(recorded_block_height: u64, current_block_height: u64) -> (r: Result<u64, FallError>)
    ensures
        r == blocks_between(recorded_block_height, current_block_height),
{
    if current_block_height < recorded_block_height {
        Err(FallError::ArithmeticOverflow)
    } else {
        Ok(current_block_height - recorded_block_height)
    }
}

fn convert(amount: u64, num: u64, den: u64) -> (r: Result<u64, FallError>)
    ensures
        r == convert_value(amount, num, den),
{
    proof {
        lemma_mul_u64_fits_u128(amount, num);
    }
    let product: u128 = (amount as u128) * (num as u128);
    if product > u64::MAX as u128 || den == 0 {
        return Err(FallError::CalculationError);
    }
    proof {
        lemma_div_le(product as int, den as int);
    }
    Ok((product / (den as u128)) as u64)
}

impl Pool {
    /// A pool with empty reserves and accumulators started at height zero.
    pub fn new() -> (p: Pool)
        ensures
            p.token_a_amount == 0,
            p.token_b_amount == 0,
            p.borrow_interest_accumulator_block_height == 0,
            p.borrow_interest_accumulator == 0,
            p.share_lending_block_height == 0,
            p.share_lending_accumulator == 0,
    {
        Pool {
            token_a_amount: 0,
            token_b_amount: 0,
            borrow_interest_accumulator_block_height: 0,
            borrow_interest_accumulator: 0,
            share_lending_block_height: 0,
            share_lending_accumulator: 0,
        }
    }

    /// Value of `amount_a` of the first asset in the second, at the recorded
    /// reserve ratio.
    pub open spec fn token_a_value(self, amount_a: u64) -> Result<u64, FallError> {
        convert_value(amount_a, self.token_b_amount, self.token_a_amount)
    }

    /// Value of `amount_b` of the second asset in the first, at the recorded
    /// reserve ratio.
    pub open spec fn token_b_value(self, amount_b: u64) -> Result<u64, FallError> {
        convert_value(amount_b, self.token_a_amount, self.token_b_amount)
    }

    /// The pool after advancing the borrow-interest accumulator to height `h`
    /// with `current_borrowed` outstanding.
    pub open spec fn with_borrow_interest(self, current_borrowed: u64, h: u64) -> Result<Pool, FallError> {
        let last = self.borrow_interest_accumulator_block_height;
        if h < last {
            Err(FallError::ArithmeticOverflow)
        } else if (h - last) * current_borrowed * BASE_INTEREST_RATE > u128::MAX {
            Err(FallError::ArithmeticOverflow)
        } else {
            Ok(Pool {
                borrow_interest_accumulator_block_height: h,
                borrow_interest_accumulator: saturating_sum(
                    self.borrow_interest_accumulator,
                    (h - last) * current_borrowed * BASE_INTEREST_RATE / PERCENT_BASE as int,
                ),
                ..self
            })
        }
    }

    /// The pool after advancing the share-lending accumulator to height `h`
    /// with `lending_supply` lent.
    pub open spec fn with_share_lending(self, lending_supply: u64, h: u64) -> Result<Pool, FallError> {
        let last = self.share_lending_block_height;
        if h < last {
            Err(FallError::ArithmeticOverflow)
        } else if (h - last) * lending_supply > u64::MAX {
            Err(FallError::ArithmeticOverflow)
        } else {
            Ok(Pool {
                share_lending_block_height: h,
                share_lending_accumulator: saturating_sum(
                    self.share_lending_accumulator,
                    (h - last) * lending_supply,
                ),
                ..self
            })
        }
    }

    /// Whether `collateral_value`, in the first asset, covers a loan of
    /// `borrow_amount` at the minimum collateral ratio.
    pub open spec fn collateral_covers(collateral_value: u64, borrow_amount: u64) -> bool {
        collateral_value * PERCENT_BASE >= borrow_amount * MIN_COLLATERAL_RATIO
    }

    /// Value of `amount_a` of the first asset in the second:
    /// `amount_a * token_b_amount / token_a_amount`.
    pub fn calculate_token_a_value(&self, amount_a: u64) -> (r: Result<u64, FallError>)
        ensures
            r == self.token_a_value(amount_a),
    {
        convert(amount_a, self.token_b_amount, self.token_a_amount)
    }

    /// Value of `amount_b` of the second asset in the first:
    /// `amount_b * token_a_amount / token_b_amount`.
    pub fn calculate_token_b_value(&self, amount_b: u64) -> (r: Result<u64, FallError>)
        ensures
            r == self.token_b_value(amount_b),
    {
        convert(amount_b, self.token_a_amount, self.token_b_amount)
    }

    /// Advances the borrow-interest accumulator to `current_block_height` by
    /// `blocks * current_borrowed * BASE_INTEREST_RATE / PERCENT_BASE`,
    /// saturating at `u64::MAX`.
    pub fn update_borrow_interest_accumulator(&mut self, current_borrowed: u64, current_block_height: u64) -> (r: Result<(), FallError>)
        ensures
            match r {
                Ok(_) => old(self).with_borrow_interest(current_borrowed, current_block_height) == Ok::<Pool, FallError>(*final(self)),
                Err(e) => old(self).with_borrow_interest(current_borrowed, current_block_height) == Err::<Pool, FallError>(e)
                    && *final(self) == *old(self),
            },
    {
        let blocks = match calculate_blocks_passed(self.borrow_interest_accumulator_block_height, current_block_height) {
            Ok(b) => b,
            Err(e) => return Err(e),
        };
        proof {
            lemma_mul_u64_fits_u128(blocks, current_borrowed);
        }
        let weighted: u128 = (blocks as u128) * (current_borrowed as u128);
        let scaled: u128 = match weighted.checked_mul(BASE_INTEREST_RATE as u128) {
            Some(v) => v,
            None => return Err(FallError::ArithmeticOverflow),
        };
        let increase: u128 = scaled / (PERCENT_BASE as u128);
        let acc: u128 = self.borrow_interest_accumulator as u128;
        let new_acc: u64 = if acc + increase > u64::MAX as u128 {
            u64::MAX
        } else {
            (acc + increase) as u64
        };
        self.borrow_interest_accumulator_block_height = current_block_height;
        self.borrow_interest_accumulator = new_acc;
        Ok(())
    }

    /// Advances the share-lending accumulator to `current_block_height` by
    /// `blocks * current_lending_receipt_amount`, saturating at `u64::MAX`,
    /// and returns its new value.
    pub fn get_updated_share_lending_accumulator(&mut self, current_lending_receipt_amount: u64, current_block_height: u64) -> (r: Result<u64, FallError>)
        ensures
            match r {
                Ok(v) => old(self).with_share_lending(current_lending_receipt_amount, current_block_height) == Ok::<Pool, FallError>(*final(self))
                    && v == final(self).share_lending_accumulator,
                Err(e) => old(self).with_share_lending(current_lending_receipt_amount, current_block_height) == Err::<Pool, FallError>(e)
                    && *final(self) == *old(self),
            },
    {
        let blocks = match calculate_blocks_passed(self.share_lending_block_height, current_block_height) {
            Ok(b) => b,
            Err(e) => return Err(e),
        };
        let increase: u64 = match blocks.checked_mul(current_lending_receipt_amount) {
            Some(v) => v,
            None => return Err(FallError::ArithmeticOverflow),
        };
        self.share_lending_block_height = current_block_height;
        self.share_lending_accumulator = self.share_lending_accumulator.saturating_add(increase);
        Ok(self.share_lending_accumulator)
    }

    /// Takes a redeemed lender's time weight out of the share-lending
    /// accumulator, stopping at zero.
    pub fn reduce_share_lending_accumulator(&mut self, lender_time_weight: u64)
        ensures
            final(self).share_lending_accumulator == (if old(self).share_lending_accumulator >= lender_time_weight {
                old(self).share_lending_accumulator - lender_time_weight
            } else {
                0
            }),
            *final(self) == (Pool { share_lending_accumulator: final(self).share_lending_accumulator, ..*old(self) }),
    {
        self.share_lending_accumulator = self.share_lending_accumulator.saturating_sub(lender_time_weight);
    }

    /// Whether collateral worth `collateral_value_in_token_a` covers a loan
    /// of `borrow_amount`: `collateral * PERCENT_BASE >= borrow *
    /// MIN_COLLATERAL_RATIO`.
    pub fn check_collateral_ratio(&self, collateral_value_in_token_a: u64, borrow_amount: u64) -> (r: bool)
        ensures
            r == Pool::collateral_covers(collateral_value_in_token_a, borrow_amount),
    {
        proof {
            lemma_mul_u64_fits_u128(collateral_value_in_token_a, PERCENT_BASE);
            lemma_mul_u64_fits_u128(borrow_amount, MIN_COLLATERAL_RATIO);
        }
        (collateral_value_in_token_a as u128) * (PERCENT_BASE as u128)
            >= (borrow_amount as u128) * (MIN_COLLATERAL_RATIO as u128)
    }
}

} // verus!
