use vstd::prelude::*;

verus! {

/// Why an operation was refused. A refused operation changes nothing.
#[derive(Debug, Clone, Copy, PartialEq, Eq, Structural)]
pub enum FallError {
    /// A fee rate above one hundred percent.
    InvalidFee,
    /// Too little liquidity for the first deposit into a pool.
    DepositTooSmall,
    /// A zero input amount.
    InvalidInput,
    /// A swap against a pool with an empty reserve.
    EmptyPool,
    /// The caller holds less than the amount asked for.
    InsufficientBalance,
    /// An overflow while recording reserves or a position, or a fee larger
    /// than the output it is taken from.
    MathOverflow,
    /// The swap output is below the caller's minimum.
    ExcessiveSlippage,
    /// The balances after a swap lost more than rounding allows.
    InvariantViolated,
    /// An overflow or a zero denominator in liquidity arithmetic.
    NumberOverflow,
    /// The block height went backwards, or a time-weighted product overflowed.
    ArithmeticOverflow,
    /// A valuation, interest or redemption amount cannot be computed.
    CalculationError,
    /// The lender already has an open lending position.
    ExistingLending,
    /// The borrower already has an open loan.
    ExistingBorrow,
    /// The collateral is worth less than the loan requires.
    InsufficientCollateral,
    /// The pool cannot lend that much.
    InsufficientLiquidity,
    /// The position is covered by its collateral and cannot be liquidated.
    HealthyPosition,
}

} // verus!
