//! Accounting core of a constant-product exchange combined with a
//! collateralized lending pool: reserves and swaps, liquidity shares,
//! time-weighted accumulators, borrow and lending positions, liquidation
//! and the redemption waterfall.
//!
//! Every operation is a function from plain values (balances, supplies,
//! block heights) to a new state and the amounts that the ledger has to
//! move; moving them is the caller's part.
pub mod borrowing;
pub mod constants;
pub mod errors;
pub mod lending;
pub mod liquidity;
pub mod math;
pub mod state;
pub mod swap;

pub use borrowing::{
    borrow, calculate_interest, deposit_collateral, liquidate, repay, BorrowPosition, LiquidateOutcome, RepayOutcome,
};
pub use errors::FallError;
pub use lending::{
    interest_payout, lend, redeem, redeem_principal, LendingPosition, LendingReserves, RedeemOutcome,
};
pub use liquidity::{deposit_liquidity, DepositOutcome};
pub use math::sqrt_of_product;
pub use state::{calculate_blocks_passed, create_amm, price, Amm, Pool, PriceResult};
pub use swap::{
    apply_fee, check_realized_invariant, quote_output, swap, swap_exact_tokens_for_tokens, SwapResult,
};
