use vstd::prelude::*;

verus! {

/// Liquidity shares locked forever on the first deposit into a pool.
pub const MINIMUM_LIQUIDITY: u64 = 10;

/// One hundred percent, in basis points.
pub const PERCENT_BASE: u64 = 10000;

/// Interest charged per block on borrowed principal, in basis points.
pub const BASE_INTEREST_RATE: u64 = 5;

/// Collateral value required per unit borrowed, in basis points.
pub const MIN_COLLATERAL_RATIO: u64 = 10000;

/// Part of the posted collateral paid to a liquidator: one unit in this many.
pub const LIQUIDATION_REWARD_DIVISOR: u64 = 100;

} // verus!
