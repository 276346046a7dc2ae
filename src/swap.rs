use vstd::prelude::*;
use crate::constants::PERCENT_BASE;
use crate::errors::FallError;
use crate::math::{lemma_div_le, lemma_mul_u64_fits_u128};
use crate::state::{Amm, Pool};

verus! {

/// Constant-product output for `input` against reserves `(rin, rout)`:
/// `rout - floor(rin * rout / (rin + input))`.
pub open spec fn raw_output(rin: u64, rout: u64, input: u64) -> int {
    rout - (rin * rout) / (rin + input)
}

/// The fee kept on `raw` at `fee_bps` out of `base`, rounded down.
pub open spec fn fee_of(raw: int, fee_bps: u64, base: u64) -> int {
    raw * fee_bps / (base as int)
}

/// What a swap leaves: the output paid and the reserves afterwards.
#[derive(Debug, Clone, Copy, PartialEq, Eq, Structural)]
pub struct SwapResult {
    pub net_output: u64,
    pub new_reserve_in: u64,
    pub new_reserve_out: u64,
}

/// The outcome of swapping `input` against `(rin, rout)` with a fee of
/// `fee_bps` and a floor of `min_output` on what is paid out.
pub open spec fn swap_result(rin: u64, rout: u64, input: u64, fee_bps: u64, min_output: u64) -> Result<SwapResult, FallError> {
    let raw = raw_output(rin, rout, input);
    let fee = fee_of(raw, fee_bps, PERCENT_BASE);
    if input == 0 {
        Err(FallError::InvalidInput)
    } else if rin == 0 || rout == 0 {
        Err(FallError::EmptyPool)
    } else if fee > raw {
        Err(FallError::MathOverflow)
    } else if raw - fee < min_output {
        Err(FallError::ExcessiveSlippage)
    } else if rin + input > u64::MAX {
        Err(FallError::MathOverflow)
    } else {
        Ok(SwapResult {
            net_output: (raw - fee) as u64,
            new_reserve_in: (rin + input) as u64,
            new_reserve_out: (rout - (raw - fee)) as u64,
        })
    }
}

/// Balances `(new_in, new_out)` after a trade on `(old_in, old_out)` lost
/// more of the reserve product than rounding one unit of output can explain.
pub open spec fn invariant_violated(old_in: u64, old_out: u64, new_in: u64, new_out: u64) -> bool {
    new_in * (new_out + 1) <= old_in * old_out
}

proof fn lemma_quotient_bound(rin: int, rout: int, n: int)
    requires
        0 < rin <= n,
        0 <= rout,
    ensures
        0 <= (rin * rout) / n <= rout,
        (rin * rout) / n * n <= rin * rout,
        rin * rout < ((rin * rout) / n + 1) * n,
{
    let k = rin * rout;
    let q = k / n;
    assert(0 <= k) by (nonlinear_arith)
        requires
            k == rin * rout,
            0 < rin,
            0 <= rout,
    ;
    assert(k == q * n + k % n && 0 <= k % n < n) by (nonlinear_arith)
        requires
            0 < n,
            q == k / n,
    ;
    assert(0 <= q) by (nonlinear_arith)
        requires
            0 <= k,
            0 < n,
            q == k / n,
    ;
    assert(q <= rout) by (nonlinear_arith)
        requires
            k == rin * rout,
            q * n <= k,
            0 < rin <= n,
            0 <= rout,
            0 <= q,
    ;
    assert(k < (q + 1) * n) by (nonlinear_arith)
        requires
            k == q * n + k % n,
            k % n < n,
    ;
}

/// Constant-product output before fees:
/// `reserve_out - floor(reserve_in * reserve_out / (reserve_in + input_amount))`.
pub fn quote_output(reserve_in: u64, reserve_out: u64, input_amount: u64) -> (r: Result<u64, FallError>)
    ensures
        input_amount == 0 ==> r == Err::<u64, FallError>(FallError::InvalidInput),
        input_amount > 0 && (reserve_in == 0 || reserve_out == 0) ==> r == Err::<u64, FallError>(FallError::EmptyPool),
        input_amount > 0 && reserve_in > 0 && reserve_out > 0 ==> r == Ok::<u64, FallError>(raw_output(reserve_in, reserve_out, input_amount) as u64),
        r matches Ok(v) ==> 0 <= raw_output(reserve_in, reserve_out, input_amount) == v <= reserve_out,
{
    if input_amount == 0 {
        return Err(FallError::InvalidInput);
    }
    if reserve_in == 0 || reserve_out == 0 {
        return Err(FallError::EmptyPool);
    }
    proof {
        lemma_mul_u64_fits_u128(reserve_in, reserve_out);
        lemma_quotient_bound(reserve_in as int, reserve_out as int, reserve_in + input_amount);
    }
    let k: u128 = (reserve_in as u128) * (reserve_out as u128);
    let n: u128 = (reserve_in as u128) + (input_amount as u128);
    let q: u128 = k / n;
    Ok(((reserve_out as u128) - q) as u64)
}

/// Output net of the liquidity fee: `raw_output - floor(raw_output * fee_bps
/// / percent_base)`; refused when the fee would exceed the output or the base
/// is zero.
pub fn apply_fee(raw_output: u64, fee_bps: u64, percent_base: u64) -> (r: Result<u64, FallError>)
    ensures
        percent_base == 0 ==> r == Err::<u64, FallError>(FallError::MathOverflow),
        percent_base > 0 && fee_of(raw_output as int, fee_bps, percent_base) > raw_output
            ==> r == Err::<u64, FallError>(FallError::MathOverflow),
        percent_base > 0 && fee_of(raw_output as int, fee_bps, percent_base) <= raw_output
            ==> r == Ok::<u64, FallError>((raw_output - fee_of(raw_output as int, fee_bps, percent_base)) as u64),
{
    if percent_base == 0 {
        return Err(FallError::MathOverflow);
    }
    proof {
        lemma_mul_u64_fits_u128(raw_output, fee_bps);
        lemma_div_le((raw_output * fee_bps) as int, percent_base as int);
    }
    let fee: u128 = (raw_output as u128) * (fee_bps as u128) / (percent_base as u128);
    if fee > raw_output as u128 {
        return Err(FallError::MathOverflow);
    }
    Ok(raw_output - fee as u64)
}

/// Swaps `input_amount` against reserves `(reserve_in, reserve_out)`: quotes
/// the constant-product output, keeps the fee in the pool and refuses an
/// output below `min_output`. The balances it leaves pass
/// `check_realized_invariant`.
pub fn swap(reserve_in: u64, reserve_out: u64, input_amount: u64, fee_bps: u64, min_output: u64) -> (r: Result<SwapResult, FallError>)
    ensures
        r == swap_result(reserve_in, reserve_out, input_amount, fee_bps, min_output),
        r matches Ok(s) ==> !invariant_violated(reserve_in, reserve_out, s.new_reserve_in, s.new_reserve_out),
{
    let raw = match quote_output(reserve_in, reserve_out, input_amount) {
        Ok(v) => v,
        Err(e) => return Err(e),
    };
    let output = match apply_fee(raw, fee_bps, PERCENT_BASE) {
        Ok(v) => v,
        Err(e) => return Err(e),
    };
    if output < min_output {
        return Err(FallError::ExcessiveSlippage);
    }
    let new_reserve_in = match reserve_in.checked_add(input_amount) {
        Some(v) => v,
        None => return Err(FallError::MathOverflow),
    };
    let new_reserve_out = reserve_out - output;
    proof {
        lemma_swap_within_rounding(reserve_in, reserve_out, input_amount, fee_bps, min_output);
    }
    Ok(SwapResult { net_output: output, new_reserve_in, new_reserve_out })
}

/// A swap pays out no more than the raw constant-product output, and the
/// reserve product it leaves falls short of the old one by less than one
/// unit of output times the new input reserve.
pub proof fn lemma_swap_within_rounding(rin: u64, rout: u64, input: u64, fee_bps: u64, min_output: u64)
    requires
        swap_result(rin, rout, input, fee_bps, min_output) is Ok,
    ensures
        ({
            let s = swap_result(rin, rout, input, fee_bps, min_output)->Ok_0;
            &&& s.net_output <= raw_output(rin, rout, input)
            &&& s.new_reserve_in * (s.new_reserve_out + 1) > rin * rout
            &&& !invariant_violated(rin, rout, s.new_reserve_in, s.new_reserve_out)
        }),
{
    let s = swap_result(rin, rout, input, fee_bps, min_output)->Ok_0;
    let n = rin + input;
    let q = (rin * rout) / n;
    lemma_quotient_bound(rin as int, rout as int, n);
    let raw = raw_output(rin, rout, input);
    let fee = fee_of(raw, fee_bps, PERCENT_BASE);
    lemma_mul_u64_fits_u128(raw as u64, fee_bps);
    lemma_div_le(raw * fee_bps, PERCENT_BASE as int);
    assert(s.new_reserve_out == q + fee);
    assert(n * (q + fee + 1) >= n * (q + 1)) by (nonlinear_arith)
        requires
            fee >= 0,
            n > 0,
    ;
}

/// With a fee large enough to cover the rounding of the quote
/// (`rin * rout % (rin + input) <= fee * (rin + input)`), the reserve product
/// never decreases across a swap; without it, rounding alone can lower it.
pub proof fn lemma_swap_product_non_decreasing(rin: u64, rout: u64, input: u64, fee_bps: u64, min_output: u64)
    requires
        swap_result(rin, rout, input, fee_bps, min_output) is Ok,
        (rin * rout) % (rin + input) <= fee_of(raw_output(rin, rout, input), fee_bps, PERCENT_BASE) * (rin + input),
    ensures
        ({
            let s = swap_result(rin, rout, input, fee_bps, min_output)->Ok_0;
            &&& s.net_output <= raw_output(rin, rout, input)
            &&& s.new_reserve_in * s.new_reserve_out >= rin * rout
        }),
{
    let s = swap_result(rin, rout, input, fee_bps, min_output)->Ok_0;
    lemma_swap_within_rounding(rin, rout, input, fee_bps, min_output);
    let n = rin + input;
    let k = rin * rout;
    let q = k / n;
    lemma_quotient_bound(rin as int, rout as int, n);
    let fee = fee_of(raw_output(rin, rout, input), fee_bps, PERCENT_BASE);
    assert(s.new_reserve_out == q + fee);
    assert(k == q * n + k % n) by (nonlinear_arith)
        requires
            n > 0,
            q == k / n,
    ;
    assert(n * (q + fee) == q * n + fee * n) by (nonlinear_arith);
}

/// Checks the balances that a trade actually left against the reserves
/// before it: refused with `InvariantViolated` when the product fell by more
/// than rounding one unit of output allows.
pub fn check_realized_invariant(old_reserve_in: u64, old_reserve_out: u64, new_reserve_in: u64, new_reserve_out: u64) -> (r: Result<(), FallError>)
    ensures
        invariant_violated(old_reserve_in, old_reserve_out, new_reserve_in, new_reserve_out)
            ==> r == Err::<(), FallError>(FallError::InvariantViolated),
        !invariant_violated(old_reserve_in, old_reserve_out, new_reserve_in, new_reserve_out) ==> r is Ok,
{
    proof {
        lemma_mul_u64_fits_u128(old_reserve_in, old_reserve_out);
        lemma_mul_u64_fits_u128(new_reserve_in, new_reserve_out);
        assert(new_reserve_in * (new_reserve_out + 1) == new_reserve_in * new_reserve_out + new_reserve_in)
            by (nonlinear_arith);
    }
    let old_invariant: u128 = (old_reserve_in as u128) * (old_reserve_out as u128);
    let new_invariant: u128 = (new_reserve_in as u128) * (new_reserve_out as u128);
    if new_invariant + (new_reserve_in as u128) <= old_invariant {
        Err(FallError::InvariantViolated)
    } else {
        Ok(())
    }
}

/// Outcome of the swap instruction on a pool whose accounts hold
/// `(pool_amount_a, pool_amount_b)`: the pool's recorded reserves afterwards
/// and the output owed to the trader.
pub open spec fn swap_exact_result(
    amm: Amm,
    pool: Pool,
    pool_amount_a: u64,
    pool_amount_b: u64,
    trader_amount_a: u64,
    trader_amount_b: u64,
    swap_a: bool,
    input_amount: u64,
    min_output_amount: u64,
) -> Result<(Pool, u64), FallError> {
    let trader_in = if swap_a { trader_amount_a } else { trader_amount_b };
    let rin = if swap_a { pool_amount_a } else { pool_amount_b };
    let rout = if swap_a { pool_amount_b } else { pool_amount_a };
    let book_in = if swap_a { pool.token_a_amount } else { pool.token_b_amount };
    let book_out = if swap_a { pool.token_b_amount } else { pool.token_a_amount };
    if input_amount == 0 {
        Err(FallError::InvalidInput)
    } else if pool_amount_a == 0 || pool_amount_b == 0 {
        Err(FallError::EmptyPool)
    } else if trader_in < input_amount {
        Err(FallError::InsufficientBalance)
    } else {
        match swap_result(rin, rout, input_amount, amm.liquidity_fee as u64, min_output_amount) {
            Err(e) => Err(e),
            Ok(s) => if book_in + input_amount > u64::MAX || book_out < s.net_output {
                Err(FallError::MathOverflow)
            } else {
                let new_in = (book_in + input_amount) as u64;
                let new_out = (book_out - s.net_output) as u64;
                let p = if swap_a {
                    Pool { token_a_amount: new_in, token_b_amount: new_out, ..pool }
                } else {
                    Pool { token_a_amount: new_out, token_b_amount: new_in, ..pool }
                };
                Ok((p, s.net_output))
            },
        }
    }
}

/// Sells exactly `input_amount` of the first asset (`swap_a`) or of the
/// second for the other one, priced on the pool accounts' balances
/// `(pool_amount_a, pool_amount_b)`, and records the trade in the pool's
/// reserves. Returns the output owed to the trader; moving the two amounts
/// is the ledger's part.
pub fn swap_exact_tokens_for_tokens(
    amm: &Amm,
    pool: &mut Pool,
    pool_amount_a: u64,
    pool_amount_b: u64,
    trader_amount_a: u64,
    trader_amount_b: u64,
    swap_a: bool,
    input_amount: u64,
    min_output_amount: u64,
) -> (r: Result<u64, FallError>)
    ensures
        match r {
            Ok(out) => swap_exact_result(*amm, *old(pool), pool_amount_a, pool_amount_b, trader_amount_a, trader_amount_b,
                swap_a, input_amount, min_output_amount) == Ok::<(Pool, u64), FallError>((*final(pool), out)),
            Err(e) => swap_exact_result(*amm, *old(pool), pool_amount_a, pool_amount_b, trader_amount_a, trader_amount_b,
                swap_a, input_amount, min_output_amount) == Err::<(Pool, u64), FallError>(e)
                && *final(pool) == *old(pool),
        },
{
    if input_amount == 0 {
        return Err(FallError::InvalidInput);
    }
    if pool_amount_a == 0 || pool_amount_b == 0 {
        return Err(FallError::EmptyPool);
    }
    let trader_in = if swap_a { trader_amount_a } else { trader_amount_b };
    if trader_in < input_amount {
        return Err(FallError::InsufficientBalance);
    }
    let (rin, rout) = if swap_a { (pool_amount_a, pool_amount_b) } else { (pool_amount_b, pool_amount_a) };
    let s = match swap(rin, rout, input_amount, amm.liquidity_fee as u64, min_output_amount) {
        Ok(s) => s,
        Err(e) => return Err(e),
    };
    let (book_in, book_out) = if swap_a {
        (pool.token_a_amount, pool.token_b_amount)
    } else {
        (pool.token_b_amount, pool.token_a_amount)
    };
    let new_in = match book_in.checked_add(input_amount) {
        Some(v) => v,
        None => return Err(FallError::MathOverflow),
    };
    let new_out = match book_out.checked_sub(s.net_output) {
        Some(v) => v,
        None => return Err(FallError::MathOverflow),
    };
    if swap_a {
        pool.token_a_amount = new_in;
        pool.token_b_amount = new_out;
    } else {
        pool.token_a_amount = new_out;
        pool.token_b_amount = new_in;
    }
    Ok(s.net_output)
}

} // verus!
