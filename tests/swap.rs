use fall::{
    apply_fee, check_realized_invariant, create_amm, quote_output, swap, swap_exact_tokens_for_tokens, Amm, FallError,
    Pool, SwapResult,
};

fn pool_with_reserves(a: u64, b: u64) -> Pool {
    let mut p = Pool::new();
    p.token_a_amount = a;
    p.token_b_amount = b;
    p
}

#[test]
fn swap_of_1000_against_balanced_pool_yields_910() {
    assert_eq!(quote_output(10000, 10000, 1000), Ok(910));
    assert_eq!(apply_fee(910, 10, 10000), Ok(910));
    assert_eq!(
        swap(10000, 10000, 1000, 10, 0),
        Ok(SwapResult { net_output: 910, new_reserve_in: 11000, new_reserve_out: 9090 })
    );
}

#[test]
fn swap_instruction_sells_first_asset() {
    let amm = create_amm();
    let mut pool = pool_with_reserves(10000, 10000);
    let r = swap_exact_tokens_for_tokens(&amm, &mut pool, 10000, 10000, 1000, 0, true, 1000, 900);
    assert_eq!(r, Ok(910));
    assert_eq!(pool.token_a_amount, 11000);
    assert_eq!(pool.token_b_amount, 9090);
}

#[test]
fn swap_instruction_sells_second_asset() {
    let amm = create_amm();
    let mut pool = pool_with_reserves(10000, 10000);
    let r = swap_exact_tokens_for_tokens(&amm, &mut pool, 10000, 10000, 0, 1000, false, 1000, 0);
    assert_eq!(r, Ok(910));
    assert_eq!(pool.token_a_amount, 9090);
    assert_eq!(pool.token_b_amount, 11000);
}

#[test]
fn swap_instruction_refusals_leave_pool_unchanged() {
    let amm = create_amm();
    let start = pool_with_reserves(10000, 10000);
    let mut pool = start;
    assert_eq!(
        swap_exact_tokens_for_tokens(&amm, &mut pool, 10000, 10000, 1000, 0, true, 0, 0),
        Err(FallError::InvalidInput)
    );
    assert_eq!(
        swap_exact_tokens_for_tokens(&amm, &mut pool, 0, 10000, 1000, 0, true, 1000, 0),
        Err(FallError::EmptyPool)
    );
    assert_eq!(
        swap_exact_tokens_for_tokens(&amm, &mut pool, 10000, 10000, 999, 5000, true, 1000, 0),
        Err(FallError::InsufficientBalance)
    );
    assert_eq!(
        swap_exact_tokens_for_tokens(&amm, &mut pool, 10000, 10000, 1000, 0, true, 1000, 911),
        Err(FallError::ExcessiveSlippage)
    );
    assert_eq!(pool, start);
}

#[test]
fn swap_instruction_refuses_reserve_overflow() {
    let amm = create_amm();
    let mut pool = pool_with_reserves(u64::MAX, 10000);
    assert_eq!(
        swap_exact_tokens_for_tokens(&amm, &mut pool, 10000, 10000, 1000, 0, true, 1000, 0),
        Err(FallError::MathOverflow)
    );
    let mut short = pool_with_reserves(10000, 100);
    assert_eq!(
        swap_exact_tokens_for_tokens(&amm, &mut short, 10000, 10000, 1000, 0, true, 1000, 0),
        Err(FallError::MathOverflow)
    );
}

#[test]
fn quote_refuses_zero_input_and_empty_reserves() {
    assert_eq!(quote_output(10000, 10000, 0), Err(FallError::InvalidInput));
    assert_eq!(quote_output(0, 10000, 5), Err(FallError::EmptyPool));
    assert_eq!(quote_output(10000, 0, 5), Err(FallError::EmptyPool));
}

#[test]
fn fee_is_kept_and_product_grows() {
    let s = swap(10000, 10000, 1000, 30, 0).unwrap();
    assert_eq!(s.net_output, 908);
    assert!(s.net_output as u64 <= 910);
    assert_eq!(s.new_reserve_out, 9092);
    assert!((s.new_reserve_in as u128) * (s.new_reserve_out as u128) >= 10000u128 * 10000u128);
}

#[test]
fn product_stays_within_rounding() {
    let s = swap(5000, 20000, 333, 10, 0).unwrap();
    assert_eq!(s.net_output, 1248);
    assert_eq!(s.new_reserve_out, 18752);
    let old = 5000u128 * 20000u128;
    assert!((s.new_reserve_in as u128) * (s.new_reserve_out as u128 + 1) > old);
    assert_eq!(check_realized_invariant(5000, 20000, s.new_reserve_in, s.new_reserve_out), Ok(()));
}

#[test]
fn realized_invariant_loss_is_refused() {
    assert_eq!(check_realized_invariant(10000, 10000, 11000, 9090), Ok(()));
    assert_eq!(check_realized_invariant(10000, 10000, 11000, 9000), Err(FallError::InvariantViolated));
}

#[test]
fn fee_above_output_is_refused() {
    assert_eq!(apply_fee(100, 20000, 10000), Err(FallError::MathOverflow));
    assert_eq!(apply_fee(100, 10, 0), Err(FallError::MathOverflow));
    assert_eq!(apply_fee(1000, 30, 10000), Ok(997));
    let amm = Amm { liquidity_fee: 20000, protocol_fee_percentage: 0 };
    let mut pool = pool_with_reserves(10000, 10000);
    assert_eq!(
        swap_exact_tokens_for_tokens(&amm, &mut pool, 10000, 10000, 1000, 0, true, 1000, 0),
        Err(FallError::MathOverflow)
    );
}

#[test]
fn slippage_bound_is_inclusive() {
    assert_eq!(swap(10000, 10000, 1000, 10, 910).map(|s| s.net_output), Ok(910));
    assert_eq!(swap(10000, 10000, 1000, 10, 911), Err(FallError::ExcessiveSlippage));
}
