use vstd::prelude::*;
use crate::constants::{MINIMUM_LIQUIDITY, PERCENT_BASE};
use crate::errors::FallError;
use crate::math::{isqrt, lemma_isqrt, lemma_square_monotone, sqrt_of_product};
use crate::state::{Amm, Pool};

verus! {

/// What a deposit moves and mints.
#[derive(Debug, Clone, Copy, PartialEq, Eq, Structural)]
pub struct DepositOutcome {
    /// Amount of the first asset taken from the depositor.
    pub amount_a: u64,
    /// Amount of the second asset taken from the depositor.
    pub amount_b: u64,
    /// Liquidity shares minted to the depositor.
    pub user_liquidity: u64,
    /// Liquidity shares minted to the administrator.
    pub protocol_fee: u64,
}

/// The part of an offer `(a, b)` that a pool with reserves `(pa, pb)`
/// accepts: all of it for a new pool, otherwise the largest pair at the
/// reserve ratio that stays within the offer, rounded down.
pub open spec fn accepted_amounts(pa: u64, pb: u64, a: u64, b: u64) -> (int, int) {
    if pa == 0 && pb == 0 {
        (a as int, b as int)
    } else if b * pa <= a * pb {
        (b * pa / pb as int, b as int)
    } else {
        (a as int, a * pb / pa as int)
    }
}

/// Liquidity minted for accepting `(a, b)` into a pool with reserves
/// `(pa, pb)`: the geometric mean of the accepted amounts, less the locked
/// minimum on the first deposit.
pub open spec fn minted_liquidity(pa: u64, pb: u64, a: u64, b: u64) -> int {
    let (x, y) = accepted_amounts(pa, pb, a, b);
    let root = isqrt((x * y) as nat) as int;
    if pa == 0 && pb == 0 {
        root - MINIMUM_LIQUIDITY
    } else {
        root
    }
}

/// Outcome of depositing up to `(want_a, want_b)`, capped by the depositor's
/// balances, into a pool whose accounts hold `(pool_amount_a, pool_amount_b)`.
pub open spec fn deposit_result(
    amm: Amm,
    pool: Pool,
    pool_amount_a: u64,
    pool_amount_b: u64,
    depositor_amount_a: u64,
    depositor_amount_b: u64,
    want_a: u64,
    want_b: u64,
) -> Result<(Pool, DepositOutcome), FallError> {
    let a = if want_a > depositor_amount_a { depositor_amount_a } else { want_a };
    let b = if want_b > depositor_amount_b { depositor_amount_b } else { want_b };
    let creation = pool_amount_a == 0 && pool_amount_b == 0;
    let (x, y) = accepted_amounts(pool_amount_a, pool_amount_b, a, b);
    let liquidity = minted_liquidity(pool_amount_a, pool_amount_b, a, b);
    let user = liquidity * (PERCENT_BASE - amm.protocol_fee_percentage) / PERCENT_BASE as int;
    if amm.protocol_fee_percentage > PERCENT_BASE {
        Err(FallError::InvalidFee)
    } else if !creation && (pool_amount_a == 0 || pool_amount_b == 0) {
        Err(FallError::NumberOverflow)
    } else if x * y > i64::MAX {
        Err(FallError::NumberOverflow)
    } else if creation && liquidity <= 0 {
        Err(FallError::DepositTooSmall)
    } else if pool.token_a_amount + x > u64::MAX || pool.token_b_amount + y > u64::MAX {
        Err(FallError::NumberOverflow)
    } else {
        Ok((
            Pool { token_a_amount: (pool.token_a_amount + x) as u64, token_b_amount: (pool.token_b_amount + y) as u64, ..pool },
            DepositOutcome {
                amount_a: x as u64,
                amount_b: y as u64,
                user_liquidity: user as u64,
                protocol_fee: (liquidity - user) as u64,
            },
        ))
    }
}

proof fn lemma_accepted_within_offer(pa: u64, pb: u64, a: u64, b: u64)
    requires
        pa > 0,
        pb > 0,
    ensures
        0 <= accepted_amounts(pa, pb, a, b).0 <= a,
        0 <= accepted_amounts(pa, pb, a, b).1 <= b,
{
    if b * pa <= a * pb {
        assert(0 <= (b * pa) / (pb as int) <= a) by (nonlinear_arith)
            requires
                b * pa <= a * pb,
                pb > 0,
                pa > 0,
        ;
    } else {
        assert(0 <= (a * pb) / (pa as int) <= b) by (nonlinear_arith)
            requires
                a * pb < b * pa,
                pb > 0,
                pa > 0,
        ;
    }
}

/// Adds liquidity: takes up to `(amount_a, amount_b)`, capped by the
/// depositor's balances and rescaled to the reserve ratio, and mints shares
/// equal to the geometric mean of what was taken (less the locked minimum on
/// the first deposit), of which the protocol fee part goes to the
/// administrator. Moving and minting is the ledger's part.
pub fn deposit_liquidity(
    amm: &Amm,
    pool: &mut Pool,
    pool_amount_a: u64,
    pool_amount_b: u64,
    depositor_amount_a: u64,
    depositor_amount_b: u64,
    amount_a: u64,
    amount_b: u64,
) -> (r: Result<DepositOutcome, FallError>)
    ensures
        match r {
            Ok(o) => deposit_result(*amm, *old(pool), pool_amount_a, pool_amount_b, depositor_amount_a,
                depositor_amount_b, amount_a, amount_b) == Ok::<(Pool, DepositOutcome), FallError>((*final(pool), o)),
            Err(e) => deposit_result(*amm, *old(pool), pool_amount_a, pool_amount_b, depositor_amount_a,
                depositor_amount_b, amount_a, amount_b) == Err::<(Pool, DepositOutcome), FallError>(e)
                && *final(pool) == *old(pool),
        },
        r matches Ok(o) ==> o.user_liquidity + o.protocol_fee == minted_liquidity(pool_amount_a, pool_amount_b,
            if amount_a > depositor_amount_a { depositor_amount_a } else { amount_a },
            if amount_b > depositor_amount_b { depositor_amount_b } else { amount_b }),
{
    if amm.protocol_fee_percentage as u64 > PERCENT_BASE {
        return Err(FallError::InvalidFee);
    }
    let a = if amount_a > depositor_amount_a { depositor_amount_a } else { amount_a };
    let b = if amount_b > depositor_amount_b { depositor_amount_b } else { amount_b };
    let creation = pool_amount_a == 0 && pool_amount_b == 0;
    let (x, y): (u64, u64) = if creation {
        (a, b)
    } else {
        if pool_amount_a == 0 || pool_amount_b == 0 {
            return Err(FallError::NumberOverflow);
        }
        proof {
            lemma_accepted_within_offer(pool_amount_a, pool_amount_b, a, b);
            crate::math::lemma_mul_u64_fits_u128(b, pool_amount_a);
            crate::math::lemma_mul_u64_fits_u128(a, pool_amount_b);
        }
        let bpa: u128 = (b as u128) * (pool_amount_a as u128);
        let apb: u128 = (a as u128) * (pool_amount_b as u128);
        if bpa <= apb {
            ((bpa / (pool_amount_b as u128)) as u64, b)
        } else {
            (a, (apb / (pool_amount_a as u128)) as u64)
        }
    };
    let root = match sqrt_of_product(x, y) {
        Some(s) => s,
        None => return Err(FallError::NumberOverflow),
    };
    proof {
        lemma_isqrt((x * y) as nat);
        if root >= 0x1_0000_0000 {
            lemma_square_monotone(0x1_0000_0000, root as int);
        }
    }
    let liquidity: u64 = if creation {
        if root <= MINIMUM_LIQUIDITY {
            return Err(FallError::DepositTooSmall);
        }
        root - MINIMUM_LIQUIDITY
    } else {
        root
    };
    let new_a = match pool.token_a_amount.checked_add(x) {
        Some(v) => v,
        None => return Err(FallError::NumberOverflow),
    };
    let new_b = match pool.token_b_amount.checked_add(y) {
        Some(v) => v,
        None => return Err(FallError::NumberOverflow),
    };
    let keep: u64 = PERCENT_BASE - amm.protocol_fee_percentage as u64;
    proof {
        assert(liquidity * keep <= 0x1_0000_0000 * PERCENT_BASE) by (nonlinear_arith)
            requires
                liquidity <= 0x1_0000_0000,
                keep <= PERCENT_BASE,
        ;
        assert(liquidity * keep / (PERCENT_BASE as int) <= liquidity) by (nonlinear_arith)
            requires
                keep <= PERCENT_BASE,
        ;
    }
    let user_liquidity: u64 = liquidity * keep / PERCENT_BASE;
    let protocol_fee: u64 = liquidity - user_liquidity;
    pool.token_a_amount = new_a;
    pool.token_b_amount = new_b;
    Ok(DepositOutcome { amount_a: x, amount_b: y, user_liquidity, protocol_fee })
}

/// Depositing a pair at the reserve ratio `m` times larger mints `m` times
/// the liquidity, give or take truncation: at least `m` times as much and
/// less than `m` more than that. For `m == 2`: twice as much, or one more.
pub proof fn lemma_deposit_scales_linearly(pa: u64, pb: u64, a: u64, b: u64, m: u64)
    requires
        pa > 0,
        pb > 0,
        a * pb == b * pa,
        m >= 1,
        m * a <= u64::MAX,
        m * b <= u64::MAX,
    ensures
        accepted_amounts(pa, pb, a, b) == (a as int, b as int),
        accepted_amounts(pa, pb, (m * a) as u64, (m * b) as u64) == ((m * a) as int, (m * b) as int),
        m * minted_liquidity(pa, pb, a, b) <= minted_liquidity(pa, pb, (m * a) as u64, (m * b) as u64),
        minted_liquidity(pa, pb, (m * a) as u64, (m * b) as u64) < m * (minted_liquidity(pa, pb, a, b) + 1),
{
    let ma = (m * a) as u64;
    let mb = (m * b) as u64;
    assert((b * pa) / (pb as int) == a) by (nonlinear_arith)
        requires
            a * pb == b * pa,
            pb > 0,
    ;
    assert(mb * pa == ma * pb && (mb * pa) / (pb as int) == ma) by (nonlinear_arith)
        requires
            a * pb == b * pa,
            pb > 0,
            ma == m * a,
            mb == m * b,
    ;
    let n1 = (a * b) as nat;
    let n2 = (ma * mb) as nat;
    assert(n2 == m * m * n1) by (nonlinear_arith)
        requires
            n1 == a * b,
            n2 == ma * mb,
            ma == m * a,
            mb == m * b,
    ;
    lemma_isqrt(n1);
    lemma_isqrt(n2);
    let r1 = isqrt(n1) as int;
    let r2 = isqrt(n2) as int;
    assert((m * r1) * (m * r1) <= n2 && n2 < (m * (r1 + 1)) * (m * (r1 + 1))) by (nonlinear_arith)
        requires
            n2 == m * m * n1,
            r1 * r1 <= n1,
            n1 < (r1 + 1) * (r1 + 1),
            m >= 1,
            r1 >= 0,
    ;
    if r2 < m * r1 {
        lemma_square_monotone(r2 + 1, m * r1);
    }
    if r2 >= m * (r1 + 1) {
        lemma_square_monotone(m * (r1 + 1), r2);
    }
}

} // verus!
