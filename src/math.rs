use vstd::prelude::*;
use fixed::types::I64F64;

verus! {

/// Integer square root: the largest `r` with `r * r <= n`.
pub open spec fn isqrt(n: nat) -> nat
    decreases n,
{
    if n == 0 {
        0
    } else {
        let r = isqrt((n - 1) as nat);
        if (r + 1) * (r + 1) <= n {
            r + 1
        } else {
            r
        }
    }
}

/// `r` is the integer square root of `n`.
pub open spec fn is_isqrt(n: int, r: int) -> bool {
    0 <= r && r * r <= n && n < (r + 1) * (r + 1)
}

proof fn lemma_square_step(s: int, n: int)
    requires
        0 <= s,
        s * s <= n,
        n - 1 < s * s,
    ensures
        n < (s + 1) * (s + 1),
{
    assert((s + 1) * (s + 1) == s * s + 2 * s + 1) by (nonlinear_arith);
}

/// `isqrt` meets its defining bounds.
pub proof fn lemma_isqrt(n: nat)
    ensures
        is_isqrt(n as int, isqrt(n) as int),
    decreases n,
{
    if n > 0 {
        lemma_isqrt((n - 1) as nat);
        let r = isqrt((n - 1) as nat);
        if (r + 1) * (r + 1) <= n {
            lemma_square_step((r + 1) as int, n as int);
        }
    }
}

/// Squares are monotone on the naturals.
pub proof fn lemma_square_monotone(a: int, b: int)
    requires
        0 <= a <= b,
    ensures
        a * a <= b * b,
{
    assert(a * a <= b * b) by (nonlinear_arith)
        requires
            0 <= a <= b,
    ;
}

/// The integer square root is unique.
pub proof fn lemma_isqrt_unique(n: nat, r: int)
    requires
        is_isqrt(n as int, r),
    ensures
        r == isqrt(n),
{
    lemma_isqrt(n);
    let q = isqrt(n) as int;
    if r < q {
        lemma_square_monotone(r + 1, q);
    } else if q < r {
        lemma_square_monotone(q + 1, r);
    }
}

/// A product of two `u64` values fits in a `u128`.
pub proof fn lemma_mul_u64_fits_u128(a: u64, b: u64)
    ensures
        0 <= a * b <= u64::MAX * u64::MAX,
        u64::MAX * u64::MAX < u128::MAX,
{
    assert(0 <= a * b <= u64::MAX * u64::MAX) by (nonlinear_arith)
        requires
            a <= u64::MAX,
            b <= u64::MAX,
    ;
}

/// Dividing a natural number by a positive one does not make it larger.
pub proof fn lemma_div_le(x: int, d: int)
    requires
        0 <= x,
        1 <= d,
    ensures
        0 <= x / d <= x,
{
    assert(0 <= x / d <= x) by (nonlinear_arith)
        requires
            0 <= x,
            1 <= d,
    ;
}

/// Floor of the square root of `a * b`, computed in 64.64 fixed point; `None`
/// when the product does not fit the fixed-point range.
///
/// Relies on fixed's `I64F64`: `from_num` (exact for these integers),
/// `checked_mul` (`None` exactly when the product leaves the range, whose
/// integer part is at most `i64::MAX`), `sqrt` (rounded down, with an error
/// below one unit in the last place) and `to_num` (drops the fraction).
#[verifier::external_body]
fn fixed_sqrt_of_product(a: u64, b: u64) -> (r: Option<u64>)
    requires
        a <= i64::MAX,
        b <= i64::MAX,
    ensures
        r is None <==> a * b > i64::MAX,
        r matches Some(s) ==> is_isqrt(a * b, s as int),
{
    match I64F64::from_num(a).checked_mul(I64F64::from_num(b)) {
        Some(p) => Some(p.sqrt().to_num::<u64>()),
        None => None,
    }
}

/// Geometric mean of two amounts, rounded down; `None` when `a * b` exceeds
/// `i64::MAX`.
pub fn sqrt_of_product(a: u64, b: u64) -> (r: Option<u64>)
    ensures
        r is None <==> a * b > i64::MAX,
        r matches Some(s) ==> s == isqrt((a * b) as nat),
{
    if a > i64::MAX as u64 || b > i64::MAX as u64 {
        if a == 0 || b == 0 {
            return Some(0);
        }
        proof {
            assert(a * b >= a && a * b >= b) by (nonlinear_arith)
                requires
                    a >= 1,
                    b >= 1,
            ;
        }
        return None;
    }
    let r = fixed_sqrt_of_product(a, b);
    proof {
        if let Some(s) = r {
            lemma_isqrt_unique((a * b) as nat, s as int);
        }
    }
    r
}

} // verus!
