//! Overflow-checked fixed-point arithmetic.
//!
//! Every arithmetic step of the ledger goes through these primitives. Any
//! overflow, underflow or division by zero yields `ErrorCode::MathOverflow`,
//! and the enclosing operation aborts with no state committed.

use vstd::prelude::*;
use crate::error::ErrorCode;

verus! {

/// Fixed-point denominator for fractions (loan-to-value, thresholds,
/// bonuses, close factors): a value of `SCALE` means 1.0.
pub const SCALE: u64 = 10_000;

/// Fixed-point denominator of the interest rate, per unit of elapsed time.
pub const RATE_SCALE: u64 = 10_000;

/// `x / d` rounded towards positive infinity, for `x >= 0`, `d > 0`.
pub open spec fn div_ceil(x: int, d: int) -> int {
    (x + d - 1) / d
}

/// Checked addition: `Ok(a + b)` exactly when the sum fits in `u64`.
pub fn checked_add_u64(a: u64, b: u64) -> (r: Result<u64, ErrorCode>)
    ensures
        r is Ok <==> a + b <= u64::MAX,
        r matches Ok(v) ==> v == a + b,
        r is Err ==> r == Err::<u64, ErrorCode>(ErrorCode::MathOverflow),
{
    if a <= u64::MAX - b {
        Ok(a + b)
    } else {
        Err(ErrorCode::MathOverflow)
    }
}

/// Checked subtraction: `Ok(a - b)` exactly when `b <= a`.
pub fn checked_sub_u64(a: u64, b: u64) -> (r: Result<u64, ErrorCode>)
    ensures
        r is Ok <==> b <= a,
        r matches Ok(v) ==> v == a - b,
        r is Err ==> r == Err::<u64, ErrorCode>(ErrorCode::MathOverflow),
{
    if b <= a {
        Ok(a - b)
    } else {
        Err(ErrorCode::MathOverflow)
    }
}

/// Checked multiplication: `Ok(a * b)` exactly when the product fits in `u64`.
pub fn checked_mul_u64(a: u64, b: u64) -> (r: Result<u64, ErrorCode>)
    ensures
        r is Ok <==> a * b <= u64::MAX,
        r matches Ok(v) ==> v == a * b,
        r is Err ==> r == Err::<u64, ErrorCode>(ErrorCode::MathOverflow),
{
    proof {
        lemma_u64_mul_fits_u128(a, b);
    }
    let p: u128 = (a as u128) * (b as u128);
    if p <= u64::MAX as u128 {
        Ok(p as u64)
    } else {
        Err(ErrorCode::MathOverflow)
    }
}

/// `a * b / c` rounded down, computed through a 128-bit intermediate so the
/// product itself cannot overflow: `Ok` exactly when `c > 0` and the
/// quotient fits in `u64`.
pub fn mul_div_floor(a: u64, b: u64, c: u64) -> (r: Result<u64, ErrorCode>)
    ensures
        r is Ok <==> c != 0 && a * b / (c as int) <= u64::MAX,
        r matches Ok(v) ==> v == a * b / (c as int),
        r is Err ==> r == Err::<u64, ErrorCode>(ErrorCode::MathOverflow),
{
    if c == 0 {
        return Err(ErrorCode::MathOverflow);
    }
    proof {
        lemma_u64_mul_fits_u128(a, b);
    }
    let p: u128 = (a as u128) * (b as u128);
    let q: u128 = p / (c as u128);
    if q <= u64::MAX as u128 {
        Ok(q as u64)
    } else {
        Err(ErrorCode::MathOverflow)
    }
}

/// `a * b / c` rounded up, through a 128-bit intermediate: `Ok` exactly
/// when `c > 0` and the rounded-up quotient fits in `u64`.
pub fn mul_div_ceil(a: u64, b: u64, c: u64) -> (r: Result<u64, ErrorCode>)
    ensures
        r is Ok <==> c != 0 && div_ceil(a * b, c as int) <= u64::MAX,
        r matches Ok(v) ==> v == div_ceil(a * b, c as int),
        r is Err ==> r == Err::<u64, ErrorCode>(ErrorCode::MathOverflow),
{
    if c == 0 {
        return Err(ErrorCode::MathOverflow);
    }
    proof {
        lemma_u64_mul_fits_u128(a, b);
        assert(a * b + c - 1 <= u128::MAX) by (nonlinear_arith)
            requires
                a <= u64::MAX,
                b <= u64::MAX,
                0 < c <= u64::MAX,
                u64::MAX < u128::MAX,
                a * b <= u64::MAX * u64::MAX,
        ;
    }
    let p: u128 = (a as u128) * (b as u128);
    let q: u128 = (p + (c - 1) as u128) / (c as u128);
    if q <= u64::MAX as u128 {
        Ok(q as u64)
    } else {
        Err(ErrorCode::MathOverflow)
    }
}

/// The product of two `u64` values fits in a `u128`.
proof fn lemma_u64_mul_fits_u128(a: u64, b: u64)
    ensures
        a * b <= u64::MAX * u64::MAX < u128::MAX,
{
    assert(a * b <= u64::MAX * u64::MAX) by (nonlinear_arith)
        requires
            a <= u64::MAX,
            b <= u64::MAX,
    ;
    assert(u64::MAX * u64::MAX < u128::MAX);
}

} // verus!
