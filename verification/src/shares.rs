//! ShareLedger: conversions between shares and underlying amounts.
//!
//! A pool's deposit side and borrow side each have their own share type
//! with exchange rate `total_amount / total_shares`. Rounding always
//! favors the pool, never the acting account: share issuance for deposits
//! rounds down, everything charged to an account (debt shares issued,
//! shares burned on withdrawal or repayment, amounts owed) rounds up,
//! and amounts paid out round down.

use vstd::prelude::*;
use crate::error::ErrorCode;
use crate::math::div_ceil;
use crate::math::mul_div_ceil;
use crate::math::mul_div_floor;
use vstd::arithmetic::div_mod::lemma_div_is_ordered;
use vstd::arithmetic::div_mod::lemma_div_multiples_vanish;
use vstd::arithmetic::div_mod::lemma_div_pos_is_pos;
use vstd::arithmetic::div_mod::lemma_fundamental_div_mod;
use vstd::arithmetic::div_mod::lemma_mod_division_less_than_divisor;

verus! {

/// Shares issued for depositing `amount`: 1:1 on the first deposit,
/// otherwise `amount * total_shares / total_amount` rounded down.
pub open spec fn spec_amount_to_shares(amount: int, total_amount: int, total_shares: int) -> int {
    if total_shares == 0 {
        amount
    } else {
        amount * total_shares / total_amount
    }
}

/// Shares charged for `amount`, rounded up: 1:1 on the first borrow,
/// otherwise the ceiling of `amount * total_shares / total_amount`. Used
/// when issuing debt shares and when burning shares on a withdrawal or
/// repayment, so the rounding error never favors the acting account.
pub open spec fn spec_amount_to_shares_round_up(
    amount: int,
    total_amount: int,
    total_shares: int,
) -> int {
    if total_shares == 0 {
        amount
    } else {
        div_ceil(amount * total_shares, total_amount)
    }
}

/// Underlying amount `shares` can claim, rounded down: the payout direction.
pub open spec fn spec_shares_to_amount(shares: int, total_amount: int, total_shares: int) -> int {
    if total_shares == 0 {
        0
    } else {
        shares * total_amount / total_shares
    }
}

/// Underlying amount `shares` owe, rounded up: the debt direction, so a
/// borrower can never under-repay through rounding.
pub open spec fn spec_shares_to_amount_round_up(
    shares: int,
    total_amount: int,
    total_shares: int,
) -> int {
    if total_shares == 0 {
        0
    } else {
        div_ceil(shares * total_amount, total_shares)
    }
}

/// Deposit-share issuance (rounds down, 1:1 bootstrap).
pub fn amount_to_shares(amount: u64, total_amount: u64, total_shares: u64) -> (r: Result<
    u64,
    ErrorCode,
>)
    requires
        total_shares != 0 ==> total_amount != 0,
    ensures
        r is Ok <==> spec_amount_to_shares(
            amount as int,
            total_amount as int,
            total_shares as int,
        ) <= u64::MAX,
        r matches Ok(v) ==> v == spec_amount_to_shares(
            amount as int,
            total_amount as int,
            total_shares as int,
        ),
        r is Err ==> r == Err::<u64, ErrorCode>(ErrorCode::MathOverflow),
{
    if total_shares == 0 {
        Ok(amount)
    } else {
        mul_div_floor(amount, total_shares, total_amount)
    }
}

/// Share charge for an amount (rounds up, 1:1 bootstrap).
pub fn amount_to_shares_round_up(amount: u64, total_amount: u64, total_shares: u64) -> (r: Result<
    u64,
    ErrorCode,
>)
    requires
        total_shares != 0 ==> total_amount != 0,
    ensures
        r is Ok <==> spec_amount_to_shares_round_up(
            amount as int,
            total_amount as int,
            total_shares as int,
        ) <= u64::MAX,
        r matches Ok(v) ==> v == spec_amount_to_shares_round_up(
            amount as int,
            total_amount as int,
            total_shares as int,
        ),
        r is Err ==> r == Err::<u64, ErrorCode>(ErrorCode::MathOverflow),
{
    if total_shares == 0 {
        Ok(amount)
    } else {
        mul_div_ceil(amount, total_shares, total_amount)
    }
}

/// Amount a holding of shares can claim (rounds down).
pub fn shares_to_amount(shares: u64, total_amount: u64, total_shares: u64) -> (r: Result<
    u64,
    ErrorCode,
>)
    ensures
        r is Ok <==> spec_shares_to_amount(
            shares as int,
            total_amount as int,
            total_shares as int,
        ) <= u64::MAX,
        r matches Ok(v) ==> v == spec_shares_to_amount(
            shares as int,
            total_amount as int,
            total_shares as int,
        ),
        r is Err ==> r == Err::<u64, ErrorCode>(ErrorCode::MathOverflow),
{
    if total_shares == 0 {
        Ok(0)
    } else {
        mul_div_floor(shares, total_amount, total_shares)
    }
}

/// Amount a holding of debt shares owes (rounds up).
pub fn shares_to_amount_round_up(shares: u64, total_amount: u64, total_shares: u64) -> (r: Result<
    u64,
    ErrorCode,
>)
    ensures
        r is Ok <==> spec_shares_to_amount_round_up(
            shares as int,
            total_amount as int,
            total_shares as int,
        ) <= u64::MAX,
        r matches Ok(v) ==> v == spec_shares_to_amount_round_up(
            shares as int,
            total_amount as int,
            total_shares as int,
        ),
        r is Err ==> r == Err::<u64, ErrorCode>(ErrorCode::MathOverflow),
{
    if total_shares == 0 {
        Ok(0)
    } else {
        mul_div_ceil(shares, total_amount, total_shares)
    }
}

/// The share price `amount1 / shares1` is at most `amount2 / shares2`,
/// stated without division so that empty pools are covered.
pub open spec fn share_price_le(amount1: int, shares1: int, amount2: int, shares2: int) -> bool {
    amount1 * shares2 <= amount2 * shares1
}

/// Law (share price monotonicity): the price order composes across a
/// sequence of operations. Deposits and accruals each leave
/// `total_deposited / total_deposit_shares` no smaller, so by chaining
/// this step the price is non-decreasing over any such sequence.
pub proof fn lemma_share_price_le_trans(
    a1: int,
    s1: int,
    a2: int,
    s2: int,
    a3: int,
    s3: int,
)
    requires
        0 <= a1,
        0 <= s1,
        0 <= a2,
        0 < s2,
        0 <= a3,
        0 <= s3,
        share_price_le(a1, s1, a2, s2),
        share_price_le(a2, s2, a3, s3),
    ensures
        share_price_le(a1, s1, a3, s3),
{
    assert((a1 * s3) * s2 <= (a3 * s1) * s2) by (nonlinear_arith)
        requires
            a1 * s2 <= a2 * s1,
            a2 * s3 <= a3 * s2,
            0 <= s1,
            0 <= s3,
            0 <= a2,
            0 < s2,
    ;
    assert(a1 * s3 <= a3 * s1) by (nonlinear_arith)
        requires
            (a1 * s3) * s2 <= (a3 * s1) * s2,
            0 < s2,
    ;
}

/// Bounds of flooring division: `d * (x / d)` is within `d` below `x`.
pub proof fn lemma_floor_bounds(x: int, d: int)
    requires
        0 <= x,
        0 < d,
    ensures
        0 <= x / d,
        d * (x / d) <= x,
        x < d * (x / d) + d,
{
    lemma_fundamental_div_mod(x, d);
    lemma_mod_division_less_than_divisor(x, d);
    lemma_div_pos_is_pos(x, d);
}

/// Bounds of ceiling division: `d * div_ceil(x, d)` is within `d` above `x`.
pub proof fn lemma_ceil_bounds(x: int, d: int)
    requires
        0 <= x,
        0 < d,
    ensures
        0 <= div_ceil(x, d),
        x <= d * div_ceil(x, d),
        d * div_ceil(x, d) < x + d,
{
    lemma_fundamental_div_mod(x + d - 1, d);
    lemma_mod_division_less_than_divisor(x + d - 1, d);
    lemma_div_pos_is_pos(x + d - 1, d);
}

/// Burning shares for an amount within the holding's floor value never
/// burns more shares than the holding has.
pub proof fn lemma_burn_le_holding(amount: int, holding: int, total_amount: int, total_shares: int)
    requires
        0 <= amount,
        0 <= holding,
        0 < total_amount,
        0 < total_shares,
        amount <= spec_shares_to_amount(holding, total_amount, total_shares),
    ensures
        spec_amount_to_shares_round_up(amount, total_amount, total_shares) <= holding,
        0 <= spec_amount_to_shares_round_up(amount, total_amount, total_shares),
{
    // amount <= holding * total_amount / total_shares, so
    // amount * total_shares <= holding * total_amount.
    lemma_floor_bounds(holding * total_amount, total_shares);
    assert(amount * total_shares <= holding * total_amount) by (nonlinear_arith)
        requires
            0 < total_shares,
            amount <= (holding * total_amount) / total_shares,
            total_shares * ((holding * total_amount) / total_shares) <= holding * total_amount,
    ;
    lemma_ceil_bounds(amount * total_shares, total_amount);
    // total_amount * ceil < amount * total_shares + total_amount
    //                    <= holding * total_amount + total_amount,
    // so ceil < holding + 1.
    assert(div_ceil(amount * total_shares, total_amount) <= holding) by (nonlinear_arith)
        requires
            0 < total_amount,
            0 <= holding,
            total_amount * div_ceil(amount * total_shares, total_amount) < amount * total_shares
                + total_amount,
            amount * total_shares <= holding * total_amount,
    ;
    assert(0 <= amount * total_shares) by (nonlinear_arith)
        requires
            0 <= amount,
            0 < total_shares,
    ;
    lemma_ceil_bounds(amount * total_shares, total_amount);
}

/// The amount owed by a holding of debt shares, rounded up, never exceeds
/// the pool's total owed amount.
pub proof fn lemma_owed_le_total(holding: int, total_amount: int, total_shares: int)
    requires
        0 <= holding <= total_shares,
        0 <= total_amount,
        0 < total_shares,
    ensures
        spec_shares_to_amount_round_up(holding, total_amount, total_shares) <= total_amount,
        0 <= spec_shares_to_amount_round_up(holding, total_amount, total_shares),
{
    assert(holding * total_amount <= total_shares * total_amount) by (nonlinear_arith)
        requires
            0 <= holding <= total_shares,
            0 <= total_amount,
    ;
    assert(0 <= holding * total_amount) by (nonlinear_arith)
        requires
            0 <= holding,
            0 <= total_amount,
    ;
    lemma_ceil_bounds(holding * total_amount, total_shares);
    // total_shares * ceil < holding * total_amount + total_shares
    //                    <= total_shares * total_amount + total_shares
    assert(div_ceil(holding * total_amount, total_shares) <= total_amount) by (nonlinear_arith)
        requires
            0 < total_shares,
            0 <= total_amount,
            total_shares * div_ceil(holding * total_amount, total_shares) < holding * total_amount
                + total_shares,
            holding * total_amount <= total_shares * total_amount,
    ;
}

/// The floor value of a holding never exceeds the pool's total amount.
pub proof fn lemma_value_le_total(holding: int, total_amount: int, total_shares: int)
    requires
        0 <= holding <= total_shares,
        0 <= total_amount,
        0 < total_shares,
    ensures
        spec_shares_to_amount(holding, total_amount, total_shares) <= total_amount,
        0 <= spec_shares_to_amount(holding, total_amount, total_shares),
{
    assert(holding * total_amount <= total_shares * total_amount) by (nonlinear_arith)
        requires
            0 <= holding <= total_shares,
            0 <= total_amount,
    ;
    assert(0 <= holding * total_amount) by (nonlinear_arith)
        requires
            0 <= holding,
            0 <= total_amount,
    ;
    lemma_div_is_ordered(holding * total_amount, total_shares * total_amount, total_shares);
    lemma_div_multiples_vanish(total_amount, total_shares);
    lemma_floor_bounds(holding * total_amount, total_shares);
}

/// Law: the first deposit into an empty pool is an exact round trip — an
/// amount `a` yields exactly `a` shares, and those `a` shares are then
/// worth exactly `a`.
pub proof fn lemma_bootstrap_round_trip(a: int)
    requires
        1 <= a,
    ensures
        spec_amount_to_shares(a, 0, 0) == a,
        spec_shares_to_amount(a, a, a) == a,
{
    lemma_div_multiples_vanish(a, a);
}

/// Law: a deposit of `a` followed immediately by a withdrawal returns at
/// most `a`. The most the depositor can take out is the floor value of the
/// shares just issued, and that value never exceeds what was put in:
/// rounding never favors the account, however often this is repeated.
pub proof fn lemma_round_trip_never_gains(a: int, total_amount: int, total_shares: int)
    requires
        1 <= a,
        0 <= total_amount,
        0 <= total_shares,
        total_amount == 0 <==> total_shares == 0,
    ensures
        ({
            let s = spec_amount_to_shares(a, total_amount, total_shares);
            spec_shares_to_amount(s, total_amount + a, total_shares + s) <= a
        }),
{
    let s = spec_amount_to_shares(a, total_amount, total_shares);
    if total_shares == 0 {
        // bootstrap: s == a, value == a * (0 + a) / (0 + a) == a
        lemma_div_multiples_vanish(a, a);
        assert(a * a / a == a);
    } else {
        // s == a * total_shares / total_amount, so s * total_amount <= a * total_shares.
        assert(0 <= a * total_shares) by (nonlinear_arith)
            requires
                0 <= a,
                0 <= total_shares,
        ;
        lemma_floor_bounds(a * total_shares, total_amount);
        assert(total_amount * s <= a * total_shares);
        // hence s * (total_amount + a) <= a * (total_shares + s)
        assert(s * (total_amount + a) <= a * (total_shares + s)) by (nonlinear_arith)
            requires
                total_amount * s <= a * total_shares,
        ;
        assert(0 <= s * (total_amount + a)) by (nonlinear_arith)
            requires
                0 <= s,
                0 <= total_amount,
                0 <= a,
        ;
        lemma_div_is_ordered(
            s * (total_amount + a),
            a * (total_shares + s),
            total_shares + s,
        );
        lemma_div_multiples_vanish(a, total_shares + s);
        assert((total_shares + s) * a == a * (total_shares + s)) by (nonlinear_arith);
    }
}

} // verus!
