//! Conservation across positions.
//!
//! A pool never owes its depositors more than it holds: however the
//! outstanding shares are split among positions, the floor values of all
//! holdings sum to at most `total_deposited`. The rounding slack always
//! favors the pool.

use vstd::prelude::*;
use crate::shares::spec_shares_to_amount;
use vstd::arithmetic::div_mod::lemma_div_multiples_vanish;
use vstd::arithmetic::div_mod::lemma_div_multiples_vanish_fancy;
use vstd::arithmetic::div_mod::lemma_div_of0;
use vstd::arithmetic::div_mod::lemma_fundamental_div_mod;
use vstd::arithmetic::div_mod::lemma_mod_division_less_than_divisor;
use vstd::arithmetic::mul::lemma_mul_is_distributive_add;

verus! {

/// Sum of the share holdings of a set of positions.
pub open spec fn sum_shares(s: Seq<u64>) -> int
    decreases s.len(),
{
    if s.len() == 0 {
        0
    } else {
        sum_shares(s.drop_last()) + s.last()
    }
}

/// Sum of the floor values those holdings can claim from the pool.
pub open spec fn sum_share_values(s: Seq<u64>, total_amount: int, total_shares: int) -> int
    decreases s.len(),
{
    if s.len() == 0 {
        0
    } else {
        sum_share_values(s.drop_last(), total_amount, total_shares) + spec_shares_to_amount(
            s.last() as int,
            total_amount,
            total_shares,
        )
    }
}

/// A sum of holdings is never negative.
proof fn lemma_sum_shares_nonneg(s: Seq<u64>)
    ensures
        0 <= sum_shares(s),
    decreases s.len(),
{
    if s.len() > 0 {
        lemma_sum_shares_nonneg(s.drop_last());
    }
}

/// Flooring division is superadditive: `x/d + y/d <= (x+y)/d`.
proof fn lemma_div_superadd(x: int, y: int, d: int)
    requires
        0 <= x,
        0 <= y,
        0 < d,
    ensures
        x / d + y / d <= (x + y) / d,
{
    lemma_fundamental_div_mod(x, d);
    lemma_fundamental_div_mod(y, d);
    lemma_mod_division_less_than_divisor(x, d);
    lemma_mod_division_less_than_divisor(y, d);
    let q = x / d + y / d;
    lemma_mul_is_distributive_add(d, x / d, y / d);
    assert(x + y == d * q + (x % d + y % d));
    if x % d + y % d < d {
        lemma_div_multiples_vanish_fancy(q, x % d + y % d, d);
    } else {
        lemma_mul_is_distributive_add(d, q, 1);
        assert(x + y == d * (q + 1) + (x % d + y % d - d));
        lemma_div_multiples_vanish_fancy(q + 1, x % d + y % d - d, d);
    }
}

/// The values of any holdings sum to at most the value of their sum.
proof fn lemma_sum_values_le(s: Seq<u64>, total_amount: int, total_shares: int)
    requires
        0 <= total_amount,
        0 < total_shares,
    ensures
        sum_share_values(s, total_amount, total_shares) <= sum_shares(s) * total_amount
            / total_shares,
    decreases s.len(),
{
    if s.len() == 0 {
        assert(0int * total_amount == 0) by (nonlinear_arith);
        lemma_div_of0(total_shares);
    } else {
        let rest = s.drop_last();
        let x = s.last() as int;
        lemma_sum_values_le(rest, total_amount, total_shares);
        lemma_sum_shares_nonneg(rest);
        assert(0 <= sum_shares(rest) * total_amount && 0 <= x * total_amount) by (nonlinear_arith)
            requires
                0 <= sum_shares(rest),
                0 <= x,
                0 <= total_amount,
        ;
        lemma_div_superadd(sum_shares(rest) * total_amount, x * total_amount, total_shares);
        assert(sum_shares(rest) * total_amount + x * total_amount == (sum_shares(rest) + x)
            * total_amount) by (nonlinear_arith);
    }
}

/// Each holding's floor value falls short of its exact share by less than
/// one unit, so the sum falls short by less than one unit per position.
proof fn lemma_sum_values_ge(s: Seq<u64>, total_amount: int, total_shares: int)
    requires
        0 <= total_amount,
        0 < total_shares,
    ensures
        total_shares * sum_share_values(s, total_amount, total_shares) >= sum_shares(s)
            * total_amount - s.len() * (total_shares - 1),
    decreases s.len(),
{
    if s.len() == 0 {
        assert(total_shares * 0 == 0 && 0int * total_amount == 0) by (nonlinear_arith);
    } else {
        let rest = s.drop_last();
        let x = s.last() as int;
        lemma_sum_values_ge(rest, total_amount, total_shares);
        assert(0 <= x * total_amount) by (nonlinear_arith)
            requires
                0 <= x,
                0 <= total_amount,
        ;
        lemma_fundamental_div_mod(x * total_amount, total_shares);
        lemma_mod_division_less_than_divisor(x * total_amount, total_shares);
        let v = x * total_amount / total_shares;
        assert(total_shares * v >= x * total_amount - (total_shares - 1));
        assert(total_shares * (sum_share_values(rest, total_amount, total_shares) + v)
            == total_shares * sum_share_values(rest, total_amount, total_shares) + total_shares
            * v) by (nonlinear_arith);
        assert((sum_shares(rest) + x) * total_amount == sum_shares(rest) * total_amount + x
            * total_amount) by (nonlinear_arith);
        assert(s.len() * (total_shares - 1) == rest.len() * (total_shares - 1) + (total_shares
            - 1)) by (nonlinear_arith)
            requires
                s.len() == rest.len() + 1,
        ;
    }
}

/// Law (conservation): when the positions' deposit shares account for all
/// of the pool's outstanding shares, the floor values they can claim sum
/// to `total_deposited` within a rounding tolerance of less than one unit
/// per position — and the tolerance favors the pool, never the positions.
pub proof fn lemma_conservation(s: Seq<u64>, total_amount: int, total_shares: int)
    requires
        0 <= total_amount,
        0 < total_shares,
        sum_shares(s) == total_shares,
    ensures
        sum_share_values(s, total_amount, total_shares) <= total_amount,
        total_amount - s.len() < sum_share_values(s, total_amount, total_shares) + 1,
{
    lemma_sum_values_le(s, total_amount, total_shares);
    lemma_div_multiples_vanish(total_amount, total_shares);
    assert(total_shares * total_amount == sum_shares(s) * total_amount) by (nonlinear_arith)
        requires
            sum_shares(s) == total_shares,
    ;
    lemma_sum_values_ge(s, total_amount, total_shares);
    let v = sum_share_values(s, total_amount, total_shares);
    assert(total_amount - s.len() < v + 1) by (nonlinear_arith)
        requires
            total_shares * v >= total_shares * total_amount - s.len() * (total_shares - 1),
            0 < total_shares,
            0 <= s.len(),
    ;
}

} // verus!
