//! RiskEngine: valuation and solvency gates.
//!
//! Collateral and debt are valued in a common unit by multiplying the
//! position's underlying amounts with oracle prices. The health factor is
//! `collateral_value * liquidation_threshold / debt_value` in `SCALE`
//! units; a position with no debt is maximally healthy. A stale, invalid
//! or zero price is never substituted with a default: it aborts the
//! operation with `InvalidPriceFeed`.

use vstd::prelude::*;
use crate::error::ErrorCode;
use crate::math::checked_mul_u64;
use crate::math::mul_div_floor;
use crate::math::SCALE;
use crate::shares::lemma_owed_le_total;
use crate::shares::lemma_value_le_total;
use crate::shares::shares_to_amount;
use crate::shares::shares_to_amount_round_up;
use crate::shares::spec_shares_to_amount;
use crate::shares::spec_shares_to_amount_round_up;
use crate::state::Bank;
use crate::state::User;

verus! {

/// One oracle reading: a fixed-point price and a validity indicator that
/// the excluded oracle layer sets from staleness and confidence.
#[derive(Clone, Copy, Debug, PartialEq, Eq, Structural)]
pub struct PriceReading {
    /// Price of one underlying unit in the common unit.
    pub price: u64,
    /// Whether the reading is fresh and trustworthy.
    pub valid: bool,
}

/// A reading the core accepts: fresh and strictly positive.
pub open spec fn spec_price_ok(p: PriceReading) -> bool {
    p.valid && p.price > 0
}

/// Validate an oracle reading.
pub fn read_price(p: &PriceReading) -> (r: Result<u64, ErrorCode>)
    ensures
        r is Ok <==> spec_price_ok(*p),
        r matches Ok(v) ==> v == p.price,
        r is Err ==> r == Err::<u64, ErrorCode>(ErrorCode::InvalidPriceFeed),
{
    if p.valid && p.price > 0 {
        Ok(p.price)
    } else {
        Err(ErrorCode::InvalidPriceFeed)
    }
}

/// Underlying units the position's collateral shares can claim (floor).
pub open spec fn spec_collateral_amount(user: User, collateral_bank: Bank) -> int {
    spec_shares_to_amount(
        user.deposited_shares as int,
        collateral_bank.total_deposited as int,
        collateral_bank.total_deposited_shares as int,
    )
}

/// Underlying units the position's borrow shares owe (rounded up).
pub open spec fn spec_debt_amount(user: User, debt_bank: Bank) -> int {
    spec_shares_to_amount_round_up(
        user.borrowed_shares as int,
        debt_bank.total_borrowed as int,
        debt_bank.total_borrowed_shares as int,
    )
}

/// Collateral value in the common unit.
pub open spec fn spec_collateral_value(user: User, collateral_bank: Bank, price: u64) -> int {
    spec_collateral_amount(user, collateral_bank) * price
}

/// Debt value in the common unit.
pub open spec fn spec_debt_value(user: User, debt_bank: Bank, price: u64) -> int {
    spec_debt_amount(user, debt_bank) * price
}

/// Largest debt value a collateral value may carry under a fraction
/// (`max_ltv` or `liquidation_threshold`) given in `SCALE` units.
pub open spec fn spec_risk_capacity(collateral_value: int, fraction: u64) -> int {
    collateral_value * fraction / (SCALE as int)
}

/// A risk capacity never exceeds the collateral value it is derived from:
/// the fraction is at most `SCALE`.
pub proof fn lemma_risk_capacity_le(collateral_value: int, fraction: u64)
    requires
        0 <= collateral_value,
        fraction <= SCALE,
    ensures
        0 <= spec_risk_capacity(collateral_value, fraction) <= collateral_value,
{
    assert(0 <= collateral_value * fraction <= collateral_value * SCALE) by (nonlinear_arith)
        requires
            0 <= collateral_value,
            0 <= fraction <= SCALE,
    ;
    vstd::arithmetic::div_mod::lemma_div_is_ordered(
        collateral_value * fraction,
        collateral_value * (SCALE as int),
        SCALE as int,
    );
    vstd::arithmetic::div_mod::lemma_div_multiples_vanish(collateral_value, SCALE as int);
    assert(collateral_value * (SCALE as int) == (SCALE as int) * collateral_value) by (nonlinear_arith);
    vstd::arithmetic::div_mod::lemma_div_pos_is_pos(collateral_value * fraction, SCALE as int);
}

/// Health: the risk-adjusted collateral covers the debt. A position with
/// zero debt value is always healthy.
pub open spec fn spec_is_healthy(collateral_value: int, debt_value: int, threshold: u64) -> bool {
    debt_value == 0 || collateral_value * threshold / debt_value >= SCALE
}

/// Underlying units of the position's collateral, as the pool stands now.
pub fn collateral_amount(user: &User, collateral_bank: &Bank) -> (r: u64)
    requires
        collateral_bank.wf(),
        user.deposited_shares <= collateral_bank.total_deposited_shares,
    ensures
        r == spec_collateral_amount(*user, *collateral_bank),
        r <= collateral_bank.total_deposited,
{
    proof {
        if collateral_bank.total_deposited_shares > 0 {
            lemma_value_le_total(
                user.deposited_shares as int,
                collateral_bank.total_deposited as int,
                collateral_bank.total_deposited_shares as int,
            );
        }
    }
    match shares_to_amount(
        user.deposited_shares,
        collateral_bank.total_deposited,
        collateral_bank.total_deposited_shares,
    ) {
        Ok(v) => v,
        Err(_) => 0,
    }
}

/// Underlying units the position owes, as the pool stands now.
pub fn debt_amount(user: &User, debt_bank: &Bank) -> (r: u64)
    requires
        debt_bank.wf(),
        user.borrowed_shares <= debt_bank.total_borrowed_shares,
    ensures
        r == spec_debt_amount(*user, *debt_bank),
        r <= debt_bank.total_borrowed,
{
    proof {
        if debt_bank.total_borrowed_shares > 0 {
            lemma_owed_le_total(
                user.borrowed_shares as int,
                debt_bank.total_borrowed as int,
                debt_bank.total_borrowed_shares as int,
            );
        }
    }
    match shares_to_amount_round_up(
        user.borrowed_shares,
        debt_bank.total_borrowed,
        debt_bank.total_borrowed_shares,
    ) {
        Ok(v) => v,
        Err(_) => 0,
    }
}

/// The position's health factor in `SCALE` units: `None` is maximal
/// health (no debt). Fails with `InvalidPriceFeed` on a bad reading of
/// either oracle, and `MathOverflow` when a value leaves `u64`.
pub fn health_factor(
    user: &User,
    collateral_bank: &Bank,
    debt_bank: &Bank,
    collateral_price: &PriceReading,
    debt_price: &PriceReading,
) -> (r: Result<Option<u64>, ErrorCode>)
    requires
        collateral_bank.wf(),
        debt_bank.wf(),
        user.wf_in(*collateral_bank, *debt_bank),
    ensures
        !(spec_price_ok(*collateral_price) && spec_price_ok(*debt_price)) <==> r == Err::<
            Option<u64>,
            ErrorCode,
        >(ErrorCode::InvalidPriceFeed),
        spec_price_ok(*collateral_price) && spec_price_ok(*debt_price) && spec_debt_amount(
            *user,
            *debt_bank,
        ) == 0 ==> r == Ok::<Option<u64>, ErrorCode>(None),
        r matches Ok(h) ==> (h is None <==> spec_debt_amount(*user, *debt_bank) == 0),
        r matches Ok(Some(h)) ==> {
            &&& spec_debt_value(*user, *debt_bank, debt_price.price) > 0
            &&& h == spec_collateral_value(*user, *collateral_bank, collateral_price.price)
                * collateral_bank.liquidation_threshold / spec_debt_value(
                *user,
                *debt_bank,
                debt_price.price,
            )
            &&& (h >= SCALE <==> spec_is_healthy(
                spec_collateral_value(*user, *collateral_bank, collateral_price.price),
                spec_debt_value(*user, *debt_bank, debt_price.price),
                collateral_bank.liquidation_threshold,
            ))
        },
        spec_price_ok(*collateral_price) && spec_price_ok(*debt_price) && spec_debt_amount(
            *user,
            *debt_bank,
        ) != 0 ==> (r is Ok <==> {
            &&& spec_collateral_value(*user, *collateral_bank, collateral_price.price) <= u64::MAX
            &&& spec_debt_value(*user, *debt_bank, debt_price.price) <= u64::MAX
            &&& spec_collateral_value(*user, *collateral_bank, collateral_price.price)
                * collateral_bank.liquidation_threshold / spec_debt_value(
                *user,
                *debt_bank,
                debt_price.price,
            ) <= u64::MAX
        }),
        r matches Err(e) ==> (e == ErrorCode::InvalidPriceFeed || e == ErrorCode::MathOverflow),
{
    let pc = match read_price(collateral_price) {
        Ok(v) => v,
        Err(e) => {
            return Err(e);
        },
    };
    let pd = match read_price(debt_price) {
        Ok(v) => v,
        Err(e) => {
            return Err(e);
        },
    };
    let d_amount = debt_amount(user, debt_bank);
    if d_amount == 0 {
        return Ok(None);
    }
    let d_value = match checked_mul_u64(d_amount, pd) {
        Ok(v) => v,
        Err(e) => {
            return Err(e);
        },
    };
    let c_amount = collateral_amount(user, collateral_bank);
    let c_value = match checked_mul_u64(c_amount, pc) {
        Ok(v) => v,
        Err(e) => {
            return Err(e);
        },
    };
    proof {
        assert(d_value > 0) by (nonlinear_arith)
            requires
                d_value == d_amount * pd,
                d_amount > 0,
                pd > 0,
        ;
    }
    match mul_div_floor(c_value, collateral_bank.liquidation_threshold, d_value) {
        Ok(h) => Ok(Some(h)),
        Err(e) => Err(e),
    }
}

} // verus!
