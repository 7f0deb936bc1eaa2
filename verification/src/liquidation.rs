//! LiquidationEngine: third-party repayment of unhealthy positions.
//!
//! When a position's health factor falls below 1.0 (in `SCALE` units), a
//! liquidator may repay part of its debt — at most the close factor's
//! fraction of the debt value — and seize collateral worth the repayment
//! plus a bonus. The debt is reduced exactly as in a repayment and the
//! collateral exactly as in a withdrawal, bypassing the health gate. A
//! seizure is capped by the position's actual collateral and the pool's
//! idle liquidity: the shortfall is absorbed as bad debt, never a panic.

use vstd::prelude::*;
use crate::accrual::accrued_bank;
use crate::accrual::spec_accrue;
use crate::accrual::spec_accrue_ok;
use crate::error::ErrorCode;
use crate::math::checked_mul_u64;
use crate::math::mul_div_floor;
use crate::math::SCALE;
use crate::ops::spec_repay_bank;
use crate::ops::spec_repay_user;
use crate::ops::spec_withdraw_burn;
use crate::risk::collateral_amount;
use crate::risk::debt_amount;
use crate::risk::lemma_risk_capacity_le;
use crate::risk::read_price;
use crate::risk::spec_collateral_amount;
use crate::risk::spec_collateral_value;
use crate::risk::spec_debt_value;
use crate::risk::spec_is_healthy;
use crate::risk::spec_price_ok;
use crate::risk::spec_risk_capacity;
use crate::risk::PriceReading;
use crate::shares::lemma_floor_bounds;
use crate::shares::lemma_value_le_total;
use crate::shares::spec_shares_to_amount;
use crate::state::Bank;
use crate::state::User;
use vstd::arithmetic::div_mod::lemma_div_multiples_vanish;

verus! {

/// What a successful liquidation moved: the debt units the liquidator
/// paid in, and the collateral units seized for the liquidator.
#[derive(Clone, Copy, Debug, PartialEq, Eq, Structural)]
pub struct LiquidationOutcome {
    /// Debt-asset units transferred from the liquidator to the pool.
    pub repaid: u64,
    /// Collateral-asset units transferred from the pool to the liquidator.
    pub seized: u64,
}

/// Collateral units seized for repaying `repay_value` worth of debt:
/// the bonus-adjusted value at the collateral price, capped by the
/// position's actual collateral and by the pool's idle liquidity.
pub open spec fn spec_seize_amount(
    cb: Bank,
    u: User,
    repay_value: int,
    collateral_price: u64,
) -> int {
    let seize_value = repay_value * (SCALE + cb.liquidation_bonus) / (SCALE as int);
    let entitled = seize_value / (collateral_price as int);
    let holding = spec_collateral_amount(u, cb);
    let liquidity = cb.available_liquidity();
    if entitled <= holding && entitled <= liquidity {
        entitled
    } else if holding <= liquidity {
        holding
    } else {
        liquidity
    }
}

/// Deposit shares burned for a seizure. A seizure of the position's whole
/// collateral value burns every remaining deposit share, so a fully
/// seized position ends at zero and any sub-unit dust favors the pool;
/// a partial seizure burns the rounded-up withdrawal conversion.
pub open spec fn spec_seize_burn(cb: Bank, u: User, seized: u64) -> int {
    if seized == spec_collateral_amount(u, cb) {
        u.deposited_shares as int
    } else {
        spec_withdraw_burn(cb, seized)
    }
}

/// The (accrued) collateral pool after the seizure.
pub open spec fn spec_seize_bank(cb: Bank, u: User, seized: u64) -> Bank {
    Bank {
        total_deposited: (cb.total_deposited - seized) as u64,
        total_deposited_shares: (cb.total_deposited_shares - spec_seize_burn(
            cb,
            u,
            seized,
        )) as u64,
        ..cb
    }
}

/// The position's collateral slot after the seizure.
pub open spec fn spec_seize_user(cb: Bank, u: User, seized: u64, now: i64) -> User {
    let burn = spec_seize_burn(cb, u, seized);
    let nb = spec_seize_bank(cb, u, seized);
    User {
        deposited_shares: (u.deposited_shares - burn) as u64,
        deposited_amount: spec_shares_to_amount(
            u.deposited_shares - burn,
            nb.total_deposited as int,
            nb.total_deposited_shares as int,
        ) as u64,
        last_updated_deposited: now,
        ..u
    }
}

/// Why a liquidation fails, in the order the checks run: accrual of both
/// pools, the oracle readings, valuation arithmetic, the health gate
/// (`HealthyAccount` on a solvent position), the close-factor gate, and
/// the seizure arithmetic.
pub open spec fn spec_liquidate_err(
    db: Bank,
    cb: Bank,
    u: User,
    repay_amount: u64,
    debt_price: PriceReading,
    collateral_price: PriceReading,
    now: i64,
) -> Option<ErrorCode> {
    if !spec_accrue_ok(db, now) {
        Some(ErrorCode::MathOverflow)
    } else if !spec_accrue_ok(cb, now) {
        Some(ErrorCode::MathOverflow)
    } else {
        let adb = spec_accrue(db, now);
        let acb = spec_accrue(cb, now);
        if !(spec_price_ok(debt_price) && spec_price_ok(collateral_price)) {
            Some(ErrorCode::InvalidPriceFeed)
        } else if spec_debt_value(u, adb, debt_price.price) > u64::MAX {
            Some(ErrorCode::MathOverflow)
        } else if spec_collateral_value(u, acb, collateral_price.price) > u64::MAX {
            Some(ErrorCode::MathOverflow)
        } else if spec_is_healthy(
            spec_collateral_value(u, acb, collateral_price.price),
            spec_debt_value(u, adb, debt_price.price),
            acb.liquidation_threshold,
        ) {
            Some(ErrorCode::HealthyAccount)
        } else if repay_amount * debt_price.price > u64::MAX {
            Some(ErrorCode::MathOverflow)
        } else if repay_amount * debt_price.price > spec_risk_capacity(
            spec_debt_value(u, adb, debt_price.price),
            adb.liquidation_close_factor,
        ) {
            Some(ErrorCode::OverRepayRequest)
        } else if repay_amount == adb.total_borrowed && u.borrowed_shares
            < adb.total_borrowed_shares {
            Some(ErrorCode::OverRepayRequest)
        } else if repay_amount * debt_price.price * (SCALE + acb.liquidation_bonus) / (
        SCALE as int) > u64::MAX {
            Some(ErrorCode::MathOverflow)
        } else {
            None
        }
    }
}

/// Liquidate an unhealthy position: repay `repay_amount` of its debt and
/// seize bonus-adjusted collateral.
///
/// Fails `HealthyAccount` exactly when the position's health factor is at
/// least 1.0 (a position with no debt is always healthy), and
/// `OverRepayRequest` when the repayment's value exceeds
/// `debt_value * liquidation_close_factor`. The debt pool is reduced as
/// in `repay`, the collateral pool as in `withdraw` without the health
/// gate; the seizure is capped at the position's collateral and the
/// pool's idle liquidity, absorbing any shortfall as bad debt.
pub fn liquidate(
    bank: &mut Bank,
    collateral_bank: &mut Bank,
    user: &mut User,
    repay_amount: u64,
    debt_price: &PriceReading,
    collateral_price: &PriceReading,
    now: i64,
) -> (r: Result<LiquidationOutcome, ErrorCode>)
    requires
        old(bank).wf(),
        old(collateral_bank).wf(),
        old(user).wf_in(*old(collateral_bank), *old(bank)),
        repay_amount > 0,
        now >= 0,
    ensures
        final(bank).wf(),
        final(collateral_bank).wf(),
        final(user).wf_in(*final(collateral_bank), *final(bank)),
        r is Err <==> spec_liquidate_err(
            *old(bank),
            *old(collateral_bank),
            *old(user),
            repay_amount,
            *debt_price,
            *collateral_price,
            now,
        ) is Some,
        r matches Err(e) ==> {
            &&& Some(e) == spec_liquidate_err(
                *old(bank),
                *old(collateral_bank),
                *old(user),
                repay_amount,
                *debt_price,
                *collateral_price,
                now,
            )
            &&& *final(bank) == *old(bank)
            &&& *final(collateral_bank) == *old(collateral_bank)
            &&& *final(user) == *old(user)
        },
        r matches Ok(out) ==> {
            let adb = spec_accrue(*old(bank), now);
            let acb = spec_accrue(*old(collateral_bank), now);
            let seized = spec_seize_amount(
                acb,
                *old(user),
                repay_amount * debt_price.price,
                collateral_price.price,
            );
            &&& out.repaid == repay_amount
            &&& out.seized == seized
            &&& *final(bank) == spec_repay_bank(adb, *old(user), repay_amount)
            &&& *final(collateral_bank) == spec_seize_bank(acb, *old(user), seized as u64)
            &&& *final(user) == spec_seize_user(
                acb,
                spec_repay_user(adb, *old(user), repay_amount, now),
                seized as u64,
                now,
            )
            // a seizure capped at the whole collateral value empties the slot
            &&& (seized == spec_collateral_amount(*old(user), acb)
                ==> final(user).deposited_shares == 0)
        },
{
    let adb = match accrued_bank(bank, now) {
        Ok(v) => v,
        Err(e) => {
            return Err(e);
        },
    };
    let acb = match accrued_bank(collateral_bank, now) {
        Ok(v) => v,
        Err(e) => {
            return Err(e);
        },
    };
    let pd = match read_price(debt_price) {
        Ok(v) => v,
        Err(e) => {
            return Err(e);
        },
    };
    let pc = match read_price(collateral_price) {
        Ok(v) => v,
        Err(e) => {
            return Err(e);
        },
    };
    let d_amount = debt_amount(user, &adb);
    let d_value = match checked_mul_u64(d_amount, pd) {
        Ok(v) => v,
        Err(e) => {
            return Err(e);
        },
    };
    let c_amount = collateral_amount(user, &acb);
    let c_value = match checked_mul_u64(c_amount, pc) {
        Ok(v) => v,
        Err(e) => {
            return Err(e);
        },
    };
    proof {
        lemma_risk_capacity_le(d_value as int, adb.liquidation_close_factor);
    }
    if d_value == 0 {
        return Err(ErrorCode::HealthyAccount);
    }
    // a quotient past u64 only means the position is amply healthy
    let healthy: bool = match mul_div_floor(c_value, acb.liquidation_threshold, d_value) {
        Ok(v) => v >= SCALE,
        Err(_) => true,
    };
    if healthy {
        return Err(ErrorCode::HealthyAccount);
    }
    let repay_value = match checked_mul_u64(repay_amount, pd) {
        Ok(v) => v,
        Err(e) => {
            return Err(e);
        },
    };
    let close_cap = match mul_div_floor(d_value, adb.liquidation_close_factor, SCALE) {
        Ok(v) => v,
        Err(_) => 0,
    };
    if repay_value > close_cap {
        return Err(ErrorCode::OverRepayRequest);
    }
    if repay_amount == adb.total_borrowed && user.borrowed_shares < adb.total_borrowed_shares {
        return Err(ErrorCode::OverRepayRequest);
    }
    // the close-factor gate bounds the repayment by what the position owes
    proof {
        assert(repay_amount <= d_amount) by (nonlinear_arith)
            requires
                repay_amount * pd <= d_value,
                d_value == d_amount * pd,
                pd >= 1,
                0 <= repay_amount,
        ;
        crate::ops::lemma_repay_shapes(adb, *old(user), repay_amount);
    }
    let seize_value = match mul_div_floor(repay_value, SCALE + acb.liquidation_bonus, SCALE) {
        Ok(v) => v,
        Err(e) => {
            return Err(e);
        },
    };
    let entitled: u64 = seize_value / pc;
    let liquidity: u64 = acb.total_deposited - acb.total_borrowed;
    let seized: u64 = if entitled <= c_amount && entitled <= liquidity {
        entitled
    } else if c_amount <= liquidity {
        c_amount
    } else {
        liquidity
    };
    // debt side, as in a repayment
    let burn_debt: u64 = if repay_amount == d_amount {
        user.borrowed_shares
    } else {
        let raw = match crate::shares::amount_to_shares_round_up(
            repay_amount,
            adb.total_borrowed,
            adb.total_borrowed_shares,
        ) {
            Ok(v) => v,
            Err(_) => 0,
        };
        if raw == adb.total_borrowed_shares && repay_amount < adb.total_borrowed {
            raw - 1
        } else {
            raw
        }
    };
    let new_debt_bank = Bank {
        total_borrowed: adb.total_borrowed - repay_amount,
        total_borrowed_shares: adb.total_borrowed_shares - burn_debt,
        ..adb
    };
    let user_borrow_shares: u64 = user.borrowed_shares - burn_debt;
    proof {
        if new_debt_bank.total_borrowed_shares > 0 {
            crate::shares::lemma_owed_le_total(
                user_borrow_shares as int,
                new_debt_bank.total_borrowed as int,
                new_debt_bank.total_borrowed_shares as int,
            );
        }
    }
    let user_borrow_amount: u64 = match crate::shares::shares_to_amount_round_up(
        user_borrow_shares,
        new_debt_bank.total_borrowed,
        new_debt_bank.total_borrowed_shares,
    ) {
        Ok(v) => v,
        Err(_) => 0,
    };
    // collateral side, as in a withdrawal without the health gate; taking
    // the whole collateral value burns every remaining share
    let full_seizure: bool = seized == c_amount;
    proof {
        if full_seizure {
            lemma_full_seizure_shapes(acb, *old(user), seized);
        } else if seized > 0 {
            crate::ops::lemma_withdraw_shapes(
                acb,
                spec_repay_user(adb, *old(user), repay_amount, now),
                seized,
            );
        }
    }
    let burn_coll: u64 = if full_seizure {
        user.deposited_shares
    } else {
        let raw = match crate::shares::amount_to_shares_round_up(
            seized,
            acb.total_deposited,
            acb.total_deposited_shares,
        ) {
            Ok(v) => v,
            Err(_) => 0,
        };
        proof {
            if seized == 0 {
                if acb.total_deposited_shares > 0 {
                    assert(0int * acb.total_deposited_shares as int == 0) by (nonlinear_arith);
                    vstd::arithmetic::div_mod::lemma_basic_div(
                        acb.total_deposited as int - 1,
                        acb.total_deposited as int,
                    );
                }
                assert(raw == 0);
            }
        }
        if raw == acb.total_deposited_shares && seized < acb.total_deposited {
            raw - 1
        } else {
            raw
        }
    };
    let new_coll_bank = Bank {
        total_deposited: acb.total_deposited - seized,
        total_deposited_shares: acb.total_deposited_shares - burn_coll,
        ..acb
    };
    let user_deposit_shares: u64 = user.deposited_shares - burn_coll;
    proof {
        if new_coll_bank.total_deposited_shares > 0 {
            lemma_value_le_total(
                user_deposit_shares as int,
                new_coll_bank.total_deposited as int,
                new_coll_bank.total_deposited_shares as int,
            );
        }
    }
    let user_deposit_amount: u64 = match crate::shares::shares_to_amount(
        user_deposit_shares,
        new_coll_bank.total_deposited,
        new_coll_bank.total_deposited_shares,
    ) {
        Ok(v) => v,
        Err(_) => 0,
    };
    *bank = new_debt_bank;
    *collateral_bank = new_coll_bank;
    *user = User {
        deposited_shares: user_deposit_shares,
        deposited_amount: user_deposit_amount,
        borrowed_shares: user_borrow_shares,
        borrowed_amount: user_borrow_amount,
        last_updated_deposited: now,
        last_updated_borrowed: now,
        ..*user
    };
    Ok(LiquidationOutcome { repaid: repay_amount, seized })
}

/// Shape facts of a whole-collateral seizure: taking the position's full
/// floor value and burning its every deposit share keeps the pool
/// well-formed — the pool empties exactly when the position held every
/// share.
proof fn lemma_full_seizure_shapes(b: Bank, u: User, seized: u64)
    requires
        b.wf(),
        u.deposited_shares <= b.total_deposited_shares,
        seized == spec_collateral_amount(u, b),
        seized <= b.available_liquidity(),
    ensures
        seized <= b.total_deposited,
        (Bank {
            total_deposited: (b.total_deposited - seized) as u64,
            total_deposited_shares: (b.total_deposited_shares - u.deposited_shares) as u64,
            ..b
        }).wf(),
{
    let td = b.total_deposited as int;
    let ts = b.total_deposited_shares as int;
    let uds = u.deposited_shares as int;
    if ts > 0 {
        lemma_value_le_total(uds, td, ts);
        if uds == ts {
            // the sole holder's floor value is the whole pool
            lemma_div_multiples_vanish(td, ts);
            assert(uds * td == ts * td) by (nonlinear_arith)
                requires
                    uds == ts,
            ;
            assert(seized == td);
        } else if seized == td {
            // a partial holder's floor value cannot reach the whole pool
            assert(td > 0);
            lemma_floor_bounds(uds * td, ts);
            assert(ts * td <= uds * td);
            assert(uds >= ts) by (nonlinear_arith)
                requires
                    ts * td <= uds * td,
                    td > 0,
            ;
            assert(false);
        }
    }
}

} // verus!
