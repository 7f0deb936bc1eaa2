//! Pool and position operations: deposit, withdraw, borrow, repay.
//!
//! Every operation first brings the pool up to `now`, then converts the
//! requested amount into or out of shares, validates solvency, and commits
//! all state at once. On any error nothing is committed — not even the
//! accrual — and the returned value is the amount the custody collaborator
//! must then transfer.

use vstd::prelude::*;
use crate::accrual::accrued_bank;
use crate::accrual::lemma_accrue_raises_price;
use crate::accrual::spec_accrue;
use crate::accrual::spec_accrue_ok;
use crate::error::ErrorCode;
use crate::math::checked_add_u64;
use crate::math::div_ceil;
use crate::math::checked_mul_u64;
use crate::math::mul_div_floor;
use crate::math::SCALE;
use crate::risk::collateral_amount;
use crate::risk::debt_amount;
use crate::risk::spec_collateral_value;
use crate::risk::lemma_risk_capacity_le;
use crate::risk::read_price;
use crate::risk::spec_debt_value;
use crate::risk::spec_price_ok;
use crate::risk::spec_risk_capacity;
use crate::risk::PriceReading;
use crate::shares::amount_to_shares;
use crate::shares::amount_to_shares_round_up;
use crate::shares::lemma_burn_le_holding;
use crate::shares::lemma_ceil_bounds;
use crate::shares::lemma_floor_bounds;
use crate::shares::lemma_owed_le_total;
use crate::shares::shares_to_amount_round_up;
use crate::shares::spec_shares_to_amount_round_up;
use crate::shares::spec_amount_to_shares_round_up;
use vstd::arithmetic::div_mod::lemma_div_multiples_vanish_fancy;
use crate::shares::lemma_share_price_le_trans;
use crate::shares::lemma_value_le_total;
use crate::shares::share_price_le;
use crate::shares::shares_to_amount;
use crate::shares::spec_amount_to_shares;
use crate::shares::spec_shares_to_amount;
use crate::state::Bank;
use crate::state::User;

verus! {

/// Deposit shares issued for `amount` against the (accrued) pool.
pub open spec fn spec_deposit_shares(b: Bank, amount: u64) -> int {
    spec_amount_to_shares(
        amount as int,
        b.total_deposited as int,
        b.total_deposited_shares as int,
    )
}

/// The deposit arithmetic leaves `u64` on the (accrued) pool.
pub open spec fn spec_deposit_overflows(b: Bank, amount: u64) -> bool {
    ||| spec_deposit_shares(b, amount) > u64::MAX
    ||| b.total_deposited + amount > u64::MAX
    ||| b.total_deposited_shares + spec_deposit_shares(b, amount) > u64::MAX
}

/// The (accrued) pool after a successful deposit of `amount`.
pub open spec fn spec_deposit_bank(b: Bank, amount: u64) -> Bank {
    Bank {
        total_deposited: (b.total_deposited + amount) as u64,
        total_deposited_shares: (b.total_deposited_shares + spec_deposit_shares(b, amount)) as u64,
        ..b
    }
}

/// The position after a successful deposit of `amount`, with its amount
/// field refreshed against the post-deposit pool.
pub open spec fn spec_deposit_user(b: Bank, u: User, amount: u64, now: i64) -> User {
    let s = spec_deposit_shares(b, amount);
    let nb = spec_deposit_bank(b, amount);
    User {
        deposited_shares: (u.deposited_shares + s) as u64,
        deposited_amount: spec_shares_to_amount(
            u.deposited_shares + s,
            nb.total_deposited as int,
            nb.total_deposited_shares as int,
        ) as u64,
        last_updated_deposited: now,
        ..u
    }
}

/// Deposit `amount` of the pool's asset as collateral.
///
/// Succeeds exactly when `amount` is positive and the accrual and share
/// arithmetic stay within `u64`; the result is the amount the custody
/// collaborator transfers from the depositor to the pool's treasury. The
/// first deposit into an empty pool yields `amount` shares one-for-one,
/// and the deposit share price never decreases.
pub fn deposit(bank: &mut Bank, user: &mut User, amount: u64, now: i64) -> (r: Result<
    u64,
    ErrorCode,
>)
    requires
        old(bank).wf(),
        old(user).deposited_shares <= old(bank).total_deposited_shares,
        now >= 0,
    ensures
        final(bank).wf(),
        final(user).deposited_shares <= final(bank).total_deposited_shares,
        final(user).borrowed_shares == old(user).borrowed_shares,
        r is Err ==> *final(bank) == *old(bank) && *final(user) == *old(user),
        amount == 0 ==> r == Err::<u64, ErrorCode>(ErrorCode::BorrowAmountTooLarge),
        amount > 0 && !(spec_accrue_ok(*old(bank), now) && !spec_deposit_overflows(
            spec_accrue(*old(bank), now),
            amount,
        )) ==> r == Err::<u64, ErrorCode>(ErrorCode::MathOverflow),
        r is Ok <==> amount > 0 && spec_accrue_ok(*old(bank), now) && !spec_deposit_overflows(
            spec_accrue(*old(bank), now),
            amount,
        ),
        r matches Ok(v) ==> {
            &&& v == amount
            &&& *final(bank) == spec_deposit_bank(spec_accrue(*old(bank), now), amount)
            &&& *final(user) == spec_deposit_user(
                spec_accrue(*old(bank), now),
                *old(user),
                amount,
                now,
            )
            &&& (old(bank).total_deposited_shares == 0 ==> final(user).deposited_shares == old(
                user,
            ).deposited_shares + amount)
        },
        share_price_le(
            old(bank).total_deposited as int,
            old(bank).total_deposited_shares as int,
            final(bank).total_deposited as int,
            final(bank).total_deposited_shares as int,
        ),
{
    if amount == 0 {
        return Err(ErrorCode::BorrowAmountTooLarge);
    }
    let ab = match accrued_bank(bank, now) {
        Ok(v) => v,
        Err(e) => {
            return Err(e);
        },
    };
    let s = match amount_to_shares(amount, ab.total_deposited, ab.total_deposited_shares) {
        Ok(v) => v,
        Err(e) => {
            return Err(e);
        },
    };
    let new_deposited = match checked_add_u64(ab.total_deposited, amount) {
        Ok(v) => v,
        Err(e) => {
            return Err(e);
        },
    };
    let new_shares = match checked_add_u64(ab.total_deposited_shares, s) {
        Ok(v) => v,
        Err(e) => {
            return Err(e);
        },
    };
    let new_bank = Bank { total_deposited: new_deposited, total_deposited_shares: new_shares, ..ab };
    proof {
        lemma_deposit_keeps_wf(ab, amount);
        lemma_value_le_total(
            old(user).deposited_shares + s,
            new_deposited as int,
            new_shares as int,
        );
    }
    let user_shares: u64 = user.deposited_shares + s;
    let user_amount: u64 = match shares_to_amount(user_shares, new_deposited, new_shares) {
        Ok(v) => v,
        Err(_) => 0,
    };
    proof {
        lemma_accrue_raises_price(*old(bank), now);
        lemma_deposit_raises_price(ab, amount);
        if ab.total_deposited_shares > 0 {
            lemma_share_price_le_trans(
                old(bank).total_deposited as int,
                old(bank).total_deposited_shares as int,
                ab.total_deposited as int,
                ab.total_deposited_shares as int,
                new_bank.total_deposited as int,
                new_bank.total_deposited_shares as int,
            );
        }
    }
    *bank = new_bank;
    *user = User {
        deposited_shares: user_shares,
        deposited_amount: user_amount,
        last_updated_deposited: now,
        ..*user
    };
    Ok(amount)
}

/// Most a position may withdraw: the floor value of its deposit shares
/// against the (accrued) pool.
pub open spec fn spec_withdraw_max(b: Bank, u: User) -> int {
    spec_shares_to_amount(
        u.deposited_shares as int,
        b.total_deposited as int,
        b.total_deposited_shares as int,
    )
}

/// Deposit shares burned for withdrawing `amount`, rounded up so rounding
/// favors the pool. When the rounded-up burn would retire every
/// outstanding share although the pool is not emptied, one share is left
/// standing to carry the residue — only the sole remaining depositor can
/// be in that position.
pub open spec fn spec_withdraw_burn(b: Bank, amount: u64) -> int {
    let raw = spec_amount_to_shares_round_up(
        amount as int,
        b.total_deposited as int,
        b.total_deposited_shares as int,
    );
    if raw == b.total_deposited_shares && amount < b.total_deposited {
        raw - 1
    } else {
        raw
    }
}

/// The (accrued) pool after a successful withdrawal of `amount`.
pub open spec fn spec_withdraw_bank(b: Bank, amount: u64) -> Bank {
    Bank {
        total_deposited: (b.total_deposited - amount) as u64,
        total_deposited_shares: (b.total_deposited_shares - spec_withdraw_burn(b, amount)) as u64,
        ..b
    }
}

/// The position after a successful withdrawal of `amount`.
pub open spec fn spec_withdraw_user(b: Bank, u: User, amount: u64, now: i64) -> User {
    let burn = spec_withdraw_burn(b, amount);
    let nb = spec_withdraw_bank(b, amount);
    User {
        deposited_shares: (u.deposited_shares - burn) as u64,
        deposited_amount: spec_shares_to_amount(
            u.deposited_shares - burn,
            nb.total_deposited as int,
            nb.total_deposited_shares as int,
        ) as u64,
        last_updated_deposited: now,
        ..u
    }
}

/// Why a withdrawal fails, in the order the checks run: accrual
/// arithmetic, the position's own balance, pool liquidity, and — only
/// while the position has debt — the debt pool's accrual, the oracle
/// readings, the valuation arithmetic, and the loan-to-value gate.
pub open spec fn spec_withdraw_err(
    cb: Bank,
    db: Bank,
    u: User,
    amount: u64,
    collateral_price: PriceReading,
    debt_price: PriceReading,
    now: i64,
) -> Option<ErrorCode> {
    if !spec_accrue_ok(cb, now) {
        Some(ErrorCode::MathOverflow)
    } else {
        let acb = spec_accrue(cb, now);
        if amount > spec_withdraw_max(acb, u) {
            Some(ErrorCode::OverWithdrawRequest)
        } else if amount > acb.available_liquidity() {
            Some(ErrorCode::OverWithdrawRequest)
        } else if u.borrowed_shares == 0 {
            None
        } else if !spec_accrue_ok(db, now) {
            Some(ErrorCode::MathOverflow)
        } else {
            let adb = spec_accrue(db, now);
            if !(spec_price_ok(collateral_price) && spec_price_ok(debt_price)) {
                Some(ErrorCode::InvalidPriceFeed)
            } else if spec_debt_value(u, adb, debt_price.price) > u64::MAX {
                Some(ErrorCode::MathOverflow)
            } else {
                let remaining_value = spec_withdraw_user(acb, u, amount, now).deposited_amount
                    * collateral_price.price;
                if remaining_value > u64::MAX {
                    Some(ErrorCode::MathOverflow)
                } else if spec_debt_value(u, adb, debt_price.price) > spec_risk_capacity(
                    remaining_value,
                    acb.max_ltv,
                ) {
                    Some(ErrorCode::WithdrawAmountExceedsCollateralValue)
                } else {
                    None
                }
            }
        }
    }
}

/// Withdraw `amount` of collateral.
///
/// Fails `OverWithdrawRequest` when `amount` exceeds the floor value of
/// the position's shares or the pool's idle liquidity; while the position
/// has debt, the remaining collateral must still cover the debt value
/// under `max_ltv`, else `WithdrawAmountExceedsCollateralValue`. The debt
/// pool is accrued too before the risk check. On success the result is
/// the amount the custody collaborator pays out to the withdrawer.
pub fn withdraw(
    bank: &mut Bank,
    debt_bank: &mut Bank,
    user: &mut User,
    amount: u64,
    collateral_price: &PriceReading,
    debt_price: &PriceReading,
    now: i64,
) -> (r: Result<u64, ErrorCode>)
    requires
        old(bank).wf(),
        old(debt_bank).wf(),
        old(user).wf_in(*old(bank), *old(debt_bank)),
        amount > 0,
        now >= 0,
    ensures
        final(bank).wf(),
        final(debt_bank).wf(),
        final(user).wf_in(*final(bank), *final(debt_bank)),
        final(user).borrowed_shares == old(user).borrowed_shares,
        r is Err <==> spec_withdraw_err(
            *old(bank),
            *old(debt_bank),
            *old(user),
            amount,
            *collateral_price,
            *debt_price,
            now,
        ) is Some,
        r matches Err(e) ==> {
            &&& Some(e) == spec_withdraw_err(
                *old(bank),
                *old(debt_bank),
                *old(user),
                amount,
                *collateral_price,
                *debt_price,
                now,
            )
            &&& *final(bank) == *old(bank)
            &&& *final(debt_bank) == *old(debt_bank)
            &&& *final(user) == *old(user)
        },
        r matches Ok(v) ==> {
            &&& v == amount
            &&& *final(bank) == spec_withdraw_bank(spec_accrue(*old(bank), now), amount)
            &&& *final(user) == spec_withdraw_user(
                spec_accrue(*old(bank), now),
                *old(user),
                amount,
                now,
            )
            &&& *final(debt_bank) == (if old(user).borrowed_shares > 0 {
                spec_accrue(*old(debt_bank), now)
            } else {
                *old(debt_bank)
            })
        },
{
    let acb = match accrued_bank(bank, now) {
        Ok(v) => v,
        Err(e) => {
            return Err(e);
        },
    };
    let max_user = match shares_to_amount(
        user.deposited_shares,
        acb.total_deposited,
        acb.total_deposited_shares,
    ) {
        Ok(v) => v,
        Err(_) => 0,
    };
    proof {
        if acb.total_deposited_shares > 0 {
            lemma_value_le_total(
                old(user).deposited_shares as int,
                acb.total_deposited as int,
                acb.total_deposited_shares as int,
            );
        }
    }
    if amount > max_user {
        return Err(ErrorCode::OverWithdrawRequest);
    }
    if amount > acb.total_deposited - acb.total_borrowed {
        return Err(ErrorCode::OverWithdrawRequest);
    }
    // past the balance check the pool cannot be empty
    assert(acb.total_deposited_shares > 0 && acb.total_deposited > 0);
    proof {
        lemma_burn_le_holding(
            amount as int,
            old(user).deposited_shares as int,
            acb.total_deposited as int,
            acb.total_deposited_shares as int,
        );
    }
    let raw_burn = match amount_to_shares_round_up(
        amount,
        acb.total_deposited,
        acb.total_deposited_shares,
    ) {
        Ok(v) => v,
        Err(_) => 0,
    };
    let burn: u64 = if raw_burn == acb.total_deposited_shares && amount < acb.total_deposited {
        raw_burn - 1
    } else {
        raw_burn
    };
    proof {
        lemma_withdraw_shapes(acb, *old(user), amount);
    }
    let new_bank = Bank {
        total_deposited: acb.total_deposited - amount,
        total_deposited_shares: acb.total_deposited_shares - burn,
        ..acb
    };
    let user_shares: u64 = user.deposited_shares - burn;
    proof {
        if new_bank.total_deposited_shares > 0 {
            lemma_value_le_total(
                user_shares as int,
                new_bank.total_deposited as int,
                new_bank.total_deposited_shares as int,
            );
        }
    }
    let user_amount: u64 = match shares_to_amount(
        user_shares,
        new_bank.total_deposited,
        new_bank.total_deposited_shares,
    ) {
        Ok(v) => v,
        Err(_) => 0,
    };
    if user.borrowed_shares > 0 {
        let adb = match accrued_bank(debt_bank, now) {
            Ok(v) => v,
            Err(e) => {
                return Err(e);
            },
        };
        let pc = match read_price(collateral_price) {
            Ok(v) => v,
            Err(e) => {
                return Err(e);
            },
        };
        let pd = match read_price(debt_price) {
            Ok(v) => v,
            Err(e) => {
                return Err(e);
            },
        };
        let d_amount = debt_amount(user, &adb);
        let d_value = match checked_mul_u64(d_amount, pd) {
            Ok(v) => v,
            Err(e) => {
                return Err(e);
            },
        };
        let remaining_value = match checked_mul_u64(user_amount, pc) {
            Ok(v) => v,
            Err(e) => {
                return Err(e);
            },
        };
        proof {
            lemma_risk_capacity_le(remaining_value as int, acb.max_ltv);
        }
        let capacity = match mul_div_floor(remaining_value, acb.max_ltv, SCALE) {
            Ok(v) => v,
            Err(_) => 0,
        };
        if d_value > capacity {
            return Err(ErrorCode::WithdrawAmountExceedsCollateralValue);
        }
        *debt_bank = adb;
    }
    *bank = new_bank;
    *user = User {
        deposited_shares: user_shares,
        deposited_amount: user_amount,
        last_updated_deposited: now,
        ..*user
    };
    Ok(amount)
}

/// Shape facts of a permitted withdrawal: the burn stays within the
/// holding, the pool empties exactly when its deposits empty, and debt
/// stays covered.
pub proof fn lemma_withdraw_shapes(b: Bank, u: User, amount: u64)
    requires
        b.wf(),
        u.deposited_shares <= b.total_deposited_shares,
        0 < amount,
        amount <= spec_withdraw_max(b, u),
        amount <= b.available_liquidity(),
        b.total_deposited_shares > 0,
        b.total_deposited > 0,
    ensures
        0 <= spec_withdraw_burn(b, amount) <= u.deposited_shares,
        spec_withdraw_bank(b, amount).wf(),
        amount <= b.total_deposited,
{
    let td = b.total_deposited as int;
    let ts = b.total_deposited_shares as int;
    let uds = u.deposited_shares as int;
    let raw = spec_amount_to_shares_round_up(amount as int, td, ts);
    lemma_value_le_total(uds, td, ts);
    lemma_burn_le_holding(amount as int, uds, td, ts);
    let burn = spec_withdraw_burn(b, amount);
    // the pool keeps a share exactly while it keeps deposits
    if amount == td {
        // a full drain is possible only for the holder of every share,
        // and then the rounded-up burn is exactly every share
        lemma_div_multiples_vanish_fancy(ts, td - 1, td);
        assert(amount * ts == td * ts) by (nonlinear_arith)
            requires
                amount == td,
        ;
        assert(raw == ts);
        assert(burn == ts);
    } else {
        // with amount < td, either the raw burn already leaves a share, or
        // the adjustment keeps one back: the pool's deposits stay claimed
        if burn == ts {
            assert(raw <= ts);
            assert(false);
        }
        assert(burn < ts);
    }
}

/// A successful deposit preserves pool well-formedness.
proof fn lemma_deposit_keeps_wf(b: Bank, amount: u64)
    requires
        b.wf(),
        amount > 0,
        !spec_deposit_overflows(b, amount),
    ensures
        spec_deposit_bank(b, amount).wf(),
        spec_deposit_bank(b, amount).total_deposited_shares >= b.total_deposited_shares,
        spec_deposit_shares(b, amount) >= 0,
{
    let s = spec_deposit_shares(b, amount);
    if b.total_deposited_shares > 0 {
        assert(0 <= amount * b.total_deposited_shares) by (nonlinear_arith)
            requires
                0 < amount,
                0 < b.total_deposited_shares,
        ;
        lemma_floor_bounds(amount * b.total_deposited_shares, b.total_deposited as int);
    }
}

/// A deposit never lowers the deposit share price: the shares issued are
/// rounded down, so the new deposits cover them fully.
proof fn lemma_deposit_raises_price(b: Bank, amount: u64)
    requires
        b.wf(),
        amount > 0,
        !spec_deposit_overflows(b, amount),
    ensures
        share_price_le(
            b.total_deposited as int,
            b.total_deposited_shares as int,
            spec_deposit_bank(b, amount).total_deposited as int,
            spec_deposit_bank(b, amount).total_deposited_shares as int,
        ),
{
    let td = b.total_deposited as int;
    let ts = b.total_deposited_shares as int;
    let s = spec_deposit_shares(b, amount);
    if ts == 0 {
        assert(td == 0);
        assert(0int * (0int + s) == 0) by (nonlinear_arith);
        assert((td + amount) * 0int == 0) by (nonlinear_arith);
    } else {
        assert(0 <= amount * ts) by (nonlinear_arith)
            requires
                0 < amount,
                0 < ts,
        ;
        lemma_floor_bounds(amount * ts, td);
        // td * s <= amount * ts, hence td * (ts + s) <= (td + amount) * ts
        assert(td * (ts + s) <= (td + amount) * ts) by (nonlinear_arith)
            requires
                td * s <= amount * ts,
        ;
    }
}

/// Borrow shares charged for drawing `amount` from the (accrued) debt
/// pool, rounded up so the debt recorded is never below what was paid out.
pub open spec fn spec_borrow_shares(b: Bank, amount: u64) -> int {
    spec_amount_to_shares_round_up(
        amount as int,
        b.total_borrowed as int,
        b.total_borrowed_shares as int,
    )
}

/// The borrow share arithmetic leaves `u64` on the (accrued) debt pool.
pub open spec fn spec_borrow_overflows(b: Bank, amount: u64) -> bool {
    ||| spec_borrow_shares(b, amount) > u64::MAX
    ||| b.total_borrowed_shares + spec_borrow_shares(b, amount) > u64::MAX
}

/// The (accrued) debt pool after a successful borrow of `amount`.
pub open spec fn spec_borrow_bank(b: Bank, amount: u64) -> Bank {
    Bank {
        total_borrowed: (b.total_borrowed + amount) as u64,
        total_borrowed_shares: (b.total_borrowed_shares + spec_borrow_shares(b, amount)) as u64,
        ..b
    }
}

/// The position after a successful borrow of `amount`.
pub open spec fn spec_borrow_user(b: Bank, u: User, amount: u64, now: i64) -> User {
    let s = spec_borrow_shares(b, amount);
    let nb = spec_borrow_bank(b, amount);
    User {
        borrowed_shares: (u.borrowed_shares + s) as u64,
        borrowed_amount: spec_shares_to_amount_round_up(
            u.borrowed_shares + s,
            nb.total_borrowed as int,
            nb.total_borrowed_shares as int,
        ) as u64,
        last_updated_borrowed: now,
        ..u
    }
}

/// Why a borrow fails, in the order the checks run: accrual of both
/// pools, pool liquidity (which needs no price, so it is gated before the
/// oracle is consulted), the oracle readings, valuation arithmetic, the
/// loan-to-value gate, and the share arithmetic.
pub open spec fn spec_borrow_err(
    db: Bank,
    cb: Bank,
    u: User,
    amount: u64,
    debt_price: PriceReading,
    collateral_price: PriceReading,
    now: i64,
) -> Option<ErrorCode> {
    if !spec_accrue_ok(db, now) {
        Some(ErrorCode::MathOverflow)
    } else if !spec_accrue_ok(cb, now) {
        Some(ErrorCode::MathOverflow)
    } else {
        let adb = spec_accrue(db, now);
        let acb = spec_accrue(cb, now);
        if amount > adb.available_liquidity() {
            Some(ErrorCode::OverBorrowRequest)
        } else if !(spec_price_ok(debt_price) && spec_price_ok(collateral_price)) {
            Some(ErrorCode::InvalidPriceFeed)
        } else if spec_debt_value(u, adb, debt_price.price) > u64::MAX {
            Some(ErrorCode::MathOverflow)
        } else if amount * debt_price.price > u64::MAX {
            Some(ErrorCode::MathOverflow)
        } else if spec_debt_value(u, adb, debt_price.price) + amount * debt_price.price
            > u64::MAX {
            Some(ErrorCode::MathOverflow)
        } else if spec_collateral_value(u, acb, collateral_price.price) > u64::MAX {
            Some(ErrorCode::MathOverflow)
        } else if spec_debt_value(u, adb, debt_price.price) + amount * debt_price.price
            > spec_risk_capacity(
            spec_collateral_value(u, acb, collateral_price.price),
            acb.max_ltv,
        ) {
            Some(ErrorCode::OverBorrowableAmount)
        } else if spec_borrow_overflows(adb, amount) {
            Some(ErrorCode::MathOverflow)
        } else {
            None
        }
    }
}

/// Borrow `amount` of the debt pool's asset against the position's
/// collateral in the collateral pool.
///
/// Both pools are accrued before any valuation, so the risk check never
/// prices collateral against a stale accrual. The request fails
/// `OverBorrowRequest` when it exceeds the debt pool's idle liquidity and
/// `OverBorrowableAmount` when the position's debt value, including the
/// new draw, would exceed `collateral_value * max_ltv`. On success the
/// result is the amount the custody collaborator pays out to the borrower.
pub fn borrow(
    bank: &mut Bank,
    collateral_bank: &mut Bank,
    user: &mut User,
    amount: u64,
    debt_price: &PriceReading,
    collateral_price: &PriceReading,
    now: i64,
) -> (r: Result<u64, ErrorCode>)
    requires
        old(bank).wf(),
        old(collateral_bank).wf(),
        old(user).wf_in(*old(collateral_bank), *old(bank)),
        amount > 0,
        now >= 0,
    ensures
        final(bank).wf(),
        final(collateral_bank).wf(),
        final(user).wf_in(*final(collateral_bank), *final(bank)),
        final(user).deposited_shares == old(user).deposited_shares,
        r is Err <==> spec_borrow_err(
            *old(bank),
            *old(collateral_bank),
            *old(user),
            amount,
            *debt_price,
            *collateral_price,
            now,
        ) is Some,
        r matches Err(e) ==> {
            &&& Some(e) == spec_borrow_err(
                *old(bank),
                *old(collateral_bank),
                *old(user),
                amount,
                *debt_price,
                *collateral_price,
                now,
            )
            &&& *final(bank) == *old(bank)
            &&& *final(collateral_bank) == *old(collateral_bank)
            &&& *final(user) == *old(user)
        },
        r matches Ok(v) ==> {
            &&& v == amount
            &&& *final(bank) == spec_borrow_bank(spec_accrue(*old(bank), now), amount)
            &&& *final(collateral_bank) == spec_accrue(*old(collateral_bank), now)
            &&& *final(user) == spec_borrow_user(
                spec_accrue(*old(bank), now),
                *old(user),
                amount,
                now,
            )
        },
{
    let adb = match accrued_bank(bank, now) {
        Ok(v) => v,
        Err(e) => {
            return Err(e);
        },
    };
    let acb = match accrued_bank(collateral_bank, now) {
        Ok(v) => v,
        Err(e) => {
            return Err(e);
        },
    };
    if amount > adb.total_deposited - adb.total_borrowed {
        return Err(ErrorCode::OverBorrowRequest);
    }
    let pd = match read_price(debt_price) {
        Ok(v) => v,
        Err(e) => {
            return Err(e);
        },
    };
    let pc = match read_price(collateral_price) {
        Ok(v) => v,
        Err(e) => {
            return Err(e);
        },
    };
    let d_amount = debt_amount(user, &adb);
    let d_value = match checked_mul_u64(d_amount, pd) {
        Ok(v) => v,
        Err(e) => {
            return Err(e);
        },
    };
    let draw_value = match checked_mul_u64(amount, pd) {
        Ok(v) => v,
        Err(e) => {
            return Err(e);
        },
    };
    let new_debt_value = match checked_add_u64(d_value, draw_value) {
        Ok(v) => v,
        Err(e) => {
            return Err(e);
        },
    };
    let c_amount = collateral_amount(user, &acb);
    let c_value = match checked_mul_u64(c_amount, pc) {
        Ok(v) => v,
        Err(e) => {
            return Err(e);
        },
    };
    proof {
        lemma_risk_capacity_le(c_value as int, acb.max_ltv);
    }
    let capacity = match mul_div_floor(c_value, acb.max_ltv, SCALE) {
        Ok(v) => v,
        Err(_) => 0,
    };
    if new_debt_value > capacity {
        return Err(ErrorCode::OverBorrowableAmount);
    }
    let s = match amount_to_shares_round_up(amount, adb.total_borrowed, adb.total_borrowed_shares) {
        Ok(v) => v,
        Err(e) => {
            return Err(e);
        },
    };
    let new_share_total = match checked_add_u64(adb.total_borrowed_shares, s) {
        Ok(v) => v,
        Err(e) => {
            return Err(e);
        },
    };
    proof {
        lemma_borrow_shapes(adb, amount);
    }
    let new_bank = Bank {
        total_borrowed: adb.total_borrowed + amount,
        total_borrowed_shares: new_share_total,
        ..adb
    };
    let user_shares: u64 = user.borrowed_shares + s;
    proof {
        lemma_owed_le_total(
            user_shares as int,
            new_bank.total_borrowed as int,
            new_bank.total_borrowed_shares as int,
        );
    }
    let user_amount: u64 = match shares_to_amount_round_up(
        user_shares,
        new_bank.total_borrowed,
        new_bank.total_borrowed_shares,
    ) {
        Ok(v) => v,
        Err(_) => 0,
    };
    *bank = new_bank;
    *collateral_bank = acb;
    *user = User {
        borrowed_shares: user_shares,
        borrowed_amount: user_amount,
        last_updated_borrowed: now,
        ..*user
    };
    Ok(amount)
}

/// Shape facts of a permitted borrow: the issue is positive, and the debt
/// pool stays well-formed since the draw is within idle liquidity.
proof fn lemma_borrow_shapes(b: Bank, amount: u64)
    requires
        b.wf(),
        0 < amount,
        amount <= b.available_liquidity(),
        !spec_borrow_overflows(b, amount),
    ensures
        spec_borrow_bank(b, amount).wf(),
        0 <= spec_borrow_shares(b, amount),
        b.total_borrowed + amount <= u64::MAX,
{
    let s = spec_borrow_shares(b, amount);
    if b.total_borrowed_shares > 0 {
        assert(0 <= amount * b.total_borrowed_shares) by (nonlinear_arith)
            requires
                0 < amount,
                0 < b.total_borrowed_shares,
        ;
        lemma_ceil_bounds(amount * b.total_borrowed_shares, b.total_borrowed as int);
    }
}

/// Most a position may repay: the rounded-up value of its borrow shares,
/// so a borrower can always retire the whole debt despite rounding.
pub open spec fn spec_repay_max(b: Bank, u: User) -> int {
    spec_shares_to_amount_round_up(
        u.borrowed_shares as int,
        b.total_borrowed as int,
        b.total_borrowed_shares as int,
    )
}

/// Borrow shares burned for repaying `amount`: all of the position's
/// shares when the whole personal debt is repaid, otherwise the rounded-up
/// conversion. When that rounded-up burn would retire every outstanding
/// share although the pool's debt is not cleared, one share is left
/// standing to carry the residue — only the sole remaining borrower can be
/// in that position.
pub open spec fn spec_repay_burn(b: Bank, u: User, amount: u64) -> int {
    if amount == spec_repay_max(b, u) {
        u.borrowed_shares as int
    } else {
        let raw = spec_amount_to_shares_round_up(
            amount as int,
            b.total_borrowed as int,
            b.total_borrowed_shares as int,
        );
        if raw == b.total_borrowed_shares && amount < b.total_borrowed {
            raw - 1
        } else {
            raw
        }
    }
}

/// The (accrued) debt pool after a successful repayment of `amount`.
pub open spec fn spec_repay_bank(b: Bank, u: User, amount: u64) -> Bank {
    Bank {
        total_borrowed: (b.total_borrowed - amount) as u64,
        total_borrowed_shares: (b.total_borrowed_shares - spec_repay_burn(b, u, amount)) as u64,
        ..b
    }
}

/// The position after a successful repayment of `amount`.
pub open spec fn spec_repay_user(b: Bank, u: User, amount: u64, now: i64) -> User {
    let burn = spec_repay_burn(b, u, amount);
    let nb = spec_repay_bank(b, u, amount);
    User {
        borrowed_shares: (u.borrowed_shares - burn) as u64,
        borrowed_amount: spec_shares_to_amount_round_up(
            u.borrowed_shares - burn,
            nb.total_borrowed as int,
            nb.total_borrowed_shares as int,
        ) as u64,
        last_updated_borrowed: now,
        ..u
    }
}

/// Why a repayment fails: accrual arithmetic, then `OverRepayRequest`
/// when `amount` exceeds what the position owes — or would retire the
/// pool's whole debt while other positions still hold borrow shares, the
/// one rounding corner in which exact bookkeeping is impossible.
pub open spec fn spec_repay_err(b: Bank, u: User, amount: u64, now: i64) -> Option<ErrorCode> {
    if !spec_accrue_ok(b, now) {
        Some(ErrorCode::MathOverflow)
    } else {
        let ab = spec_accrue(b, now);
        if amount > spec_repay_max(ab, u) {
            Some(ErrorCode::OverRepayRequest)
        } else if amount == ab.total_borrowed && u.borrowed_shares < ab.total_borrowed_shares {
            Some(ErrorCode::OverRepayRequest)
        } else {
            None
        }
    }
}

/// Repay `amount` of the position's debt.
///
/// Fails `OverRepayRequest` when `amount` exceeds the rounded-up value of
/// the position's borrow shares. The shares burned are rounded up, so the
/// borrower never retires more debt value than was paid. On success the
/// result is the amount the custody collaborator transfers from the
/// repayer to the pool's treasury.
pub fn repay(bank: &mut Bank, user: &mut User, amount: u64, now: i64) -> (r: Result<
    u64,
    ErrorCode,
>)
    requires
        old(bank).wf(),
        old(user).borrowed_shares <= old(bank).total_borrowed_shares,
        amount > 0,
        now >= 0,
    ensures
        final(bank).wf(),
        final(user).borrowed_shares <= final(bank).total_borrowed_shares,
        final(user).deposited_shares == old(user).deposited_shares,
        r is Err <==> spec_repay_err(*old(bank), *old(user), amount, now) is Some,
        r matches Err(e) ==> {
            &&& Some(e) == spec_repay_err(*old(bank), *old(user), amount, now)
            &&& *final(bank) == *old(bank)
            &&& *final(user) == *old(user)
        },
        r matches Ok(v) ==> {
            &&& v == amount
            &&& *final(bank) == spec_repay_bank(spec_accrue(*old(bank), now), *old(user), amount)
            &&& *final(user) == spec_repay_user(
                spec_accrue(*old(bank), now),
                *old(user),
                amount,
                now,
            )
        },
{
    let ab = match accrued_bank(bank, now) {
        Ok(v) => v,
        Err(e) => {
            return Err(e);
        },
    };
    proof {
        if ab.total_borrowed_shares > 0 {
            lemma_owed_le_total(
                old(user).borrowed_shares as int,
                ab.total_borrowed as int,
                ab.total_borrowed_shares as int,
            );
        }
    }
    let max_repay = match shares_to_amount_round_up(
        user.borrowed_shares,
        ab.total_borrowed,
        ab.total_borrowed_shares,
    ) {
        Ok(v) => v,
        Err(_) => 0,
    };
    if amount > max_repay {
        return Err(ErrorCode::OverRepayRequest);
    }
    if amount == ab.total_borrowed && user.borrowed_shares < ab.total_borrowed_shares {
        return Err(ErrorCode::OverRepayRequest);
    }
    proof {
        lemma_repay_shapes(ab, *old(user), amount);
    }
    let burn: u64 = if amount == max_repay {
        user.borrowed_shares
    } else {
        let raw = match amount_to_shares_round_up(
            amount,
            ab.total_borrowed,
            ab.total_borrowed_shares,
        ) {
            Ok(v) => v,
            Err(_) => 0,
        };
        if raw == ab.total_borrowed_shares && amount < ab.total_borrowed {
            raw - 1
        } else {
            raw
        }
    };
    let new_bank = Bank {
        total_borrowed: ab.total_borrowed - amount,
        total_borrowed_shares: ab.total_borrowed_shares - burn,
        ..ab
    };
    let user_shares: u64 = user.borrowed_shares - burn;
    proof {
        if new_bank.total_borrowed_shares > 0 {
            lemma_owed_le_total(
                user_shares as int,
                new_bank.total_borrowed as int,
                new_bank.total_borrowed_shares as int,
            );
        }
    }
    let user_amount: u64 = match shares_to_amount_round_up(
        user_shares,
        new_bank.total_borrowed,
        new_bank.total_borrowed_shares,
    ) {
        Ok(v) => v,
        Err(_) => 0,
    };
    *bank = new_bank;
    *user = User {
        borrowed_shares: user_shares,
        borrowed_amount: user_amount,
        last_updated_borrowed: now,
        ..*user
    };
    Ok(amount)
}

/// Shape facts of a permitted repayment: the burn stays within the
/// position's shares, the amount within the pool's debt, and the pool's
/// debt and borrow shares empty together.
pub proof fn lemma_repay_shapes(b: Bank, u: User, amount: u64)
    requires
        b.wf(),
        u.borrowed_shares <= b.total_borrowed_shares,
        0 < amount,
        amount <= spec_repay_max(b, u),
        !(amount == b.total_borrowed && u.borrowed_shares < b.total_borrowed_shares),
    ensures
        0 <= spec_repay_burn(b, u, amount) <= u.borrowed_shares,
        amount <= b.total_borrowed,
        amount < spec_repay_max(b, u) ==> spec_amount_to_shares_round_up(
            amount as int,
            b.total_borrowed as int,
            b.total_borrowed_shares as int,
        ) <= u.borrowed_shares,
        spec_repay_bank(b, u, amount).wf(),
{
    let tb = b.total_borrowed as int;
    let ts = b.total_borrowed_shares as int;
    let ub = u.borrowed_shares as int;
    let max = spec_repay_max(b, u);
    // a positive repayment needs a positive holding
    if ub == 0 {
        if ts == 0 {
            assert(max == 0);
        } else {
            assert(div_ceil(0 * tb, ts) == 0) by {
                assert(0int * tb == 0) by (nonlinear_arith);
                lemma_ceil_bounds(0int, ts);
                lemma_div_multiples_vanish_fancy(0int, ts - 1, ts);
            }
            assert(max == 0);
        }
        assert(false);
    }
    assert(ts > 0 && tb > 0);
    lemma_owed_le_total(ub, tb, ts);
    assert(amount <= tb);
    // the whole pool debt is repayable only by the holder of every share
    lemma_div_multiples_vanish_fancy(tb, ts - 1, ts);
    assert(ts * tb == tb * ts) by (nonlinear_arith);
    assert(spec_shares_to_amount_round_up(ts, tb, ts) == tb);
    if amount < max {
        // amount below the rounded-up value means amount * ts < ub * tb
        lemma_ceil_bounds(ub * tb, ts);
        assert(amount * ts < ub * tb) by (nonlinear_arith)
            requires
                amount < div_ceil(ub * tb, ts),
                ts * div_ceil(ub * tb, ts) < ub * tb + ts,
                0 < ts,
        ;
        // hence the rounded-up burn stays within the holding
        lemma_ceil_bounds(amount * ts, tb);
        assert(div_ceil(amount * ts, tb) <= ub) by (nonlinear_arith)
            requires
                0 < tb,
                0 <= ub,
                tb * div_ceil(amount * ts, tb) < amount * ts + tb,
                amount * ts < ub * tb,
        ;
    }
    let burn = spec_repay_burn(b, u, amount);
    assert(0 <= amount * ts) by (nonlinear_arith)
        requires
            0 <= amount,
            0 <= ts,
    ;
    lemma_ceil_bounds(amount * ts, tb);
    // debt and shares empty together
    if amount == tb {
        assert(ub == ts);
        assert(max == tb);
        assert(burn == ub == ts);
    } else {
        if burn == ts {
            if amount == max {
                // burning the whole pool's shares repays the whole debt
                assert(ub == ts);
                assert(max == tb);
                assert(false);
            } else {
                let raw = spec_amount_to_shares_round_up(amount as int, tb, ts);
                assert(raw <= ub <= ts);
                if raw == ts && amount < tb {
                    assert(burn == raw - 1);
                    assert(false);
                } else {
                    assert(burn == raw && raw == ts);
                    assert(amount >= tb);
                    assert(false);
                }
            }
        }
        assert(burn < ts);
    }
}

} // verus!
