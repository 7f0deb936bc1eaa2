//! InterestAccrualModel: lazy, linear interest accrual.
//!
//! Interest owed over the elapsed time is added both to the pool's debt
//! (borrowers owe it) and to its deposits (depositors earn it), so the
//! deposit share price never falls. Accrual runs as the first step of
//! every pool-touching operation, on demand, and is idempotent for
//! repeated calls at the same timestamp.

use vstd::prelude::*;
use crate::error::ErrorCode;
use crate::math::checked_add_u64;
use crate::math::checked_mul_u64;
use crate::math::mul_div_floor;
use crate::math::RATE_SCALE;
use crate::shares::share_price_le;
use crate::state::Bank;

verus! {

/// Time elapsed since the pool's last accrual; zero when the clock has
/// not advanced.
pub open spec fn spec_elapsed(b: Bank, now: i64) -> int {
    if now > b.last_updated {
        now - b.last_updated
    } else {
        0
    }
}

/// Interest owed over the elapsed time under the simple linear model:
/// `total_borrowed * interest_rate * elapsed / RATE_SCALE`.
pub open spec fn spec_interest(b: Bank, now: i64) -> int {
    b.total_borrowed * (b.interest_rate * spec_elapsed(b, now)) / (RATE_SCALE as int)
}

/// Accrual stays within `u64` arithmetic on this pool at this time.
pub open spec fn spec_accrue_ok(b: Bank, now: i64) -> bool {
    now <= b.last_updated || {
        &&& b.interest_rate * spec_elapsed(b, now) <= u64::MAX
        &&& spec_interest(b, now) <= u64::MAX
        &&& b.total_deposited + spec_interest(b, now) <= u64::MAX
        &&& b.total_borrowed + spec_interest(b, now) <= u64::MAX
    }
}

/// The pool brought up to `now`: both totals grown by the interest owed,
/// the accrual clock advanced, everything else untouched.
pub open spec fn spec_accrue(b: Bank, now: i64) -> Bank {
    if now <= b.last_updated {
        b
    } else {
        Bank {
            total_deposited: (b.total_deposited + spec_interest(b, now)) as u64,
            total_borrowed: (b.total_borrowed + spec_interest(b, now)) as u64,
            last_updated: now,
            ..b
        }
    }
}

/// Pure accrual step: the pool as of `now`, or `MathOverflow` with no
/// observable change. Operations compute on this and commit only on
/// success.
pub fn accrued_bank(b: &Bank, now: i64) -> (r: Result<Bank, ErrorCode>)
    requires
        b.wf(),
        now >= 0,
    ensures
        r is Ok <==> spec_accrue_ok(*b, now),
        r matches Ok(nb) ==> nb == spec_accrue(*b, now),
        r matches Ok(nb) ==> nb.wf(),
        r is Err ==> r == Err::<Bank, ErrorCode>(ErrorCode::MathOverflow),
{
    if now <= b.last_updated {
        return Ok(*b);
    }
    let dt: u64 = (now - b.last_updated) as u64;
    let rate_dt: u64 = match checked_mul_u64(b.interest_rate, dt) {
        Ok(v) => v,
        Err(e) => {
            return Err(e);
        },
    };
    let interest: u64 = match mul_div_floor(b.total_borrowed, rate_dt, RATE_SCALE) {
        Ok(v) => v,
        Err(e) => {
            return Err(e);
        },
    };
    let new_deposited: u64 = match checked_add_u64(b.total_deposited, interest) {
        Ok(v) => v,
        Err(e) => {
            return Err(e);
        },
    };
    let new_borrowed: u64 = match checked_add_u64(b.total_borrowed, interest) {
        Ok(v) => v,
        Err(e) => {
            return Err(e);
        },
    };
    proof {
        if b.total_borrowed == 0 {
            lemma_interest_zero_on_zero_debt(*b, now);
        }
    }
    Ok(
        Bank {
            total_deposited: new_deposited,
            total_borrowed: new_borrowed,
            last_updated: now,
            ..*b
        },
    )
}

/// Bring a pool up to `now`. On error the pool is untouched; calling
/// again at the same timestamp changes nothing.
pub fn accrue(bank: &mut Bank, now: i64) -> (r: Result<(), ErrorCode>)
    requires
        old(bank).wf(),
        now >= 0,
    ensures
        r is Ok <==> spec_accrue_ok(*old(bank), now),
        r is Ok ==> *final(bank) == spec_accrue(*old(bank), now),
        r is Err ==> *final(bank) == *old(bank) && r == Err::<(), ErrorCode>(
            ErrorCode::MathOverflow,
        ),
        final(bank).wf(),
        now <= old(bank).last_updated ==> *final(bank) == *old(bank),
        final(bank).last_updated >= old(bank).last_updated,
        share_price_le(
            old(bank).total_deposited as int,
            old(bank).total_deposited_shares as int,
            final(bank).total_deposited as int,
            final(bank).total_deposited_shares as int,
        ),
{
    let nb = match accrued_bank(bank, now) {
        Ok(v) => v,
        Err(e) => {
            proof {
                lemma_price_le_reflexive(*bank);
            }
            return Err(e);
        },
    };
    proof {
        lemma_accrue_raises_price(*bank, now);
    }
    *bank = nb;
    Ok(())
}

/// Interest on a debt-free pool is zero.
proof fn lemma_interest_zero_on_zero_debt(b: Bank, now: i64)
    requires
        b.total_borrowed == 0,
    ensures
        spec_interest(b, now) == 0,
{
    assert(0int * (b.interest_rate * spec_elapsed(b, now)) == 0) by (nonlinear_arith);
}

/// A pool's deposit share price compares equal to itself.
proof fn lemma_price_le_reflexive(b: Bank)
    ensures
        share_price_le(
            b.total_deposited as int,
            b.total_deposited_shares as int,
            b.total_deposited as int,
            b.total_deposited_shares as int,
        ),
{
}

/// Accrual never lowers the deposit share price: deposits grow while the
/// share count stands still.
pub proof fn lemma_accrue_raises_price(b: Bank, now: i64)
    requires
        b.wf(),
        spec_accrue_ok(b, now),
    ensures
        share_price_le(
            b.total_deposited as int,
            b.total_deposited_shares as int,
            spec_accrue(b, now).total_deposited as int,
            spec_accrue(b, now).total_deposited_shares as int,
        ),
{
    let nb = spec_accrue(b, now);
    assert(0 <= b.total_borrowed * (b.interest_rate * spec_elapsed(b, now))) by (nonlinear_arith)
        requires
            0 <= b.total_borrowed,
            0 <= b.interest_rate,
            0 <= spec_elapsed(b, now),
    ;
    vstd::arithmetic::div_mod::lemma_div_pos_is_pos(
        b.total_borrowed * (b.interest_rate * spec_elapsed(b, now)),
        RATE_SCALE as int,
    );
    assert(b.total_deposited <= nb.total_deposited);
    assert(b.total_deposited * nb.total_deposited_shares <= nb.total_deposited
        * b.total_deposited_shares) by (nonlinear_arith)
        requires
            nb.total_deposited_shares == b.total_deposited_shares,
            b.total_deposited <= nb.total_deposited,
            0 <= b.total_deposited_shares,
    ;
}

/// Law (accrual idempotence): accruing a pool twice at one timestamp is
/// the same as accruing it once — the second application cannot overflow
/// and changes nothing.
pub proof fn lemma_accrue_idempotent(b: Bank, now: i64)
    ensures
        spec_accrue_ok(spec_accrue(b, now), now),
        spec_accrue(spec_accrue(b, now), now) == spec_accrue(b, now),
{
}

} // verus!
