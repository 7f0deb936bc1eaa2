//! Ledger records: the per-asset pool (`Bank`) and the per-account
//! position (`User`).
//!
//! Each record is an independently owned in-memory struct; persistence,
//! addressing and authorization belong to the layers around the core.
//! Identities (authority, asset mint, owner) are opaque integers here.

use vstd::prelude::*;
use crate::math::SCALE;

verus! {

/// One lending pool for a single asset.
#[derive(Clone, Copy, Debug, PartialEq, Eq, Structural)]
pub struct Bank {
    /// Identity permitted to create and configure the pool.
    pub authority: u64,
    /// Identifier of the underlying asset this pool holds.
    pub mint_address: u64,
    /// Underlying units deposited, grown by interest accrual.
    pub total_deposited: u64,
    /// Underlying units owed by borrowers, grown by interest accrual.
    pub total_borrowed: u64,
    /// Outstanding deposit shares; zero exactly when nothing is deposited.
    pub total_deposited_shares: u64,
    /// Outstanding borrow shares; zero exactly when nothing is borrowed.
    pub total_borrowed_shares: u64,
    /// Health-factor boundary (in `SCALE` units) below which liquidation
    /// is permitted; at least `max_ltv`.
    pub liquidation_threshold: u64,
    /// Extra fraction of seized collateral awarded to a liquidator.
    pub liquidation_bonus: u64,
    /// Largest fraction of outstanding debt one liquidation may repay.
    pub liquidation_close_factor: u64,
    /// Largest fraction of collateral value a borrower may draw.
    pub max_ltv: u64,
    /// Timestamp of the last interest accrual; monotonically non-decreasing.
    pub last_updated: i64,
    /// Interest rate parameter, in `RATE_SCALE` units per unit of time.
    pub interest_rate: u64,
}

impl Bank {
    /// Well-formedness, established at creation and preserved by every
    /// operation: shares and amounts are zero together, debt never
    /// exceeds deposits, risk fractions are proper, and the clock is sane.
    pub open spec fn wf(self) -> bool {
        &&& self.total_borrowed <= self.total_deposited
        &&& (self.total_deposited == 0 <==> self.total_deposited_shares == 0)
        &&& (self.total_borrowed == 0 <==> self.total_borrowed_shares == 0)
        &&& self.max_ltv <= self.liquidation_threshold <= SCALE
        &&& self.liquidation_bonus <= SCALE
        &&& self.liquidation_close_factor <= SCALE
        &&& self.last_updated >= 0
    }

    /// Idle liquidity: what can still be withdrawn or borrowed.
    pub open spec fn available_liquidity(self) -> int {
        self.total_deposited - self.total_borrowed
    }
}

/// One account's position: a single collateral slot and a single debt
/// slot, each tied to one pool. A drained position is zeroed, never
/// removed.
#[derive(Clone, Copy, Debug, PartialEq, Eq, Structural)]
pub struct User {
    /// Account identity.
    pub owner: u64,
    /// Collateral value in underlying units, as of the last touch.
    pub deposited_amount: u64,
    /// Collateral claim in deposit shares of the collateral pool.
    pub deposited_shares: u64,
    /// Debt in underlying units, as of the last touch.
    pub borrowed_amount: u64,
    /// Debt in borrow shares of the debt pool.
    pub borrowed_shares: u64,
    /// Timestamp of the last operation touching the collateral slot.
    pub last_updated_deposited: i64,
    /// Timestamp of the last operation touching the debt slot.
    pub last_updated_borrowed: i64,
}

impl User {
    /// A position's shares never exceed the pools' outstanding shares.
    pub open spec fn wf_in(self, collateral_bank: Bank, debt_bank: Bank) -> bool {
        &&& self.deposited_shares <= collateral_bank.total_deposited_shares
        &&& self.borrowed_shares <= debt_bank.total_borrowed_shares
    }
}

/// Create a pool for one asset. All totals start at zero; the risk
/// parameters are external inputs, validated here once and invariant
/// afterwards.
pub fn process_init_bank(
    authority: u64,
    mint_address: u64,
    liquidation_threshold: u64,
    liquidation_bonus: u64,
    liquidation_close_factor: u64,
    max_ltv: u64,
    interest_rate: u64,
    now: i64,
) -> (bank: Bank)
    requires
        max_ltv <= liquidation_threshold <= SCALE,
        liquidation_bonus <= SCALE,
        liquidation_close_factor <= SCALE,
        now >= 0,
    ensures
        bank == (Bank {
            authority,
            mint_address,
            total_deposited: 0u64,
            total_borrowed: 0u64,
            total_deposited_shares: 0u64,
            total_borrowed_shares: 0u64,
            liquidation_threshold,
            liquidation_bonus,
            liquidation_close_factor,
            max_ltv,
            last_updated: now,
            interest_rate,
        }),
        bank.wf(),
{
    Bank {
        authority,
        mint_address,
        total_deposited: 0,
        total_borrowed: 0,
        total_deposited_shares: 0,
        total_borrowed_shares: 0,
        liquidation_threshold,
        liquidation_bonus,
        liquidation_close_factor,
        max_ltv,
        last_updated: now,
        interest_rate,
    }
}

/// Create a pool: the entry point mirrors `process_init_bank`.
pub fn init_bank(
    authority: u64,
    mint_address: u64,
    liquidation_threshold: u64,
    liquidation_bonus: u64,
    liquidation_close_factor: u64,
    max_ltv: u64,
    interest_rate: u64,
    now: i64,
) -> (bank: Bank)
    requires
        max_ltv <= liquidation_threshold <= SCALE,
        liquidation_bonus <= SCALE,
        liquidation_close_factor <= SCALE,
        now >= 0,
    ensures
        bank == (Bank {
            authority,
            mint_address,
            total_deposited: 0u64,
            total_borrowed: 0u64,
            total_deposited_shares: 0u64,
            total_borrowed_shares: 0u64,
            liquidation_threshold,
            liquidation_bonus,
            liquidation_close_factor,
            max_ltv,
            last_updated: now,
            interest_rate,
        }),
        bank.wf(),
{
    process_init_bank(
        authority,
        mint_address,
        liquidation_threshold,
        liquidation_bonus,
        liquidation_close_factor,
        max_ltv,
        interest_rate,
        now,
    )
}

/// Create an empty position for an account.
pub fn init_user(owner: u64) -> (user: User)
    ensures
        user == (User {
            owner,
            deposited_amount: 0u64,
            deposited_shares: 0u64,
            borrowed_amount: 0u64,
            borrowed_shares: 0u64,
            last_updated_deposited: 0i64,
            last_updated_borrowed: 0i64,
        }),
        forall|c: Bank, d: Bank| user.wf_in(c, d),
{
    User {
        owner,
        deposited_amount: 0,
        deposited_shares: 0,
        borrowed_amount: 0,
        borrowed_shares: 0,
        last_updated_deposited: 0,
        last_updated_borrowed: 0,
    }
}

} // verus!
