//! Error kinds of the ledger.
//!
//! Every error is fatal to the enclosing operation: no partial state is
//! ever committed. Each kind is distinguishable to the caller.

use vstd::prelude::*;

verus! {

/// Why a ledger operation was refused.
#[derive(Clone, Copy, Debug, PartialEq, Eq, Structural)]
pub enum ErrorCode {
    /// A deposit request failed input validation.
    BorrowAmountTooLarge,
    /// A withdrawal would leave the position under-collateralized.
    WithdrawAmountExceedsCollateralValue,
    /// A withdrawal asks for more than the position's collateral is worth,
    /// or more than the pool's idle liquidity.
    OverWithdrawRequest,
    /// Arithmetic overflow, underflow or division by zero.
    MathOverflow,
    /// A borrow asks for more than the pool's idle liquidity.
    OverBorrowRequest,
    /// A repayment exceeds what the position owes, or would retire the
    /// pool's whole debt while other positions still hold borrow shares.
    OverRepayRequest,
    /// Liquidation was attempted on a solvent position.
    HealthyAccount,
    /// A borrow would push the position past the loan-to-value limit.
    OverBorrowableAmount,
    /// The price oracle reading is stale, invalid, or zero.
    InvalidPriceFeed,
}

} // verus!
