//! A collateralized lending ledger.
//!
//! Accounts deposit an asset as collateral and borrow a different asset
//! against it. The ledger tracks pooled liquidity through proportional
//! shares, accrues interest lazily on every touch, and enforces
//! loan-to-value and health-factor limits. Token custody, signatures and
//! oracle plumbing are external collaborators: this crate is the pure
//! state-transition core, and every operation is verified.

pub mod error;
pub mod math;
pub mod shares;
pub mod state;
pub mod accrual;
pub mod risk;
pub mod ops;
pub mod liquidation;
pub mod laws;
pub mod registry;

pub use error::ErrorCode;
