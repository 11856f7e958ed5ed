//! Accounting core of a collateralized lending protocol.
//!
//! The library tracks pooled asset reserves and per-user positions
//! expressed as proportional shares, accrues continuous-compound interest,
//! enforces collateralization limits at borrow time, and computes
//! liquidation payouts for under-collateralized positions.  Token custody
//! movement, oracle retrieval and record persistence are external
//! collaborators: the operations here take plain values (prices,
//! timestamps) and return the transfer amounts the caller must move.

pub mod borrow;
pub mod deposit;
pub mod error;
pub mod interest;
pub mod laws;
pub mod liquidate;
pub mod oracle;
pub mod repay;
pub mod shares;
pub mod state;
pub mod withdraw;
