use vstd::prelude::*;

verus! {

/// The failure kinds an operation can report.
///
/// Every operation is all-or-nothing: when one of these is returned, no
/// ledger field has been changed.
#[derive(Clone, Copy, Debug, PartialEq, Eq, Structural)]
pub enum ErrorCode {
    /// A withdrawal asks for more than the available deposit balance.
    InsufficientFunds,
    /// A borrow asks for more than the collateral-derived limit.
    OverBorrowableAmount,
    /// A repayment exceeds the amount actually owed.
    RepayExceedsOwed,
    /// A liquidation was attempted against a healthy position.
    NotUnderCollateralized,
    /// An oracle price is older than the accepted maximum age.
    StalePrice,
    /// No oracle feed is known for the requested asset.
    UnknownFeed,
    /// The token transfer service refused the requested movement.
    TransferRejected,
    /// A ledger computation would overflow or underflow its integer range.
    ArithmeticOverflow,
    /// A ledger computation would divide by zero.
    DivisionByZero,
    /// The requested amount is zero.
    InvalidAmount,
}

} // verus!
