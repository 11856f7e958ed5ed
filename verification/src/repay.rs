use vstd::prelude::*;

use crate::error::ErrorCode;
use crate::shares::{
    lemma_proportional_full, lemma_proportional_le_shares, lemma_proportional_nonneg,
    lemma_proportional_partial, proportional_shares,
};
use crate::state::{AssetClass, AssetPool, Position};
use vstd::arithmetic::mul::lemma_mul_upper_bound;

verus! {

/// Conditions under which a repayment succeeds: a positive amount within
/// both the position's recorded debt and the pool's borrow total, a
/// non-empty borrow side, and a share decrement within the position's
/// balance.
pub open spec fn repay_ok(
    pool: AssetPool,
    position: Position,
    asset: AssetClass,
    amount: u64,
) -> bool {
    let b = pool.total_borrows as int;
    let s = pool.total_borrow_shares as int;
    &&& amount >= 1
    &&& amount <= position.spec_borrow_amount(asset)
    &&& b >= 1
    &&& amount <= b
    &&& proportional_shares(amount as int, s, b) <= position.spec_borrow_shares(asset)
}

/// Pays `amount` of class `asset` back into the pool and debits the
/// position's borrow leg and share units proportionally.
///
/// The caller transfers `amount` from the user's token account into the
/// pool reserve in the same atomic transaction; a rejected transfer aborts
/// the whole operation.  The share units released are `total shares *
/// amount / total borrows`, computed from the totals before the repayment.
///
/// A repayment above the recorded debt is rejected as exceeding what is
/// owed; an empty borrow side as a division by zero; a decrement below
/// zero as an overflow.  On any error nothing is changed.
pub fn repay(
    pool: &mut AssetPool,
    position: &mut Position,
    asset: AssetClass,
    amount: u64,
) -> (r: Result<(), ErrorCode>)
    requires
        old(pool).share_pairing(),
    ensures
        final(pool).share_pairing(),
        r is Ok <==> repay_ok(*old(pool), *old(position), asset, amount),
        r == Err::<(), ErrorCode>(ErrorCode::InvalidAmount) <==> amount == 0,
        r == Err::<(), ErrorCode>(ErrorCode::RepayExceedsOwed) <==> (amount >= 1 && amount > old(
            position,
        ).spec_borrow_amount(asset)),
        r == Err::<(), ErrorCode>(ErrorCode::DivisionByZero) <==> (amount >= 1 && amount <= old(
            position,
        ).spec_borrow_amount(asset) && old(pool).total_borrows == 0),
        r is Err ==> *final(pool) == *old(pool) && *final(position) == *old(position),
        r is Ok ==> ({
            let owed = old(position).spec_borrow_amount(asset);
            let us = old(position).spec_borrow_shares(asset);
            let b = old(pool).total_borrows as int;
            let s = old(pool).total_borrow_shares as int;
            let delta = proportional_shares(amount as int, s, b);
            &&& *final(pool) == (AssetPool {
                total_borrows: (b - amount) as u64,
                total_borrow_shares: (s - delta) as u64,
                ..*old(pool)
            })
            &&& *final(position) == old(position).with_borrow_leg(
                asset,
                (owed - amount) as u64,
                (us - delta) as u64,
            )
        }),
        r is Ok ==> final(pool).total_borrow_shares - old(pool).total_borrow_shares
            == final(position).spec_borrow_shares(asset) - old(position).spec_borrow_shares(asset),
{
    if amount == 0 {
        return Err(ErrorCode::InvalidAmount);
    }
    let owed: u64 = position.borrow_amount(asset);
    if amount > owed {
        return Err(ErrorCode::RepayExceedsOwed);
    }
    let b: u64 = pool.total_borrows;
    let s: u64 = pool.total_borrow_shares;
    if b == 0 {
        return Err(ErrorCode::DivisionByZero);
    }
    if amount > b {
        return Err(ErrorCode::ArithmeticOverflow);
    }
    proof {
        lemma_mul_upper_bound(
            amount as int,
            18_446_744_073_709_551_615,
            s as int,
            18_446_744_073_709_551_615,
        );
        lemma_proportional_nonneg(amount as int, s as int, b as int);
        lemma_proportional_le_shares(amount as int, s as int, b as int);
    }
    let delta128: u128 = (amount as u128) * (s as u128) / (b as u128);
    let delta: u64 = delta128 as u64;
    let user_shares: u64 = position.borrow_shares(asset);
    if delta > user_shares {
        return Err(ErrorCode::ArithmeticOverflow);
    }
    proof {
        if amount == b {
            lemma_proportional_full(amount as int, s as int, b as int);
        } else {
            lemma_proportional_partial(amount as int, s as int, b as int);
        }
    }
    pool.total_borrows = b - amount;
    pool.total_borrow_shares = s - delta;
    match asset {
        AssetClass::Primary => {
            position.borrow_primary = owed - amount;
            position.borrow_primary_shares = user_shares - delta;
        },
        AssetClass::Secondary => {
            position.borrow_secondary = owed - amount;
            position.borrow_secondary_shares = user_shares - delta;
        },
    }
    Ok(())
}

} // verus!
