use vstd::prelude::*;

use crate::error::ErrorCode;
use crate::interest::{accrue, accrue_ok, accrued_value};
use crate::shares::{
    lemma_proportional_full, lemma_proportional_le_shares, lemma_proportional_nonneg,
    lemma_proportional_partial, proportional_shares,
};
use crate::state::{AssetClass, AssetPool, Position};
use vstd::arithmetic::mul::lemma_mul_upper_bound;

verus! {

/// The pool's deposit principal after interest has accrued for the time
/// elapsed since the pool's last accrual.
pub open spec fn accrued_deposits(pool: AssetPool, now: u64) -> int {
    accrued_value(pool.total_deposits as int, pool.interest_rate * (now - pool.last_accrual_time))
}

/// The value redeemable by a position holding `user_amount` of deposit
/// principal, in share-adjusted units: `user_amount / (value per share)`
/// with `value per share == accrued deposits / total shares`.
pub open spec fn redeemable_value(user_amount: int, shares: int, accrued_total: int) -> int {
    user_amount * shares / accrued_total
}

/// Conditions under which a withdrawal succeeds: a positive amount within
/// the position's recorded balance, a successful accrual of the pool's
/// deposit total, a non-empty pool side, a redeemable value covering the
/// request, and share decrements that stay within both ledgers.
pub open spec fn withdraw_ok(
    pool: AssetPool,
    position: Position,
    asset: AssetClass,
    amount: u64,
    now: u64,
) -> bool {
    let u = position.spec_deposit_amount(asset) as int;
    let s = pool.total_deposit_shares as int;
    let d1 = accrued_deposits(pool, now);
    &&& amount >= 1
    &&& amount <= u
    &&& accrue_ok(pool.total_deposits, pool.interest_rate, (now - pool.last_accrual_time) as u64)
    &&& s >= 1
    &&& redeemable_value(u, s, d1) >= amount
    &&& amount <= d1
    &&& proportional_shares(amount as int, s, d1) <= position.spec_deposit_shares(asset)
}

/// Removes `amount` of principal of class `asset` from the pool's deposit
/// side and debits the position's share units proportionally.
///
/// Interest accrues on the pool's deposit total for the time elapsed since
/// the pool's last accrual before anything is checked against the pool;
/// the accrued total is what a successful withdrawal commits and debits.
/// The caller transfers `amount` from the pool reserve to the user's token
/// account in the same atomic transaction, under the pool's own signing
/// authority; a rejected transfer aborts the whole operation.
///
/// A request above the recorded balance, or above the accrued redeemable
/// value, is rejected as insufficient funds; an empty share total as a
/// division by zero; a failed accrual or a decrement below zero as an
/// overflow.  On any error nothing is changed.
pub fn withdraw(
    pool: &mut AssetPool,
    position: &mut Position,
    asset: AssetClass,
    amount: u64,
    now: u64,
) -> (r: Result<(), ErrorCode>)
    requires
        old(pool).share_pairing(),
        now >= old(pool).last_accrual_time,
    ensures
        final(pool).share_pairing(),
        r is Ok <==> withdraw_ok(*old(pool), *old(position), asset, amount, now),
        r == Err::<(), ErrorCode>(ErrorCode::InvalidAmount) <==> amount == 0,
        r == Err::<(), ErrorCode>(ErrorCode::InsufficientFunds) <==> (amount >= 1 && ({
            let u = old(position).spec_deposit_amount(asset) as int;
            let s = old(pool).total_deposit_shares as int;
            ||| amount > u
            ||| (accrue_ok(
                old(pool).total_deposits,
                old(pool).interest_rate,
                (now - old(pool).last_accrual_time) as u64,
            ) && s >= 1 && redeemable_value(u, s, accrued_deposits(*old(pool), now)) < amount)
        })),
        r == Err::<(), ErrorCode>(ErrorCode::DivisionByZero) <==> (amount >= 1 && amount <= old(
            position,
        ).spec_deposit_amount(asset) && accrue_ok(
            old(pool).total_deposits,
            old(pool).interest_rate,
            (now - old(pool).last_accrual_time) as u64,
        ) && old(pool).total_deposit_shares == 0),
        r is Err ==> *final(pool) == *old(pool) && *final(position) == *old(position),
        r is Ok ==> ({
            let u = old(position).spec_deposit_amount(asset);
            let us = old(position).spec_deposit_shares(asset);
            let s = old(pool).total_deposit_shares as int;
            let d1 = accrued_deposits(*old(pool), now);
            let delta = proportional_shares(amount as int, s, d1);
            &&& *final(pool) == (AssetPool {
                total_deposits: (d1 - amount) as u64,
                total_deposit_shares: (s - delta) as u64,
                last_accrual_time: now,
                ..*old(pool)
            })
            &&& *final(position) == old(position).with_deposit_leg(
                asset,
                (u - amount) as u64,
                (us - delta) as u64,
            )
        }),
        r is Ok ==> final(pool).total_deposit_shares - old(pool).total_deposit_shares
            == final(position).spec_deposit_shares(asset) - old(
            position,
        ).spec_deposit_shares(asset),
{
    if amount == 0 {
        return Err(ErrorCode::InvalidAmount);
    }
    let user_amount: u64 = position.deposit_amount(asset);
    if amount > user_amount {
        return Err(ErrorCode::InsufficientFunds);
    }
    let elapsed: u64 = now - pool.last_accrual_time;
    let d1: u64 = match accrue(pool.total_deposits, pool.interest_rate, elapsed) {
        Ok(v) => v,
        Err(e) => {
            return Err(e);
        },
    };
    let s: u64 = pool.total_deposit_shares;
    if s == 0 {
        return Err(ErrorCode::DivisionByZero);
    }
    proof {
        lemma_mul_upper_bound(
            user_amount as int,
            18_446_744_073_709_551_615,
            s as int,
            18_446_744_073_709_551_615,
        );
        lemma_mul_upper_bound(
            amount as int,
            18_446_744_073_709_551_615,
            s as int,
            18_446_744_073_709_551_615,
        );
    }
    let user_value: u128 = (user_amount as u128) * (s as u128) / (d1 as u128);
    if user_value < amount as u128 {
        return Err(ErrorCode::InsufficientFunds);
    }
    if amount > d1 {
        return Err(ErrorCode::ArithmeticOverflow);
    }
    let delta128: u128 = (amount as u128) * (s as u128) / (d1 as u128);
    proof {
        lemma_proportional_nonneg(amount as int, s as int, d1 as int);
        lemma_proportional_le_shares(amount as int, s as int, d1 as int);
    }
    let delta: u64 = delta128 as u64;
    let user_shares: u64 = position.deposit_shares(asset);
    if delta > user_shares {
        return Err(ErrorCode::ArithmeticOverflow);
    }
    proof {
        if amount == d1 {
            lemma_proportional_full(amount as int, s as int, d1 as int);
        } else {
            lemma_proportional_partial(amount as int, s as int, d1 as int);
        }
    }
    pool.total_deposits = d1 - amount;
    pool.total_deposit_shares = s - delta;
    pool.last_accrual_time = now;
    match asset {
        AssetClass::Primary => {
            position.deposit_primary = user_amount - amount;
            position.deposit_primary_shares = user_shares - delta;
        },
        AssetClass::Secondary => {
            position.deposit_secondary = user_amount - amount;
            position.deposit_secondary_shares = user_shares - delta;
        },
    }
    Ok(())
}

} // verus!
