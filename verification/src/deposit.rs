use vstd::prelude::*;

use crate::error::ErrorCode;
use crate::shares::{entry_shares, lemma_proportional_nonneg};
use crate::state::{AssetClass, AssetPool, Position};
use vstd::arithmetic::mul::lemma_mul_upper_bound;

verus! {

/// Conditions under which a deposit succeeds: the amount is positive and
/// each of the four ledger increments fits the integer range.
pub open spec fn deposit_ok(
    pool: AssetPool,
    position: Position,
    asset: AssetClass,
    amount: u64,
) -> bool {
    let delta = entry_shares(
        amount as int,
        pool.total_deposit_shares as int,
        pool.total_deposits as int,
    );
    &&& amount >= 1
    &&& pool.total_deposits + amount <= u64::MAX
    &&& pool.total_deposit_shares + delta <= u64::MAX
    &&& position.spec_deposit_amount(asset) + amount <= u64::MAX
    &&& position.spec_deposit_shares(asset) + delta <= u64::MAX
}

/// Adds `amount` of principal of class `asset` to the pool and credits the
/// position with the corresponding share units.
///
/// The caller transfers `amount` from the user's token account into the
/// pool reserve in the same atomic transaction; a rejected transfer aborts
/// the whole operation, ledger mutation included.
///
/// The first deposit into an empty pool seeds principal and shares one for
/// one; later deposits receive `total shares * amount / total deposits`,
/// computed from the totals before the deposit.  A zero amount is rejected
/// as invalid, an increment past the integer range as an overflow; on any
/// error nothing is changed.
pub fn deposit(
    pool: &mut AssetPool,
    position: &mut Position,
    asset: AssetClass,
    amount: u64,
    now: u64,
) -> (r: Result<(), ErrorCode>)
    requires
        old(pool).share_pairing(),
    ensures
        final(pool).share_pairing(),
        r is Ok <==> deposit_ok(*old(pool), *old(position), asset, amount),
        r == Err::<(), ErrorCode>(ErrorCode::InvalidAmount) <==> amount == 0,
        r == Err::<(), ErrorCode>(ErrorCode::ArithmeticOverflow) <==> (amount >= 1
            && !deposit_ok(*old(pool), *old(position), asset, amount)),
        r is Err ==> *final(pool) == *old(pool) && *final(position) == *old(position),
        r is Ok ==> ({
            let delta = entry_shares(
                amount as int,
                old(pool).total_deposit_shares as int,
                old(pool).total_deposits as int,
            );
            &&& *final(pool) == (AssetPool {
                total_deposits: (old(pool).total_deposits + amount) as u64,
                total_deposit_shares: (old(pool).total_deposit_shares + delta) as u64,
                ..*old(pool)
            })
            &&& *final(position) == (Position {
                last_updated: now,
                ..old(position).with_deposit_leg(
                    asset,
                    (old(position).spec_deposit_amount(asset) + amount) as u64,
                    (old(position).spec_deposit_shares(asset) + delta) as u64,
                )
            })
        }),
        r is Ok ==> final(pool).total_deposit_shares - old(pool).total_deposit_shares
            == final(position).spec_deposit_shares(asset) - old(
            position,
        ).spec_deposit_shares(asset),
{
    if amount == 0 {
        return Err(ErrorCode::InvalidAmount);
    }
    let d: u64 = pool.total_deposits;
    let s: u64 = pool.total_deposit_shares;
    let delta128: u128 = if d == 0 {
        amount as u128
    } else {
        proof {
            lemma_mul_upper_bound(
                amount as int,
                18_446_744_073_709_551_615,
                s as int,
                18_446_744_073_709_551_615,
            );
        }
        (amount as u128) * (s as u128) / (d as u128)
    };
    proof {
        assert(delta128 == entry_shares(amount as int, s as int, d as int));
        if d > 0 {
            lemma_proportional_nonneg(amount as int, s as int, d as int);
        }
    }
    if delta128 > (u64::MAX - s) as u128 {
        return Err(ErrorCode::ArithmeticOverflow);
    }
    let delta: u64 = delta128 as u64;
    if amount > u64::MAX - d {
        return Err(ErrorCode::ArithmeticOverflow);
    }
    let user_amount: u64 = position.deposit_amount(asset);
    let user_shares: u64 = position.deposit_shares(asset);
    if amount > u64::MAX - user_amount {
        return Err(ErrorCode::ArithmeticOverflow);
    }
    if delta > u64::MAX - user_shares {
        return Err(ErrorCode::ArithmeticOverflow);
    }
    pool.total_deposits = d + amount;
    pool.total_deposit_shares = s + delta;
    match asset {
        AssetClass::Primary => {
            position.deposit_primary = user_amount + amount;
            position.deposit_primary_shares = user_shares + delta;
        },
        AssetClass::Secondary => {
            position.deposit_secondary = user_amount + amount;
            position.deposit_secondary_shares = user_shares + delta;
        },
    }
    position.last_updated = now;
    Ok(())
}

} // verus!
