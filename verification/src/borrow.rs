use vstd::prelude::*;

use crate::error::ErrorCode;
use crate::interest::{accrue, accrue_ok, accrued_value};
use crate::shares::{entry_shares, lemma_mul_div_le, lemma_proportional_nonneg};
use crate::state::{AssetClass, AssetPool, Position, SCALE};
use vstd::arithmetic::div_mod::lemma_div_pos_is_pos;
use vstd::arithmetic::mul::{lemma_mul_inequality, lemma_mul_nonnegative, lemma_mul_upper_bound};

verus! {

/// Oracle-priced, interest-accrued value of the collateral backing a
/// borrow of class `asset`: the position's deposit in the other class,
/// grown by the collateral pool's rate since the position's deposit leg
/// was last touched, weighted by `price` (scaled by [`SCALE`]).
pub open spec fn collateral_value(
    collateral_pool: AssetPool,
    position: Position,
    asset: AssetClass,
    price: u64,
    now: u64,
) -> int {
    let accrued = accrued_value(
        position.spec_deposit_amount(asset.spec_other()) as int,
        collateral_pool.interest_rate * (now - position.last_updated),
    );
    price * accrued / (SCALE as int)
}

/// The borrowing limit a position's collateral supports: its collateral
/// value weighted by the collateral pool's liquidation threshold.
pub open spec fn borrowable_amount(
    collateral_pool: AssetPool,
    position: Position,
    asset: AssetClass,
    price: u64,
    now: u64,
) -> int {
    collateral_value(collateral_pool, position, asset, price, now)
        * collateral_pool.liquidation_threshold / (SCALE as int)
}

/// Conditions under which a borrow succeeds: the amount is positive, the
/// collateral accrual succeeds (an empty collateral leg accrues to zero,
/// a non-empty one needs an exponent inside the engine's domain), the
/// amount is within the collateral-derived limit, and each ledger
/// increment fits the integer range.
pub open spec fn borrow_ok(
    borrow_pool: AssetPool,
    collateral_pool: AssetPool,
    position: Position,
    asset: AssetClass,
    price: u64,
    amount: u64,
    now: u64,
) -> bool {
    let delta = entry_shares(
        amount as int,
        borrow_pool.total_borrow_shares as int,
        borrow_pool.total_borrows as int,
    );
    &&& amount >= 1
    &&& accrue_ok(
        position.spec_deposit_amount(asset.spec_other()),
        collateral_pool.interest_rate,
        (now - position.last_updated) as u64,
    )
    &&& amount <= borrowable_amount(collateral_pool, position, asset, price, now)
    &&& borrow_pool.total_borrows + amount <= u64::MAX
    &&& borrow_pool.total_borrow_shares + delta <= u64::MAX
    &&& position.spec_borrow_amount(asset) + amount <= u64::MAX
    &&& position.spec_borrow_shares(asset) + delta <= u64::MAX
}

/// Lends `amount` of class `asset` to the position's owner against the
/// collateral the position holds in the other class.
///
/// The collateral is valued at the oracle `price` (scaled by [`SCALE`])
/// after interest has accrued on it since the deposit leg was last
/// touched; the request must not exceed that value weighted by the
/// collateral pool's liquidation threshold.  The caller transfers `amount`
/// from the borrow pool's reserve to the user's token account in the same
/// atomic transaction, under that pool's signing authority.
///
/// The first borrow from an empty pool side seeds principal and shares one
/// for one; later borrows are charged `total shares * amount / total
/// borrows` share units, computed from the totals before the borrow.  On
/// any error nothing is changed.
pub fn borrow(
    borrow_pool: &mut AssetPool,
    collateral_pool: &AssetPool,
    position: &mut Position,
    asset: AssetClass,
    price: u64,
    amount: u64,
    now: u64,
) -> (r: Result<(), ErrorCode>)
    requires
        old(borrow_pool).share_pairing(),
        collateral_pool.params_bounded(),
        now >= old(position).last_updated,
    ensures
        final(borrow_pool).share_pairing(),
        r is Ok <==> borrow_ok(
            *old(borrow_pool),
            *collateral_pool,
            *old(position),
            asset,
            price,
            amount,
            now,
        ),
        r == Err::<(), ErrorCode>(ErrorCode::InvalidAmount) <==> amount == 0,
        r == Err::<(), ErrorCode>(ErrorCode::OverBorrowableAmount) <==> (amount >= 1 && accrue_ok(
            old(position).spec_deposit_amount(asset.spec_other()),
            collateral_pool.interest_rate,
            (now - old(position).last_updated) as u64,
        ) && amount > borrowable_amount(*collateral_pool, *old(position), asset, price, now)),
        r is Err ==> *final(borrow_pool) == *old(borrow_pool) && *final(position) == *old(
            position,
        ),
        r is Ok ==> ({
            let delta = entry_shares(
                amount as int,
                old(borrow_pool).total_borrow_shares as int,
                old(borrow_pool).total_borrows as int,
            );
            &&& *final(borrow_pool) == (AssetPool {
                total_borrows: (old(borrow_pool).total_borrows + amount) as u64,
                total_borrow_shares: (old(borrow_pool).total_borrow_shares + delta) as u64,
                ..*old(borrow_pool)
            })
            &&& *final(position) == old(position).with_borrow_leg(
                asset,
                (old(position).spec_borrow_amount(asset) + amount) as u64,
                (old(position).spec_borrow_shares(asset) + delta) as u64,
            )
        }),
        r is Ok ==> final(borrow_pool).total_borrow_shares - old(
            borrow_pool,
        ).total_borrow_shares == final(position).spec_borrow_shares(asset) - old(
            position,
        ).spec_borrow_shares(asset),
{
    if amount == 0 {
        return Err(ErrorCode::InvalidAmount);
    }
    let collateral_deposit: u64 = position.deposit_amount(asset.other());
    let elapsed: u64 = now - position.last_updated;
    let accrued: u64 = match accrue(collateral_deposit, collateral_pool.interest_rate, elapsed) {
        Ok(v) => v,
        Err(e) => {
            return Err(e);
        },
    };
    proof {
        lemma_mul_upper_bound(
            price as int,
            18_446_744_073_709_551_615,
            accrued as int,
            18_446_744_073_709_551_615,
        );
        lemma_mul_nonnegative(price as int, accrued as int);
        lemma_div_pos_is_pos(price as int * accrued as int, SCALE as int);
    }
    let value128: u128 = (price as u128) * (accrued as u128) / (SCALE as u128);
    proof {
        let v = price as int * accrued as int / (SCALE as int);
        lemma_mul_inequality(
            collateral_pool.liquidation_threshold as int,
            SCALE as int,
            v,
        );
        assert(collateral_pool.liquidation_threshold as int * v == v
            * collateral_pool.liquidation_threshold as int) by (nonlinear_arith);
        assert(SCALE as int * v == v * SCALE as int) by (nonlinear_arith);
        lemma_mul_div_le(price as int * accrued as int, SCALE as int);
        lemma_mul_nonnegative(v, collateral_pool.liquidation_threshold as int);
        lemma_div_pos_is_pos(v * collateral_pool.liquidation_threshold as int, SCALE as int);
    }
    let borrowable128: u128 = value128 * (collateral_pool.liquidation_threshold as u128)
        / (SCALE as u128);
    if (amount as u128) > borrowable128 {
        return Err(ErrorCode::OverBorrowableAmount);
    }
    let b: u64 = borrow_pool.total_borrows;
    let s: u64 = borrow_pool.total_borrow_shares;
    let delta128: u128 = if b == 0 {
        amount as u128
    } else {
        proof {
            lemma_mul_upper_bound(
                amount as int,
                18_446_744_073_709_551_615,
                s as int,
                18_446_744_073_709_551_615,
            );
        }
        (amount as u128) * (s as u128) / (b as u128)
    };
    proof {
        assert(delta128 == entry_shares(amount as int, s as int, b as int));
        if b > 0 {
            lemma_proportional_nonneg(amount as int, s as int, b as int);
        }
    }
    if delta128 > (u64::MAX - s) as u128 {
        return Err(ErrorCode::ArithmeticOverflow);
    }
    let delta: u64 = delta128 as u64;
    if amount > u64::MAX - b {
        return Err(ErrorCode::ArithmeticOverflow);
    }
    let user_amount: u64 = position.borrow_amount(asset);
    let user_shares: u64 = position.borrow_shares(asset);
    if amount > u64::MAX - user_amount {
        return Err(ErrorCode::ArithmeticOverflow);
    }
    if delta > u64::MAX - user_shares {
        return Err(ErrorCode::ArithmeticOverflow);
    }
    borrow_pool.total_borrows = b + amount;
    borrow_pool.total_borrow_shares = s + delta;
    match asset {
        AssetClass::Primary => {
            position.borrow_primary = user_amount + amount;
            position.borrow_primary_shares = user_shares + delta;
        },
        AssetClass::Secondary => {
            position.borrow_secondary = user_amount + amount;
            position.borrow_secondary_shares = user_shares + delta;
        },
    }
    Ok(())
}

} // verus!
