use vstd::prelude::*;

use crate::error::ErrorCode;
use crate::interest::{accrue, accrue_ok, accrued_value};
use crate::shares::{
    lemma_mul_div_le, lemma_proportional_full, lemma_proportional_le_shares,
    lemma_proportional_nonneg, lemma_proportional_partial, proportional_shares,
};
use crate::state::{AssetClass, AssetPool, Position, SCALE};
use vstd::arithmetic::div_mod::{lemma_div_of0, lemma_div_pos_is_pos};
use vstd::arithmetic::mul::{lemma_mul_inequality, lemma_mul_nonnegative, lemma_mul_upper_bound};

verus! {

/// What a successful liquidation tells the caller to move: the debt the
/// liquidator repays into the borrowed-asset pool reserve, and the
/// collateral paid out of the collateral pool reserve to the liquidator.
#[derive(Clone, Copy, Debug, PartialEq, Eq, Structural)]
pub struct LiquidationOutcome {
    /// Borrowed-asset amount the liquidator repays.
    pub liquidation_amount: u64,
    /// Collateral-asset amount the liquidator receives, bonus included.
    pub liquidator_payout: u64,
}

/// Oracle-priced, interest-accrued value of the target's collateral
/// deposit in class `ca`.
pub open spec fn total_collateral(
    collateral_pool: AssetPool,
    position: Position,
    ca: AssetClass,
    price: u64,
    now: u64,
) -> int {
    price * accrued_value(
        position.spec_deposit_amount(ca) as int,
        collateral_pool.interest_rate * (now - position.last_updated),
    ) / (SCALE as int)
}

/// Oracle-priced, interest-accrued value of the target's debt in class `ba`.
pub open spec fn total_borrowed(
    borrowed_pool: AssetPool,
    position: Position,
    ba: AssetClass,
    price: u64,
    now: u64,
) -> int {
    price * accrued_value(
        position.spec_borrow_amount(ba) as int,
        borrowed_pool.interest_rate * (now - position.last_updated_borrowed),
    ) / (SCALE as int)
}

/// A position is healthy when its health factor is at least one: its
/// risk-weighted collateral value covers its borrowed value.
pub open spec fn healthy(tc: int, liquidation_threshold: u64, tb: int) -> bool {
    tc * liquidation_threshold >= tb * SCALE
}

/// The debt portion a liquidator repays: the borrowed value weighted by
/// the borrowed pool's close factor.
pub open spec fn liquidation_amount_of(tb: int, close_factor: u64) -> int {
    tb * close_factor / (SCALE as int)
}

/// The collateral a liquidator receives: the repaid portion grown by the
/// collateral pool's liquidation bonus.
pub open spec fn payout_of(liq: int, bonus: u64) -> int {
    liq * (SCALE + bonus) / (SCALE as int)
}

/// Share units released on the borrow side for repaying `liq`.
pub open spec fn liq_borrow_delta(borrowed_pool: AssetPool, liq: int) -> int {
    if liq == 0 {
        0
    } else {
        proportional_shares(
            liq,
            borrowed_pool.total_borrow_shares as int,
            borrowed_pool.total_borrows as int,
        )
    }
}

/// Share units released on the deposit side for seizing `payout`.
pub open spec fn liq_deposit_delta(collateral_pool: AssetPool, payout: int) -> int {
    if payout == 0 {
        0
    } else {
        proportional_shares(
            payout,
            collateral_pool.total_deposit_shares as int,
            collateral_pool.total_deposits as int,
        )
    }
}

/// Conditions under which a liquidation succeeds: both accruals succeed,
/// the position is unhealthy, the repaid and seized amounts fit the
/// integer range, and every decrement stays within the ledger it debits.
pub open spec fn liquidate_ok(
    collateral_pool: AssetPool,
    borrowed_pool: AssetPool,
    position: Position,
    ca: AssetClass,
    collateral_price: u64,
    borrowed_price: u64,
    now: u64,
) -> bool {
    let ba = ca.spec_other();
    let tc = total_collateral(collateral_pool, position, ca, collateral_price, now);
    let tb = total_borrowed(borrowed_pool, position, ba, borrowed_price, now);
    let liq = liquidation_amount_of(tb, borrowed_pool.liquidation_close_factor);
    let payout = payout_of(liq, collateral_pool.liquidation_bonus);
    &&& accrue_ok(
        position.spec_deposit_amount(ca),
        collateral_pool.interest_rate,
        (now - position.last_updated) as u64,
    )
    &&& accrue_ok(
        position.spec_borrow_amount(ba),
        borrowed_pool.interest_rate,
        (now - position.last_updated_borrowed) as u64,
    )
    &&& !healthy(tc, collateral_pool.liquidation_threshold, tb)
    &&& liq <= u64::MAX
    &&& payout <= u64::MAX
    &&& (liq >= 1 ==> borrowed_pool.total_borrows >= 1 && collateral_pool.total_deposits >= 1)
    &&& liq <= position.spec_borrow_amount(ba)
    &&& liq <= borrowed_pool.total_borrows
    &&& liq_borrow_delta(borrowed_pool, liq) <= position.spec_borrow_shares(ba)
    &&& payout <= position.spec_deposit_amount(ca)
    &&& payout <= collateral_pool.total_deposits
    &&& liq_deposit_delta(collateral_pool, payout) <= position.spec_deposit_shares(ca)
}

/// A scaled product `(p * a / SCALE) * f` with `f` at most `SCALE` stays
/// under the square of the ledger's integer range.
proof fn lemma_scaled_product_bound(p: int, a: int, f: int)
    requires
        0 <= p <= 18_446_744_073_709_551_615,
        0 <= a <= 18_446_744_073_709_551_615,
        0 <= f <= SCALE as int,
    ensures
        0 <= (p * a / (SCALE as int)) * f,
        (p * a / (SCALE as int)) * f <= 18_446_744_073_709_551_615 * 18_446_744_073_709_551_615,
{
    let s = SCALE as int;
    let v = p * a / s;
    lemma_mul_nonnegative(p, a);
    lemma_div_pos_is_pos(p * a, s);
    lemma_mul_nonnegative(v, f);
    lemma_mul_inequality(f, s, v);
    assert(f * v == v * f) by (nonlinear_arith);
    assert(s * v == v * s) by (nonlinear_arith);
    lemma_mul_div_le(p * a, s);
    lemma_mul_upper_bound(
        p,
        18_446_744_073_709_551_615,
        a,
        18_446_744_073_709_551_615,
    );
}

/// Settles part of an under-collateralized position: the liquidator repays
/// a portion of the target's debt and receives collateral of that value
/// grown by the liquidation bonus, and the target's ledgers are debited
/// symmetrically.
///
/// Both the collateral deposit and the borrowed debt are valued at their
/// oracle prices (scaled by [`SCALE`]) after interest has accrued from
/// each leg's own timestamp.  A position whose health factor — risk-
/// weighted collateral value over borrowed value — is at least one is
/// healthy and cannot be liquidated.  The repaid portion is the borrowed
/// value weighted by the borrowed pool's close factor.
///
/// The caller moves the returned liquidation amount from the liquidator
/// into the borrowed pool's reserve and the returned payout from the
/// collateral pool's reserve to the liquidator, in the same atomic
/// transaction, the payout under the collateral pool's signing authority.
/// On any error nothing is changed.
pub fn liquidate(
    collateral_pool: &mut AssetPool,
    borrowed_pool: &mut AssetPool,
    position: &mut Position,
    collateral_asset: AssetClass,
    collateral_price: u64,
    borrowed_price: u64,
    now: u64,
) -> (r: Result<LiquidationOutcome, ErrorCode>)
    requires
        old(collateral_pool).share_pairing(),
        old(borrowed_pool).share_pairing(),
        old(collateral_pool).params_bounded(),
        old(borrowed_pool).params_bounded(),
        now >= old(position).last_updated,
        now >= old(position).last_updated_borrowed,
    ensures
        final(collateral_pool).share_pairing(),
        final(borrowed_pool).share_pairing(),
        r is Ok <==> liquidate_ok(
            *old(collateral_pool),
            *old(borrowed_pool),
            *old(position),
            collateral_asset,
            collateral_price,
            borrowed_price,
            now,
        ),
        r == Err::<LiquidationOutcome, ErrorCode>(ErrorCode::NotUnderCollateralized) <==> ({
            let ba = collateral_asset.spec_other();
            let tc = total_collateral(
                *old(collateral_pool),
                *old(position),
                collateral_asset,
                collateral_price,
                now,
            );
            let tb = total_borrowed(*old(borrowed_pool), *old(position), ba, borrowed_price, now);
            &&& accrue_ok(
                old(position).spec_deposit_amount(collateral_asset),
                old(collateral_pool).interest_rate,
                (now - old(position).last_updated) as u64,
            )
            &&& accrue_ok(
                old(position).spec_borrow_amount(ba),
                old(borrowed_pool).interest_rate,
                (now - old(position).last_updated_borrowed) as u64,
            )
            &&& healthy(tc, old(collateral_pool).liquidation_threshold, tb)
        }),
        r is Err ==> *final(collateral_pool) == *old(collateral_pool) && *final(borrowed_pool)
            == *old(borrowed_pool) && *final(position) == *old(position),
        r is Err ==> (r == Err::<LiquidationOutcome, ErrorCode>(ErrorCode::ArithmeticOverflow)
            || r == Err::<LiquidationOutcome, ErrorCode>(ErrorCode::DivisionByZero) || r == Err::<
            LiquidationOutcome,
            ErrorCode,
        >(ErrorCode::NotUnderCollateralized)),
        r matches Ok(outcome) ==> ({
            let ba = collateral_asset.spec_other();
            let tb = total_borrowed(*old(borrowed_pool), *old(position), ba, borrowed_price, now);
            let liq = liquidation_amount_of(tb, old(borrowed_pool).liquidation_close_factor);
            let payout = payout_of(liq, old(collateral_pool).liquidation_bonus);
            let db = liq_borrow_delta(*old(borrowed_pool), liq);
            let dc = liq_deposit_delta(*old(collateral_pool), payout);
            &&& outcome.liquidation_amount == liq
            &&& outcome.liquidator_payout == payout
            &&& *final(borrowed_pool) == (AssetPool {
                total_borrows: (old(borrowed_pool).total_borrows - liq) as u64,
                total_borrow_shares: (old(borrowed_pool).total_borrow_shares - db) as u64,
                ..*old(borrowed_pool)
            })
            &&& *final(collateral_pool) == (AssetPool {
                total_deposits: (old(collateral_pool).total_deposits - payout) as u64,
                total_deposit_shares: (old(collateral_pool).total_deposit_shares - dc) as u64,
                ..*old(collateral_pool)
            })
            &&& *final(position) == old(position).with_borrow_leg(
                ba,
                (old(position).spec_borrow_amount(ba) - liq) as u64,
                (old(position).spec_borrow_shares(ba) - db) as u64,
            ).with_deposit_leg(
                collateral_asset,
                (old(position).spec_deposit_amount(collateral_asset) - payout) as u64,
                (old(position).spec_deposit_shares(collateral_asset) - dc) as u64,
            )
        }),
        r is Ok ==> final(borrowed_pool).total_borrow_shares - old(
            borrowed_pool,
        ).total_borrow_shares == final(position).spec_borrow_shares(collateral_asset.spec_other())
            - old(position).spec_borrow_shares(collateral_asset.spec_other()),
        r is Ok ==> final(collateral_pool).total_deposit_shares - old(
            collateral_pool,
        ).total_deposit_shares == final(position).spec_deposit_shares(collateral_asset) - old(
            position,
        ).spec_deposit_shares(collateral_asset),
{
    let ba: AssetClass = collateral_asset.other();
    let held: u64 = position.deposit_amount(collateral_asset);
    let held_shares: u64 = position.deposit_shares(collateral_asset);
    let owed: u64 = position.borrow_amount(ba);
    let owed_shares: u64 = position.borrow_shares(ba);
    let acc_c: u64 = match accrue(
        held,
        collateral_pool.interest_rate,
        now - position.last_updated,
    ) {
        Ok(v) => v,
        Err(e) => {
            return Err(e);
        },
    };
    let acc_b: u64 = match accrue(
        owed,
        borrowed_pool.interest_rate,
        now - position.last_updated_borrowed,
    ) {
        Ok(v) => v,
        Err(e) => {
            return Err(e);
        },
    };
    proof {
        lemma_mul_upper_bound(
            collateral_price as int,
            18_446_744_073_709_551_615,
            acc_c as int,
            18_446_744_073_709_551_615,
        );
        lemma_mul_upper_bound(
            borrowed_price as int,
            18_446_744_073_709_551_615,
            acc_b as int,
            18_446_744_073_709_551_615,
        );
        lemma_scaled_product_bound(
            collateral_price as int,
            acc_c as int,
            collateral_pool.liquidation_threshold as int,
        );
        lemma_scaled_product_bound(borrowed_price as int, acc_b as int, SCALE as int);
        lemma_scaled_product_bound(
            borrowed_price as int,
            acc_b as int,
            borrowed_pool.liquidation_close_factor as int,
        );
    }
    let tc: u128 = (collateral_price as u128) * (acc_c as u128) / (SCALE as u128);
    let tb: u128 = (borrowed_price as u128) * (acc_b as u128) / (SCALE as u128);
    if tc * (collateral_pool.liquidation_threshold as u128) >= tb * (SCALE as u128) {
        return Err(ErrorCode::NotUnderCollateralized);
    }
    let liq128: u128 = tb * (borrowed_pool.liquidation_close_factor as u128) / (SCALE as u128);
    if liq128 > u64::MAX as u128 {
        return Err(ErrorCode::ArithmeticOverflow);
    }
    let liq: u64 = liq128 as u64;
    let factor: u64 = SCALE + collateral_pool.liquidation_bonus;
    proof {
        lemma_mul_upper_bound(liq as int, 18_446_744_073_709_551_615, factor as int, 2_000_000);
        lemma_mul_nonnegative(liq as int, factor as int);
        lemma_div_pos_is_pos(liq as int * factor as int, SCALE as int);
        if liq == 0 {
            lemma_div_of0(SCALE as int);
        }
    }
    let payout128: u128 = (liq as u128) * (factor as u128) / (SCALE as u128);
    if payout128 > u64::MAX as u128 {
        return Err(ErrorCode::ArithmeticOverflow);
    }
    let payout: u64 = payout128 as u64;
    let bb: u64 = borrowed_pool.total_borrows;
    let sb: u64 = borrowed_pool.total_borrow_shares;
    let dc: u64 = collateral_pool.total_deposits;
    let sc: u64 = collateral_pool.total_deposit_shares;
    let mut delta_b: u64 = 0;
    let mut delta_c: u64 = 0;
    if liq > 0 {
        if bb == 0 {
            return Err(ErrorCode::DivisionByZero);
        }
        if liq > owed {
            return Err(ErrorCode::ArithmeticOverflow);
        }
        if liq > bb {
            return Err(ErrorCode::ArithmeticOverflow);
        }
        proof {
            lemma_mul_upper_bound(
                liq as int,
                18_446_744_073_709_551_615,
                sb as int,
                18_446_744_073_709_551_615,
            );
            lemma_proportional_nonneg(liq as int, sb as int, bb as int);
            lemma_proportional_le_shares(liq as int, sb as int, bb as int);
        }
        let db128: u128 = (liq as u128) * (sb as u128) / (bb as u128);
        delta_b = db128 as u64;
        if delta_b > owed_shares {
            return Err(ErrorCode::ArithmeticOverflow);
        }
        if dc == 0 {
            return Err(ErrorCode::DivisionByZero);
        }
        if payout > held {
            return Err(ErrorCode::ArithmeticOverflow);
        }
        if payout > dc {
            return Err(ErrorCode::ArithmeticOverflow);
        }
        proof {
            lemma_mul_upper_bound(
                payout as int,
                18_446_744_073_709_551_615,
                sc as int,
                18_446_744_073_709_551_615,
            );
            lemma_proportional_nonneg(payout as int, sc as int, dc as int);
            lemma_proportional_le_shares(payout as int, sc as int, dc as int);
        }
        let dc128: u128 = (payout as u128) * (sc as u128) / (dc as u128);
        delta_c = dc128 as u64;
        if delta_c > held_shares {
            return Err(ErrorCode::ArithmeticOverflow);
        }
        proof {
            if liq == bb {
                lemma_proportional_full(liq as int, sb as int, bb as int);
            } else {
                lemma_proportional_partial(liq as int, sb as int, bb as int);
            }
            if payout == dc {
                lemma_proportional_full(payout as int, sc as int, dc as int);
            } else if payout > 0 {
                lemma_proportional_partial(payout as int, sc as int, dc as int);
            } else {
                lemma_div_of0(SCALE as int);
            }
        }
    }
    borrowed_pool.total_borrows = bb - liq;
    borrowed_pool.total_borrow_shares = sb - delta_b;
    collateral_pool.total_deposits = dc - payout;
    collateral_pool.total_deposit_shares = sc - delta_c;
    match ba {
        AssetClass::Primary => {
            position.borrow_primary = owed - liq;
            position.borrow_primary_shares = owed_shares - delta_b;
        },
        AssetClass::Secondary => {
            position.borrow_secondary = owed - liq;
            position.borrow_secondary_shares = owed_shares - delta_b;
        },
    }
    match collateral_asset {
        AssetClass::Primary => {
            position.deposit_primary = held - payout;
            position.deposit_primary_shares = held_shares - delta_c;
        },
        AssetClass::Secondary => {
            position.deposit_secondary = held - payout;
            position.deposit_secondary_shares = held_shares - delta_c;
        },
    }
    Ok(LiquidationOutcome { liquidation_amount: liq, liquidator_payout: payout })
}

} // verus!
