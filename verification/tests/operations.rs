use lending::borrow::borrow;
use lending::deposit::deposit;
use lending::error::ErrorCode;
use lending::liquidate::liquidate;
use lending::oracle::validate_price;
use lending::repay::repay;
use lending::state::{initialize_pool, initialize_position, AssetClass, AssetPool, Position};
use lending::withdraw::withdraw;

const SCALE: u64 = 1_000_000;

fn fresh_pool() -> AssetPool {
    initialize_pool(1, 10, 800_000, 500_000)
}

fn fresh_position() -> Position {
    initialize_position(7, AssetClass::Primary)
}

#[test]
fn first_depositor_seeds_one_for_one() {
    let mut pool = fresh_pool();
    let mut pos = fresh_position();
    assert_eq!(deposit(&mut pool, &mut pos, AssetClass::Primary, 500, 11), Ok(()));
    assert_eq!(pool.total_deposits, 500);
    assert_eq!(pool.total_deposit_shares, 500);
    assert_eq!(pos.deposit_primary, 500);
    assert_eq!(pos.deposit_primary_shares, 500);
    assert_eq!(pos.last_updated, 11);
}

#[test]
fn second_depositor_gets_proportional_shares() {
    let mut pool = fresh_pool();
    let mut first = fresh_position();
    let mut second = initialize_position(8, AssetClass::Primary);
    assert_eq!(deposit(&mut pool, &mut first, AssetClass::Primary, 500, 0), Ok(()));
    assert_eq!(deposit(&mut pool, &mut second, AssetClass::Primary, 500, 0), Ok(()));
    assert_eq!(second.deposit_primary_shares, 500);
    assert_eq!(pool.total_deposits, 1000);
    assert_eq!(pool.total_deposit_shares, 1000);
}

#[test]
fn deposit_of_zero_is_invalid() {
    let mut pool = fresh_pool();
    let mut pos = fresh_position();
    assert_eq!(
        deposit(&mut pool, &mut pos, AssetClass::Primary, 0, 0),
        Err(ErrorCode::InvalidAmount)
    );
    assert_eq!(pool.total_deposits, 0);
}

#[test]
fn deposit_overflow_is_explicit_and_mutates_nothing() {
    let mut pool = fresh_pool();
    let mut pos = fresh_position();
    assert_eq!(deposit(&mut pool, &mut pos, AssetClass::Primary, u64::MAX, 0), Ok(()));
    let before_pool = pool;
    let before_pos = pos;
    assert_eq!(
        deposit(&mut pool, &mut pos, AssetClass::Primary, 1, 0),
        Err(ErrorCode::ArithmeticOverflow)
    );
    assert_eq!(pool, before_pool);
    assert_eq!(pos, before_pos);
}

#[test]
fn deposit_then_withdraw_round_trip() {
    let mut pool = fresh_pool();
    let mut pos = fresh_position();
    assert_eq!(deposit(&mut pool, &mut pos, AssetClass::Primary, 750, 0), Ok(()));
    assert_eq!(deposit(&mut pool, &mut pos, AssetClass::Primary, 333, 0), Ok(()));
    let pool_before = pool;
    let pos_before = pos;
    assert_eq!(deposit(&mut pool, &mut pos, AssetClass::Primary, 123, 0), Ok(()));
    assert_eq!(withdraw(&mut pool, &mut pos, AssetClass::Primary, 123, 0), Ok(()));
    assert_eq!(pool.total_deposits, pool_before.total_deposits);
    assert_eq!(pool.total_deposit_shares, pool_before.total_deposit_shares);
    assert_eq!(pos.deposit_primary, pos_before.deposit_primary);
    assert_eq!(pos.deposit_primary_shares, pos_before.deposit_primary_shares);
}

#[test]
fn withdraw_more_than_balance_is_insufficient() {
    let mut pool = fresh_pool();
    let mut pos = fresh_position();
    assert_eq!(deposit(&mut pool, &mut pos, AssetClass::Primary, 100, 0), Ok(()));
    assert_eq!(
        withdraw(&mut pool, &mut pos, AssetClass::Primary, 101, 0),
        Err(ErrorCode::InsufficientFunds)
    );
    assert_eq!(pos.deposit_primary, 100);
}

#[test]
fn withdraw_beyond_redeemable_value_is_insufficient() {
    // the position's recorded balance exceeds what its shares can redeem
    let mut pool = fresh_pool();
    pool.total_deposits = 1000;
    pool.total_deposit_shares = 10;
    let mut pos = fresh_position();
    pos.deposit_primary = 120;
    pos.deposit_primary_shares = 1;
    // redeemable value: 120 * 10 / 1000 == 1 < 120
    assert_eq!(
        withdraw(&mut pool, &mut pos, AssetClass::Primary, 120, 0),
        Err(ErrorCode::InsufficientFunds)
    );
}

#[test]
fn withdraw_from_empty_share_total_is_division_by_zero() {
    let mut pool = fresh_pool();
    let mut pos = fresh_position();
    pos.deposit_primary = 5;
    assert_eq!(
        withdraw(&mut pool, &mut pos, AssetClass::Primary, 5, 0),
        Err(ErrorCode::DivisionByZero)
    );
}

#[test]
fn withdraw_applies_accrued_interest_to_pool() {
    let mut pool = fresh_pool();
    let mut pos = fresh_position();
    assert_eq!(deposit(&mut pool, &mut pos, AssetClass::Primary, 1_000_000, 0), Ok(()));
    pool.interest_rate = 1;
    // exponent: rate * elapsed == SCALE, a growth factor of about e
    assert_eq!(withdraw(&mut pool, &mut pos, AssetClass::Primary, 300_000, 1_000_000), Ok(()));
    // accrued total 2_718_277 minus the withdrawal
    assert_eq!(pool.total_deposits, 2_418_277);
    assert_eq!(pool.last_accrual_time, 1_000_000);
    // shares removed: 300_000 * 1_000_000 / 2_718_277 == 110_364
    assert_eq!(pool.total_deposit_shares, 1_000_000 - 110_364);
    assert_eq!(pos.deposit_primary_shares, 1_000_000 - 110_364);
    assert_eq!(pos.deposit_primary, 700_000);
}

#[test]
fn accrual_shrinks_the_redeemable_value_of_a_fixed_balance() {
    // with a growth factor near e, a recorded balance of 1_000_000 redeems
    // only 1_000_000 * 1_000_000 / 2_718_277 == 367_879 units
    let mut pool = fresh_pool();
    let mut pos = fresh_position();
    assert_eq!(deposit(&mut pool, &mut pos, AssetClass::Primary, 1_000_000, 0), Ok(()));
    pool.interest_rate = 1;
    assert_eq!(
        withdraw(&mut pool, &mut pos, AssetClass::Primary, 500_000, 1_000_000),
        Err(ErrorCode::InsufficientFunds)
    );
    assert_eq!(pool.total_deposits, 1_000_000);
    assert_eq!(pool.last_accrual_time, 0);
}

#[test]
fn borrow_at_the_limit_succeeds() {
    let mut borrow_pool = fresh_pool();
    let collateral_pool = fresh_pool();
    let mut pos = fresh_position();
    pos.deposit_secondary = 1000;
    // collateral 1000 at price 1.0 with threshold 0.8: the limit is 800
    assert_eq!(
        borrow(&mut borrow_pool, &collateral_pool, &mut pos, AssetClass::Primary, SCALE, 800, 0),
        Ok(())
    );
    assert_eq!(borrow_pool.total_borrows, 800);
    assert_eq!(borrow_pool.total_borrow_shares, 800);
    assert_eq!(pos.borrow_primary, 800);
    assert_eq!(pos.borrow_primary_shares, 800);
}

#[test]
fn borrow_one_past_the_limit_fails() {
    let mut borrow_pool = fresh_pool();
    let collateral_pool = fresh_pool();
    let mut pos = fresh_position();
    pos.deposit_secondary = 1000;
    assert_eq!(
        borrow(&mut borrow_pool, &collateral_pool, &mut pos, AssetClass::Primary, SCALE, 801, 0),
        Err(ErrorCode::OverBorrowableAmount)
    );
    assert_eq!(borrow_pool.total_borrows, 0);
    assert_eq!(pos.borrow_primary, 0);
}

#[test]
fn borrow_of_zero_is_invalid() {
    let mut borrow_pool = fresh_pool();
    let collateral_pool = fresh_pool();
    let mut pos = fresh_position();
    pos.deposit_secondary = 1000;
    assert_eq!(
        borrow(&mut borrow_pool, &collateral_pool, &mut pos, AssetClass::Primary, SCALE, 0, 0),
        Err(ErrorCode::InvalidAmount)
    );
}

#[test]
fn second_borrower_gets_proportional_shares() {
    let mut borrow_pool = fresh_pool();
    let collateral_pool = fresh_pool();
    let mut pos = fresh_position();
    pos.deposit_secondary = 10_000;
    assert_eq!(
        borrow(&mut borrow_pool, &collateral_pool, &mut pos, AssetClass::Primary, SCALE, 600, 0),
        Ok(())
    );
    assert_eq!(
        borrow(&mut borrow_pool, &collateral_pool, &mut pos, AssetClass::Primary, SCALE, 300, 0),
        Ok(())
    );
    // 300 * 600 / 600 == 300 new share units
    assert_eq!(borrow_pool.total_borrows, 900);
    assert_eq!(borrow_pool.total_borrow_shares, 900);
    assert_eq!(pos.borrow_primary, 900);
    assert_eq!(pos.borrow_primary_shares, 900);
}

#[test]
fn repay_reduces_debt_proportionally() {
    let mut pool = fresh_pool();
    pool.total_borrows = 900;
    pool.total_borrow_shares = 900;
    let mut pos = fresh_position();
    pos.borrow_primary = 900;
    pos.borrow_primary_shares = 900;
    assert_eq!(repay(&mut pool, &mut pos, AssetClass::Primary, 400), Ok(()));
    assert_eq!(pool.total_borrows, 500);
    assert_eq!(pool.total_borrow_shares, 500);
    assert_eq!(pos.borrow_primary, 500);
    assert_eq!(pos.borrow_primary_shares, 500);
}

#[test]
fn repay_more_than_owed_is_rejected() {
    let mut pool = fresh_pool();
    pool.total_borrows = 900;
    pool.total_borrow_shares = 900;
    let mut pos = fresh_position();
    pos.borrow_primary = 300;
    pos.borrow_primary_shares = 300;
    assert_eq!(
        repay(&mut pool, &mut pos, AssetClass::Primary, 301),
        Err(ErrorCode::RepayExceedsOwed)
    );
    assert_eq!(pool.total_borrows, 900);
    assert_eq!(pos.borrow_primary, 300);
}

#[test]
fn repay_of_zero_is_invalid() {
    let mut pool = fresh_pool();
    let mut pos = fresh_position();
    assert_eq!(repay(&mut pool, &mut pos, AssetClass::Primary, 0), Err(ErrorCode::InvalidAmount));
}

#[test]
fn repay_against_empty_pool_is_division_by_zero() {
    let mut pool = fresh_pool();
    let mut pos = fresh_position();
    pos.borrow_primary = 5;
    assert_eq!(repay(&mut pool, &mut pos, AssetClass::Primary, 5), Err(ErrorCode::DivisionByZero));
}

fn liquidation_setup() -> (AssetPool, AssetPool, Position) {
    let mut collateral_pool = fresh_pool();
    collateral_pool.total_deposits = 1000;
    collateral_pool.total_deposit_shares = 1000;
    collateral_pool.liquidation_bonus = 100_000;
    let mut borrowed_pool = fresh_pool();
    borrowed_pool.total_borrows = 900;
    borrowed_pool.total_borrow_shares = 900;
    borrowed_pool.liquidation_close_factor = 500_000;
    let mut pos = fresh_position();
    pos.deposit_primary = 1000;
    pos.deposit_primary_shares = 1000;
    pos.borrow_secondary = 900;
    pos.borrow_secondary_shares = 900;
    (collateral_pool, borrowed_pool, pos)
}

#[test]
fn liquidation_of_unhealthy_position() {
    let (mut collateral_pool, mut borrowed_pool, mut pos) = liquidation_setup();
    // collateral value 1000 * 0.8 == 800 < borrowed value 900: unhealthy
    let outcome = liquidate(
        &mut collateral_pool,
        &mut borrowed_pool,
        &mut pos,
        AssetClass::Primary,
        SCALE,
        SCALE,
        0,
    )
    .unwrap();
    // half the debt is repaid, the payout carries a tenth extra
    assert_eq!(outcome.liquidation_amount, 450);
    assert_eq!(outcome.liquidator_payout, 495);
    assert_eq!(borrowed_pool.total_borrows, 450);
    assert_eq!(borrowed_pool.total_borrow_shares, 450);
    assert_eq!(pos.borrow_secondary, 450);
    assert_eq!(pos.borrow_secondary_shares, 450);
    assert_eq!(collateral_pool.total_deposits, 505);
    assert_eq!(collateral_pool.total_deposit_shares, 505);
    assert_eq!(pos.deposit_primary, 505);
    assert_eq!(pos.deposit_primary_shares, 505);
}

#[test]
fn liquidation_of_healthy_position_is_rejected() {
    let (mut collateral_pool, mut borrowed_pool, mut pos) = liquidation_setup();
    // shrink the debt: collateral value 1000 * 0.8 == 800 covers 500
    borrowed_pool.total_borrows = 500;
    borrowed_pool.total_borrow_shares = 500;
    pos.borrow_secondary = 500;
    pos.borrow_secondary_shares = 500;
    let before_pos = pos;
    assert_eq!(
        liquidate(
            &mut collateral_pool,
            &mut borrowed_pool,
            &mut pos,
            AssetClass::Primary,
            SCALE,
            SCALE,
            0,
        ),
        Err(ErrorCode::NotUnderCollateralized)
    );
    assert_eq!(pos, before_pos);
    assert_eq!(borrowed_pool.total_borrows, 500);
    assert_eq!(collateral_pool.total_deposits, 1000);
}

#[test]
fn liquidation_at_health_factor_exactly_one_is_rejected() {
    let (mut collateral_pool, mut borrowed_pool, mut pos) = liquidation_setup();
    // collateral value 1000 * 0.8 == 800 equals the debt: health factor 1.0
    borrowed_pool.total_borrows = 800;
    borrowed_pool.total_borrow_shares = 800;
    pos.borrow_secondary = 800;
    pos.borrow_secondary_shares = 800;
    assert_eq!(
        liquidate(
            &mut collateral_pool,
            &mut borrowed_pool,
            &mut pos,
            AssetClass::Primary,
            SCALE,
            SCALE,
            0,
        ),
        Err(ErrorCode::NotUnderCollateralized)
    );
}

#[test]
fn fresh_price_is_accepted_and_stale_rejected() {
    assert_eq!(validate_price(123, 100, 60, 100), Ok(123));
    assert_eq!(validate_price(123, 100, 60, 160), Ok(123));
    assert_eq!(validate_price(123, 100, 60, 161), Err(ErrorCode::StalePrice));
    assert_eq!(validate_price(123, 200, 60, 100), Ok(123));
}

#[test]
fn pool_and_position_initialization() {
    let pool = initialize_pool(42, 10, 800_000, 500_000);
    assert_eq!(pool.authority, 42);
    assert_eq!(pool.asset_id, 10);
    assert_eq!(pool.liquidation_threshold, 800_000);
    assert_eq!(pool.max_ltv, 500_000);
    assert_eq!(pool.total_deposits, 0);
    assert_eq!(pool.total_deposit_shares, 0);
    assert_eq!(pool.total_borrows, 0);
    assert_eq!(pool.total_borrow_shares, 0);
    let pos = initialize_position(42, AssetClass::Secondary);
    assert_eq!(pos.owner, 42);
    assert_eq!(pos.reference_asset, AssetClass::Secondary);
    assert_eq!(pos.deposit_primary, 0);
    assert_eq!(pos.borrow_secondary, 0);
    assert_eq!(pos.last_updated, 0);
}

#[test]
fn share_pairing_holds_after_each_operation() {
    let mut pool = fresh_pool();
    let mut pos = fresh_position();
    let pairing = |p: &AssetPool| {
        assert_eq!(p.total_deposits == 0, p.total_deposit_shares == 0);
        assert_eq!(p.total_borrows == 0, p.total_borrow_shares == 0);
    };
    assert_eq!(deposit(&mut pool, &mut pos, AssetClass::Primary, 17, 0), Ok(()));
    pairing(&pool);
    assert_eq!(withdraw(&mut pool, &mut pos, AssetClass::Primary, 17, 0), Ok(()));
    pairing(&pool);
    let collateral_pool = {
        let mut c = fresh_pool();
        c.total_deposits = 1000;
        c.total_deposit_shares = 1000;
        c
    };
    pos.deposit_secondary = 1000;
    assert_eq!(borrow(&mut pool, &collateral_pool, &mut pos, AssetClass::Primary, SCALE, 10, 0), Ok(()));
    pairing(&pool);
    assert_eq!(repay(&mut pool, &mut pos, AssetClass::Primary, 10), Ok(()));
    pairing(&pool);
}

#[test]
fn share_conservation_over_deposit_withdraw_cycles() {
    // two depositors interleave deposits and withdrawals over a range of
    // amounts; the sum of their share balances always equals the pool's
    // share total, and principal and shares stay paired
    let amounts: [u64; 6] = [1, 3, 7, 10, 123, 1000];
    for &a1 in &amounts {
        for &a2 in &amounts {
            let mut pool = fresh_pool();
            let mut one = fresh_position();
            let mut two = initialize_position(8, AssetClass::Primary);
            let check = |p: &AssetPool, x: &Position, y: &Position| {
                assert_eq!(
                    x.deposit_primary_shares + y.deposit_primary_shares,
                    p.total_deposit_shares
                );
                assert_eq!(p.total_deposits == 0, p.total_deposit_shares == 0);
            };
            assert_eq!(deposit(&mut pool, &mut one, AssetClass::Primary, a1, 0), Ok(()));
            check(&pool, &one, &two);
            assert_eq!(deposit(&mut pool, &mut two, AssetClass::Primary, a2, 0), Ok(()));
            check(&pool, &one, &two);
            for &w in &amounts {
                // a withdrawal may be refused; either way nothing is lost
                let _ = withdraw(&mut pool, &mut one, AssetClass::Primary, w, 0);
                check(&pool, &one, &two);
                let _ = withdraw(&mut pool, &mut two, AssetClass::Primary, w, 0);
                check(&pool, &one, &two);
            }
        }
    }
}

#[test]
fn borrow_with_no_collateral_is_over_the_limit_even_past_the_accrual_domain() {
    // an empty collateral leg accrues to zero whatever the exponent, so the
    // request is judged against a zero limit instead of failing on accrual
    let mut borrow_pool = fresh_pool();
    let mut collateral_pool = fresh_pool();
    collateral_pool.interest_rate = 1000;
    let mut pos = fresh_position();
    assert_eq!(
        borrow(
            &mut borrow_pool,
            &collateral_pool,
            &mut pos,
            AssetClass::Primary,
            SCALE,
            1,
            1_000_000,
        ),
        Err(ErrorCode::OverBorrowableAmount)
    );
}
