use vstd::prelude::*;

use crate::deposit::deposit_ok;
use crate::interest::lemma_accrue_zero;
use crate::shares::{entry_shares, lemma_entry_exit_shares, proportional_shares};
use crate::state::{AssetClass, AssetPool, Position};
use crate::withdraw::accrued_deposits;

verus! {

/// Round-trip law: a deposit of `amount` followed at once by a withdrawal
/// of the same amount, over a zero accrual exponent (no elapsed time, or a
/// zero interest rate), puts the position's deposit balance and share
/// units and the pool's deposit totals back exactly where they were — the
/// truncation in the two proportional-share computations cancels.
///
/// The first conclusion says the accrual step of the withdrawal leaves the
/// deposited total unchanged; the second says the share units the
/// withdrawal debits are exactly the share units the deposit credited.
/// With the contracts of [`crate::deposit::deposit`] and
/// [`crate::withdraw::withdraw`], both ledgers therefore return to their
/// prior balances whenever the withdrawal succeeds.
pub proof fn lemma_deposit_withdraw_roundtrip(
    pool: AssetPool,
    position: Position,
    asset: AssetClass,
    amount: u64,
    now: u64,
)
    requires
        pool.share_pairing(),
        deposit_ok(pool, position, asset, amount),
        now >= pool.last_accrual_time,
        pool.interest_rate * (now - pool.last_accrual_time) == 0,
    ensures
        ({
            let d = pool.total_deposits as int;
            let s = pool.total_deposit_shares as int;
            let delta = entry_shares(amount as int, s, d);
            let pool_after = AssetPool {
                total_deposits: (d + amount) as u64,
                total_deposit_shares: (s + delta) as u64,
                ..pool
            };
            &&& accrued_deposits(pool_after, now) == d + amount
            &&& proportional_shares(amount as int, s + delta, d + amount) == delta
        }),
{
    let d = pool.total_deposits as int;
    let s = pool.total_deposit_shares as int;
    lemma_accrue_zero((pool.total_deposits + amount) as u64);
    lemma_entry_exit_shares(amount as int, s, d);
}

} // verus!
