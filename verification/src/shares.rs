use vstd::prelude::*;

use crate::state::{AssetClass, Position};
use vstd::arithmetic::div_mod::{
    lemma_div_by_multiple, lemma_div_is_ordered, lemma_div_pos_is_pos,
    lemma_fundamental_div_mod, lemma_fundamental_div_mod_converse, lemma_mod_bound,
};
use vstd::arithmetic::mul::{lemma_mul_inequality, lemma_mul_nonnegative};

verus! {

/// Share units that correspond to `amount` of principal against a pool
/// side holding `total` principal backed by `shares` share units, under
/// truncating integer arithmetic.
pub open spec fn proportional_shares(amount: int, shares: int, total: int) -> int {
    amount * shares / total
}

/// Share units credited for adding `amount` of principal: the first entry
/// into an empty pool side seeds shares one for one, later entries receive
/// the proportional amount computed from the totals before the entry.
pub open spec fn entry_shares(amount: int, shares: int, total: int) -> int {
    if total == 0 {
        amount
    } else {
        proportional_shares(amount, shares, total)
    }
}

/// Proportional shares are never negative.
pub proof fn lemma_proportional_nonneg(amount: int, shares: int, total: int)
    requires
        0 <= amount,
        0 <= shares,
        0 < total,
    ensures
        0 <= proportional_shares(amount, shares, total),
{
    lemma_mul_nonnegative(amount, shares);
    lemma_div_pos_is_pos(amount * shares, total);
}

/// Removing at most the whole pool side never removes more than all shares.
pub proof fn lemma_proportional_le_shares(amount: int, shares: int, total: int)
    requires
        0 <= amount <= total,
        0 <= shares,
        0 < total,
    ensures
        proportional_shares(amount, shares, total) <= shares,
{
    lemma_mul_inequality(amount, total, shares);
    lemma_div_is_ordered(amount * shares, total * shares, total);
    assert(total * shares == shares * total) by (nonlinear_arith);
    lemma_div_by_multiple(shares, total);
}

/// Removing the whole pool side removes exactly all shares.
pub proof fn lemma_proportional_full(amount: int, shares: int, total: int)
    requires
        0 <= shares,
        0 < total,
        amount == total,
    ensures
        proportional_shares(amount, shares, total) == shares,
{
    assert(total * shares == shares * total) by (nonlinear_arith);
    lemma_div_by_multiple(shares, total);
}

/// Removing strictly less than the whole pool side leaves at least one
/// share behind whenever any shares exist.
pub proof fn lemma_proportional_partial(amount: int, shares: int, total: int)
    requires
        0 <= amount < total,
        1 <= shares,
    ensures
        proportional_shares(amount, shares, total) < shares,
{
    let q = amount * shares / total;
    let r = (amount * shares) % total;
    lemma_fundamental_div_mod(amount * shares, total);
    lemma_mod_bound(amount * shares, total);
    assert(q < shares) by (nonlinear_arith)
        requires
            amount * shares == total * q + r,
            0 <= r < total,
            0 <= amount < total,
            1 <= shares,
    ;
}

/// Round trip of the share arithmetic: the shares credited for adding
/// `amount` of principal are exactly the shares debited for removing the
/// same `amount` immediately afterwards, with the totals as the addition
/// left them.  Truncation in the two proportional computations cancels.
pub proof fn lemma_entry_exit_shares(amount: int, shares: int, total: int)
    requires
        1 <= amount,
        0 <= total,
        0 <= shares,
        total == 0 <==> shares == 0,
    ensures
        proportional_shares(
            amount,
            shares + entry_shares(amount, shares, total),
            total + amount,
        ) == entry_shares(amount, shares, total),
{
    if total == 0 {
        assert(amount * (0 + amount) == amount * amount) by (nonlinear_arith);
        lemma_div_by_multiple(amount, amount);
        assert(amount * amount / (0 + amount) == amount);
    } else {
        let delta = amount * shares / total;
        let r = (amount * shares) % total;
        lemma_fundamental_div_mod(amount * shares, total);
        lemma_mod_bound(amount * shares, total);
        lemma_mul_nonnegative(amount, shares);
        lemma_div_pos_is_pos(amount * shares, total);
        assert(amount * (shares + delta) == (total + amount) * delta + r) by (nonlinear_arith)
            requires
                amount * shares == total * delta + r,
        ;
        lemma_fundamental_div_mod_converse(
            amount * (shares + delta),
            total + amount,
            delta,
            r,
        );
    }
}

/// A deposit never lowers the value of a share.  The share units credited
/// for new principal are rounded down, so `total principal / total
/// shares` is non-decreasing across a deposit: in cross-multiplied form,
/// the new principal times the old shares covers the old principal times
/// the new shares.  (A withdrawal may lower the ratio by the same
/// rounding: it releases rounded-down share units for full principal.)
pub proof fn lemma_deposit_preserves_share_value(amount: int, shares: int, total: int)
    requires
        1 <= amount,
        0 <= total,
        0 <= shares,
        total == 0 <==> shares == 0,
    ensures
        (total + amount) * shares >= total * (shares + entry_shares(amount, shares, total)),
{
    if total == 0 {
        assert((0 + amount) * 0 == 0) by (nonlinear_arith);
        assert(0 * (0 + amount) == 0) by (nonlinear_arith);
    } else {
        let delta = amount * shares / total;
        lemma_mul_div_le(amount * shares, total);
        assert((total + amount) * shares == total * shares + amount * shares) by (nonlinear_arith);
        assert(total * (shares + delta) == total * shares + total * delta) by (nonlinear_arith);
    }
}

/// Scaling a truncated quotient back up never exceeds the dividend.
pub proof fn lemma_mul_div_le(x: int, d: int)
    requires
        0 <= x,
        0 < d,
    ensures
        d * (x / d) <= x,
{
    lemma_fundamental_div_mod(x, d);
    lemma_mod_bound(x, d);
}

/// Sum of a sequence of integers.
pub open spec fn sum_seq(s: Seq<int>) -> int
    decreases s.len(),
{
    if s.len() == 0 {
        0
    } else {
        s[0] + sum_seq(s.drop_first())
    }
}

/// Replacing one entry of a sequence moves its sum by the difference
/// between the new and the old entry.
pub proof fn lemma_sum_seq_update(s: Seq<int>, i: int, v: int)
    requires
        0 <= i < s.len(),
    ensures
        sum_seq(s.update(i, v)) == sum_seq(s) - s[i] + v,
    decreases s.len(),
{
    if i == 0 {
        assert(s.update(0, v).drop_first() =~= s.drop_first());
    } else {
        lemma_sum_seq_update(s.drop_first(), i - 1, v);
        assert(s.update(i, v).drop_first() =~= s.drop_first().update(i - 1, v));
    }
}

/// The deposit share balances of a family of positions for class `a`.
pub open spec fn deposit_share_entries(ps: Seq<Position>, a: AssetClass) -> Seq<int> {
    ps.map_values(|p: Position| p.spec_deposit_shares(a) as int)
}

/// The borrow share balances of a family of positions for class `a`.
pub open spec fn borrow_share_entries(ps: Seq<Position>, a: AssetClass) -> Seq<int> {
    ps.map_values(|p: Position| p.spec_borrow_shares(a) as int)
}

/// Share conservation, deposit side: when the sum of all positions'
/// deposit share balances for a class equals the pool's deposit share
/// total, and an operation moves one position's balance and the pool total
/// by the same difference — as every operation here does — the sum equals
/// the new total afterwards.  By induction the equality holds after any
/// sequence of operations.
pub proof fn lemma_deposit_share_conservation(
    ps: Seq<Position>,
    i: int,
    p2: Position,
    a: AssetClass,
    total: int,
    total2: int,
)
    requires
        0 <= i < ps.len(),
        sum_seq(deposit_share_entries(ps, a)) == total,
        total2 - total == p2.spec_deposit_shares(a) - ps[i].spec_deposit_shares(a),
    ensures
        sum_seq(deposit_share_entries(ps.update(i, p2), a)) == total2,
{
    assert(deposit_share_entries(ps.update(i, p2), a) =~= deposit_share_entries(ps, a).update(
        i,
        p2.spec_deposit_shares(a) as int,
    ));
    lemma_sum_seq_update(deposit_share_entries(ps, a), i, p2.spec_deposit_shares(a) as int);
}

/// Share conservation, borrow side: the same preservation argument for the
/// borrow share balances and the pool's borrow share total.
pub proof fn lemma_borrow_share_conservation(
    ps: Seq<Position>,
    i: int,
    p2: Position,
    a: AssetClass,
    total: int,
    total2: int,
)
    requires
        0 <= i < ps.len(),
        sum_seq(borrow_share_entries(ps, a)) == total,
        total2 - total == p2.spec_borrow_shares(a) - ps[i].spec_borrow_shares(a),
    ensures
        sum_seq(borrow_share_entries(ps.update(i, p2), a)) == total2,
{
    assert(borrow_share_entries(ps.update(i, p2), a) =~= borrow_share_entries(ps, a).update(
        i,
        p2.spec_borrow_shares(a) as int,
    ));
    lemma_sum_seq_update(borrow_share_entries(ps, a), i, p2.spec_borrow_shares(a) as int);
}

} // verus!
