use vstd::prelude::*;

use crate::error::ErrorCode;
use crate::state::SCALE;
use vstd::arithmetic::div_mod::{
    lemma_div_by_multiple, lemma_div_is_ordered, lemma_div_is_ordered_by_denominator,
    lemma_div_of0, lemma_div_pos_is_pos,
};
use vstd::arithmetic::mul::{
    lemma_mul_inequality, lemma_mul_left_inequality, lemma_mul_nonnegative, lemma_mul_upper_bound,
};

verus! {

/// Largest accrual exponent (`rate * elapsed`, scaled by [`SCALE`]) the
/// engine evaluates for a positive principal; beyond it the series
/// approximation is not meaningful and [`accrue`] reports an overflow.
/// This value stands for an exponent of four, a growth factor of roughly
/// fifty-five.  A zero principal accrues to zero at any exponent and is
/// never rejected.
pub const MAX_EXPONENT: u64 = 4_000_000;

/// Number of terms of the exponential series the engine sums.
pub const EXP_TERMS: u64 = 16;

/// Upper bound on every growth factor the engine returns.
pub const GROWTH_CAP: u64 = 2_147_483_648_000_000;

/// Powers of four; used only to bound the series terms.
pub open spec fn pow4(n: nat) -> int
    decreases n,
{
    if n == 0 {
        1
    } else {
        4 * pow4((n - 1) as nat)
    }
}

/// Term `k` of the truncated exponential series at scaled exponent `x`:
/// the fixed-point rendering of `x^k / k!`, carried to `SCALE` places and
/// truncated at each step.
pub open spec fn exp_term(x: int, k: nat) -> int
    decreases k,
{
    if k == 0 {
        SCALE as int
    } else {
        exp_term(x, (k - 1) as nat) * x / (SCALE as int * k as int)
    }
}

/// Sum of the first `n` terms of the truncated exponential series.
pub open spec fn exp_partial(x: int, n: nat) -> int
    decreases n,
{
    if n == 0 {
        0
    } else {
        exp_partial(x, (n - 1) as nat) + exp_term(x, (n - 1) as nat)
    }
}

/// The engine's growth factor for a scaled exponent `x`: the fixed-point
/// approximation of `e^x`, scaled by [`SCALE`].
pub open spec fn growth_factor(x: int) -> int {
    exp_partial(x, EXP_TERMS as nat)
}

/// Value of `principal` after continuous compounding over a scaled
/// exponent `x == rate * elapsed`, truncated to an integer unit.
pub open spec fn accrued_value(principal: int, x: int) -> int {
    principal * growth_factor(x) / (SCALE as int)
}

/// Whether accrual of `principal` over `rate * elapsed` succeeds: the
/// result must fit the ledger's integer range, and a positive principal
/// must stay inside the engine's exponent domain.  A zero principal
/// accrues to zero over any exponent.
pub open spec fn accrue_ok(principal: u64, rate: u64, elapsed: u64) -> bool {
    &&& principal == 0 || rate * elapsed <= MAX_EXPONENT
    &&& accrued_value(principal as int, rate * elapsed) <= u64::MAX
}

/// Every series term is non-negative for a non-negative exponent.
proof fn lemma_exp_term_nonneg(x: int, k: nat)
    requires
        0 <= x,
    ensures
        0 <= exp_term(x, k),
    decreases k,
{
    if k > 0 {
        lemma_exp_term_nonneg(x, (k - 1) as nat);
        lemma_mul_nonnegative(exp_term(x, (k - 1) as nat), x);
        lemma_div_pos_is_pos(exp_term(x, (k - 1) as nat) * x, SCALE as int * k as int);
    }
}

/// Each series term is monotone in the exponent.
proof fn lemma_exp_term_mono(x1: int, x2: int, k: nat)
    requires
        0 <= x1 <= x2,
    ensures
        exp_term(x1, k) <= exp_term(x2, k),
    decreases k,
{
    if k > 0 {
        let t1 = exp_term(x1, (k - 1) as nat);
        let t2 = exp_term(x2, (k - 1) as nat);
        lemma_exp_term_mono(x1, x2, (k - 1) as nat);
        lemma_exp_term_nonneg(x1, (k - 1) as nat);
        lemma_mul_upper_bound(t1, t2, x1, x2);
        lemma_div_is_ordered(t1 * x1, t2 * x2, SCALE as int * k as int);
    }
}

/// Each partial sum of the series is monotone in the exponent.
proof fn lemma_exp_partial_mono(x1: int, x2: int, n: nat)
    requires
        0 <= x1 <= x2,
    ensures
        exp_partial(x1, n) <= exp_partial(x2, n),
    decreases n,
{
    if n > 0 {
        lemma_exp_partial_mono(x1, x2, (n - 1) as nat);
        lemma_exp_term_mono(x1, x2, (n - 1) as nat);
    }
}

/// At exponent zero every term past the first vanishes.
proof fn lemma_exp_term_zero(k: nat)
    requires
        k > 0,
    ensures
        exp_term(0, k) == 0,
    decreases k,
{
    if k > 1 {
        lemma_exp_term_zero((k - 1) as nat);
    }
}

/// At exponent zero each partial sum with at least one term is exactly one,
/// in fixed-point units.
proof fn lemma_exp_partial_zero(n: nat)
    requires
        n >= 1,
    ensures
        exp_partial(0, n) == SCALE as int,
    decreases n,
{
    if n == 1 {
        assert(exp_partial(0, 0) == 0);
        assert(exp_term(0, 0) == SCALE as int);
    } else {
        lemma_exp_partial_zero((n - 1) as nat);
        lemma_exp_term_zero((n - 1) as nat);
    }
}

/// A principal is unchanged by accrual over a zero exponent: zero elapsed
/// time, or a zero interest rate, leaves the ledger value exactly as it was.
pub proof fn lemma_accrue_zero(principal: u64)
    ensures
        growth_factor(0) == SCALE,
        accrued_value(principal as int, 0) == principal,
{
    lemma_exp_partial_zero(EXP_TERMS as nat);
    lemma_div_by_multiple(principal as int, SCALE as int);
}

/// One step of the series keeps the term under four times its old bound:
/// the exponent is at most four units, and the factorial divisor only
/// shrinks the quotient further.
proof fn lemma_term_step_bound(t: int, x: int, k: int, b: int)
    requires
        0 <= t <= b,
        0 <= x <= 4 * (SCALE as int),
        1 <= k,
    ensures
        t * x / (SCALE as int * k) <= 4 * b,
{
    let s = SCALE as int;
    lemma_mul_nonnegative(t, x);
    lemma_mul_upper_bound(t, b, x, 4 * s);
    lemma_div_is_ordered(t * x, b * (4 * s), s * k);
    lemma_div_is_ordered_by_denominator(b * (4 * s), s, s * k);
    assert(b * (4 * s) == (4 * b) * s) by (nonlinear_arith);
    lemma_div_by_multiple(4 * b, s);
}

/// `pow4` is positive and never decreases.
proof fn lemma_pow4_pos(n: nat)
    ensures
        pow4(n) >= 1,
    decreases n,
{
    if n > 0 {
        lemma_pow4_pos((n - 1) as nat);
    }
}

/// Concrete ceiling for `pow4` over the series length.
proof fn lemma_pow4_cap(n: nat)
    requires
        n < EXP_TERMS,
    ensures
        pow4(n) <= 1_073_741_824,
    decreases EXP_TERMS - n,
{
    reveal_with_fuel(pow4, 17);
    lemma_pow4_pos(n);
    if n < EXP_TERMS - 1 {
        lemma_pow4_cap((n + 1) as nat);
    }
}

/// Ceiling for term `n` of the series over the engine's exponent domain.
pub open spec fn term_cap(n: nat) -> int {
    SCALE * pow4(n)
}

/// Each step multiplies the term ceiling by four.
proof fn lemma_term_cap_step(k: nat)
    requires
        k >= 1,
    ensures
        term_cap(k) == 4 * term_cap((k - 1) as nat),
{
    assert(pow4(k) == 4 * pow4((k - 1) as nat));
    assert(SCALE * (4 * pow4((k - 1) as nat)) == 4 * (SCALE * pow4((k - 1) as nat)))
        by (nonlinear_arith);
}

/// The term ceiling stays within concrete limits over the series length.
proof fn lemma_term_cap_bound(n: nat)
    requires
        n < EXP_TERMS,
    ensures
        1_000_000 <= term_cap(n) <= 1_073_741_824_000_000,
{
    lemma_pow4_cap(n);
    lemma_pow4_pos(n);
    lemma_mul_left_inequality(SCALE as int, pow4(n), 1_073_741_824);
    lemma_mul_left_inequality(SCALE as int, 1, pow4(n));
}

/// Computes the engine's growth factor for a scaled exponent `x`.
fn growth_factor_scaled(x: u64) -> (r: u64)
    requires
        x <= MAX_EXPONENT,
    ensures
        r == growth_factor(x as int),
        SCALE <= r <= GROWTH_CAP,
{
    let mut term: u64 = SCALE;
    let mut sum: u64 = SCALE;
    let mut k: u64 = 1;
    proof {
        assert(exp_term(x as int, 0) == SCALE as int);
        assert(exp_partial(x as int, 0) == 0);
        assert(exp_partial(x as int, 1) == exp_partial(x as int, 0) + exp_term(x as int, 0));
    }
    while k < EXP_TERMS
        invariant
            1 <= k <= EXP_TERMS,
            x <= MAX_EXPONENT,
            term == exp_term(x as int, (k - 1) as nat),
            sum == exp_partial(x as int, k as nat),
            term <= term_cap((k - 1) as nat),
            sum <= 2 * term_cap((k - 1) as nat),
            SCALE <= sum,
        decreases EXP_TERMS - k,
    {
        proof {
            lemma_term_cap_bound((k - 1) as nat);
            lemma_term_cap_step(k as nat);
            lemma_term_step_bound(term as int, x as int, k as int, term_cap((k - 1) as nat));
            lemma_mul_upper_bound(
                term as int,
                18_446_744_073_709_551_615,
                x as int,
                18_446_744_073_709_551_615,
            );
        }
        let prod: u128 = (term as u128) * (x as u128);
        let next: u128 = prod / ((SCALE * k) as u128);
        proof {
            assert(next == exp_term(x as int, k as nat));
            assert(next <= term_cap(k as nat));
            lemma_term_cap_bound(k as nat);
            assert(sum + next <= 2 * term_cap(k as nat));
        }
        term = next as u64;
        sum = sum + term;
        k = k + 1;
    }
    proof {
        lemma_term_cap_bound((EXP_TERMS - 1) as nat);
    }
    sum
}

/// Continuous-compound growth of `principal` at a per-second nominal
/// `rate` (scaled by [`SCALE`]) over `elapsed` seconds, truncated to an
/// integer unit.
///
/// Pure and deterministic.  The result never falls below the principal.
/// A zero principal accrues to zero whatever the exponent.  For a
/// positive principal, an exponent beyond the engine's domain, or a
/// result beyond the ledger's integer range, is reported as an explicit
/// overflow; nothing silently wraps.
pub fn accrue(principal: u64, rate: u64, elapsed: u64) -> (r: Result<u64, ErrorCode>)
    ensures
        r is Ok <==> accrue_ok(principal, rate, elapsed),
        r matches Ok(v) ==> v == accrued_value(principal as int, rate * elapsed),
        r matches Ok(v) ==> principal <= v,
        r is Err ==> r == Err::<u64, ErrorCode>(ErrorCode::ArithmeticOverflow),
{
    if principal == 0 {
        proof {
            assert(0int * growth_factor(rate * elapsed) == 0) by (nonlinear_arith);
            lemma_div_of0(SCALE as int);
        }
        return Ok(0u64);
    }
    proof {
        lemma_mul_upper_bound(
            rate as int,
            18_446_744_073_709_551_615,
            elapsed as int,
            18_446_744_073_709_551_615,
        );
    }
    let exponent: u128 = (rate as u128) * (elapsed as u128);
    if exponent > MAX_EXPONENT as u128 {
        return Err(ErrorCode::ArithmeticOverflow);
    }
    let x: u64 = exponent as u64;
    let g: u64 = growth_factor_scaled(x);
    proof {
        lemma_mul_upper_bound(
            principal as int,
            18_446_744_073_709_551_615,
            g as int,
            2_147_483_648_000_000,
        );
        lemma_mul_nonnegative(principal as int, g as int);
        lemma_div_pos_is_pos(principal as int * g as int, SCALE as int);
        // the growth factor is at least one, so the value never shrinks
        lemma_mul_inequality(SCALE as int, g as int, principal as int);
        assert(principal * SCALE == SCALE * principal) by (nonlinear_arith);
        assert(g * principal == principal * g) by (nonlinear_arith);
        lemma_div_is_ordered(SCALE as int * principal as int, principal as int * g as int, SCALE as int);
        lemma_div_by_multiple(principal as int, SCALE as int);
        assert(SCALE as int * principal as int == principal as int * SCALE as int) by (nonlinear_arith);
    }
    let value: u128 = (principal as u128) * (g as u128) / (SCALE as u128);
    if value > u64::MAX as u128 {
        return Err(ErrorCode::ArithmeticOverflow);
    }
    Ok(value as u64)
}

/// Accrual is monotone, non-decreasing in elapsed time: waiting at least
/// as long never yields a smaller accrued value, and an accrual that fits
/// the ledger after the longer wait also fits after the shorter one.
pub proof fn lemma_accrue_monotonic(principal: u64, rate: u64, t1: u64, t2: u64)
    requires
        t1 <= t2,
    ensures
        accrued_value(principal as int, rate * t1) <= accrued_value(principal as int, rate * t2),
        accrue_ok(principal, rate, t2) ==> accrue_ok(principal, rate, t1),
{
    lemma_mul_nonnegative(rate as int, t1 as int);
    lemma_mul_inequality(t1 as int, t2 as int, rate as int);
    assert(t1 * rate == rate * t1) by (nonlinear_arith);
    assert(t2 * rate == rate * t2) by (nonlinear_arith);
    lemma_exp_partial_mono(rate * t1, rate * t2, EXP_TERMS as nat);
    lemma_exp_partial_at_least_zero(rate * t1);
    lemma_mul_inequality(
        growth_factor(rate * t1),
        growth_factor(rate * t2),
        principal as int,
    );
    assert(growth_factor(rate * t1) * principal == principal * growth_factor(rate * t1))
        by (nonlinear_arith);
    assert(growth_factor(rate * t2) * principal == principal * growth_factor(rate * t2))
        by (nonlinear_arith);
    lemma_div_is_ordered(
        principal as int * growth_factor(rate * t1),
        principal as int * growth_factor(rate * t2),
        SCALE as int,
    );
}

/// The growth factor is non-negative for a non-negative exponent.
proof fn lemma_exp_partial_at_least_zero(x: int)
    requires
        0 <= x,
    ensures
        0 <= growth_factor(x),
{
    lemma_exp_partial_nonneg(x, EXP_TERMS as nat);
}

/// Partial sums of the series are non-negative for a non-negative exponent.
proof fn lemma_exp_partial_nonneg(x: int, n: nat)
    requires
        0 <= x,
    ensures
        0 <= exp_partial(x, n),
    decreases n,
{
    if n > 0 {
        lemma_exp_partial_nonneg(x, (n - 1) as nat);
        lemma_exp_term_nonneg(x, (n - 1) as nat);
    }
}

} // verus!
