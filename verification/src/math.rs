//! Checked fixed-point arithmetic. The accrual model of the whole crate
//! is fixed here: interest is linear in elapsed time, `principal * rate *
//! dt / SCALE`, with `rate` per second in `SCALE` units. Overflow is never
//! wrapped or saturated; every operation reports it to the caller.

use vstd::prelude::*;

use crate::types::SCALE;

verus! {

/// Linear (simple) interest earned by `principal` at per-second `rate`
/// over `dt` seconds, rounded down.
pub open spec fn spec_linear_interest(principal: int, rate: int, dt: int) -> int {
    principal * rate * dt / (SCALE as int)
}

/// A principal together with its linear interest.
pub open spec fn spec_accrued(principal: int, rate: int, dt: int) -> int {
    principal + spec_linear_interest(principal, rate, dt)
}

/// True when computing `spec_accrued` in `u128` steps (two multiplications,
/// then the addition) would overflow.
pub open spec fn accrual_overflows(principal: int, rate: int, dt: int) -> bool {
    ||| principal * rate > u128::MAX
    ||| principal * rate * dt > u128::MAX
    ||| spec_accrued(principal, rate, dt) > u128::MAX
}

/// `a * b / d`, the basic fixed-point scaling step.
pub open spec fn spec_mul_div(a: int, b: int, d: int) -> int {
    a * b / d
}

/// Interest is never negative, so accrual never shrinks a principal.
pub proof fn lemma_interest_nonneg(principal: int, rate: int, dt: int)
    requires
        principal >= 0,
        rate >= 0,
        dt >= 0,
    ensures
        spec_linear_interest(principal, rate, dt) >= 0,
        spec_accrued(principal, rate, dt) >= principal,
{
    assert(principal * rate >= 0 && principal * rate * dt >= 0) by (nonlinear_arith)
        requires
            principal >= 0,
            rate >= 0,
            dt >= 0,
    ;
    vstd::arithmetic::div_mod::lemma_div_pos_is_pos(principal * rate * dt, SCALE as int);
}

/// A zero principal accrues nothing and can never overflow.
pub proof fn lemma_zero_accrues_nothing(rate: int, dt: int)
    ensures
        spec_linear_interest(0, rate, dt) == 0,
        spec_accrued(0, rate, dt) == 0,
        !accrual_overflows(0, rate, dt),
{
    assert(0 * rate == 0) by (nonlinear_arith);
    assert(0 * dt == 0) by (nonlinear_arith);
    vstd::arithmetic::div_mod::lemma_div_of0(SCALE as int);
}

/// Computes `a * b / d`, or `None` when the product overflows.
pub fn mul_div(a: u128, b: u128, d: u128) -> (r: Option<u128>)
    requires
        d > 0,
    ensures
        match r {
            Some(v) => a * b <= u128::MAX && v == spec_mul_div(a as int, b as int, d as int),
            None => a * b > u128::MAX,
        },
{
    match a.checked_mul(b) {
        Some(p) => Some(p / d),
        None => None,
    }
}

/// Computes the linear interest of `principal` at `rate` over `dt`
/// seconds, or `None` when an intermediate product overflows.
pub fn linear_interest(principal: u128, rate: u128, dt: u64) -> (r: Option<u128>)
    ensures
        match r {
            Some(v) => {
                &&& principal * rate <= u128::MAX
                &&& principal * rate * dt <= u128::MAX
                &&& v == spec_linear_interest(principal as int, rate as int, dt as int)
            },
            None => principal * rate > u128::MAX || principal * rate * dt > u128::MAX,
        },
{
    match principal.checked_mul(rate) {
        Some(p) => match p.checked_mul(dt as u128) {
            Some(q) => Some(q / SCALE),
            None => None,
        },
        None => None,
    }
}

/// Computes `principal` plus its linear interest, or `None` on overflow.
pub fn accrued_balance(principal: u128, rate: u128, dt: u64) -> (r: Option<u128>)
    ensures
        match r {
            Some(v) => {
                &&& !accrual_overflows(principal as int, rate as int, dt as int)
                &&& v == spec_accrued(principal as int, rate as int, dt as int)
            },
            None => accrual_overflows(principal as int, rate as int, dt as int),
        },
{
    match linear_interest(principal, rate, dt) {
        Some(i) => principal.checked_add(i),
        None => None,
    }
}

} // verus!
