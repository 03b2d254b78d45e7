//! Reserve-level transitions: advancing the two interest indices by the
//! time elapsed since the last accrual, and recomputing the three current
//! rates from post-action utilization.

use vstd::prelude::*;

use crate::types::{Balance, Error, InterestRateStrategy, ReserveData, Timestamp, SCALE};

verus! {

/// An index advanced by linear interest over `dt` seconds:
/// `index * (SCALE + rate*dt) / SCALE`.
pub open spec fn spec_accrue_index(index: int, rate: int, dt: int) -> int {
    index * (SCALE + rate * dt) / (SCALE as int)
}

/// Whether advancing either index of `r` to `now` would overflow a
/// `u128` step. Nothing is computed when no time has passed.
pub open spec fn spec_update_state_overflows(r: ReserveData, now: Timestamp) -> bool {
    let dt = now - r.last_update_timestamp;
    &&& dt != 0
    &&& {
        ||| r.current_liquidity_rate * dt > u128::MAX
        ||| SCALE + r.current_liquidity_rate * dt > u128::MAX
        ||| r.liquidity_index * (SCALE + r.current_liquidity_rate * dt) > u128::MAX
        ||| r.current_variable_borrow_rate * dt > u128::MAX
        ||| SCALE + r.current_variable_borrow_rate * dt > u128::MAX
        ||| r.variable_borrow_index * (SCALE + r.current_variable_borrow_rate * dt) > u128::MAX
    }
}

/// The reserve after accrual at `now`: both indices advanced by the
/// interest since `last_update_timestamp` at the current rates, the
/// timestamp stamped, everything else untouched. When no time has
/// passed the reserve is returned as it is.
pub open spec fn spec_update_state(r: ReserveData, now: Timestamp) -> ReserveData {
    if now == r.last_update_timestamp {
        r
    } else {
        let dt = now - r.last_update_timestamp;
        ReserveData {
            liquidity_index: spec_accrue_index(
                r.liquidity_index as int,
                r.current_liquidity_rate as int,
                dt,
            ) as u128,
            variable_borrow_index: spec_accrue_index(
                r.variable_borrow_index as int,
                r.current_variable_borrow_rate as int,
                dt,
            ) as u128,
            last_update_timestamp: now,
            configuration: r.configuration,
            current_liquidity_rate: r.current_liquidity_rate,
            current_variable_borrow_rate: r.current_variable_borrow_rate,
            current_stable_borrow_rate: r.current_stable_borrow_rate,
            atoken_address: r.atoken_address,
            stable_debt_token_address: r.stable_debt_token_address,
            variable_debt_token_address: r.variable_debt_token_address,
            interest_rate_strategy_address: r.interest_rate_strategy_address,
            id: r.id,
        }
    }
}

/// An index never shrinks under accrual: the factor `SCALE + rate*dt`
/// is at least `SCALE`.
pub proof fn lemma_accrue_index_monotone(index: int, rate: int, dt: int)
    requires
        index >= 0,
        rate >= 0,
        dt >= 0,
    ensures
        spec_accrue_index(index, rate, dt) >= index,
{
    let factor = (SCALE as int) + rate * dt;
    assert(rate * dt >= 0) by (nonlinear_arith)
        requires
            rate >= 0,
            dt >= 0,
    ;
    vstd::arithmetic::mul::lemma_mul_inequality(SCALE as int, factor, index);
    vstd::arithmetic::div_mod::lemma_div_is_ordered(
        (SCALE as int) * index,
        index * factor,
        SCALE as int,
    );
    vstd::arithmetic::div_mod::lemma_div_multiples_vanish(index, SCALE as int);
}

/// Accrual idempotence: advancing a reserve twice to the same timestamp
/// produces no change the second time.
pub proof fn lemma_update_state_idempotent(r: ReserveData, now: Timestamp)
    ensures
        spec_update_state(spec_update_state(r, now), now) == spec_update_state(r, now),
{
    assert(spec_update_state(r, now).last_update_timestamp == now);
}

/// Advances the liquidity and variable-borrow indices by the interest
/// accrued since the last update at the current rates, then stamps the
/// timestamp. A no-op when `now` equals the stored timestamp, so calling
/// it twice in one action changes nothing the second time.
pub fn update_state(reserve: &mut ReserveData, now: Timestamp) -> (r: Result<(), Error>)
    requires
        old(reserve).last_update_timestamp <= now,
    ensures
        match r {
            Ok(()) => {
                &&& !spec_update_state_overflows(*old(reserve), now)
                &&& *final(reserve) == spec_update_state(*old(reserve), now)
                &&& final(reserve).liquidity_index >= old(reserve).liquidity_index
                &&& final(reserve).variable_borrow_index >= old(reserve).variable_borrow_index
            },
            Err(e) => {
                &&& e == Error::InsufficientSupply
                &&& spec_update_state_overflows(*old(reserve), now)
                &&& *final(reserve) == *old(reserve)
            },
        },
{
    if now == reserve.last_update_timestamp {
        return Ok(());
    }
    let dt = now - reserve.last_update_timestamp;
    let liq_growth = match reserve.current_liquidity_rate.checked_mul(dt as u128) {
        Some(v) => v,
        None => {
            return Err(Error::InsufficientSupply);
        },
    };
    let liq_factor = match SCALE.checked_add(liq_growth) {
        Some(v) => v,
        None => {
            return Err(Error::InsufficientSupply);
        },
    };
    let new_liquidity_index = match crate::math::mul_div(reserve.liquidity_index, liq_factor, SCALE) {
        Some(v) => v,
        None => {
            return Err(Error::InsufficientSupply);
        },
    };
    let var_growth = match reserve.current_variable_borrow_rate.checked_mul(dt as u128) {
        Some(v) => v,
        None => {
            return Err(Error::InsufficientSupply);
        },
    };
    let var_factor = match SCALE.checked_add(var_growth) {
        Some(v) => v,
        None => {
            return Err(Error::InsufficientSupply);
        },
    };
    let new_variable_index = match crate::math::mul_div(
        reserve.variable_borrow_index,
        var_factor,
        SCALE,
    ) {
        Some(v) => v,
        None => {
            return Err(Error::InsufficientSupply);
        },
    };
    proof {
        lemma_accrue_index_monotone(
            reserve.liquidity_index as int,
            reserve.current_liquidity_rate as int,
            dt as int,
        );
        lemma_accrue_index_monotone(
            reserve.variable_borrow_index as int,
            reserve.current_variable_borrow_rate as int,
            dt as int,
        );
    }
    reserve.liquidity_index = new_liquidity_index;
    reserve.variable_borrow_index = new_variable_index;
    reserve.last_update_timestamp = now;
    Ok(())
}

/// Utilization of a reserve in `SCALE` units: debt over total liquidity,
/// zero for an empty reserve.
pub open spec fn spec_utilization(available: int, debt: int) -> int {
    if available + debt == 0 {
        0
    } else {
        debt * (SCALE as int) / (available + debt)
    }
}

/// A strategy rate at utilization `u`: `base + slope * u / SCALE`.
pub open spec fn spec_strategy_rate(base: int, slope: int, u: int) -> int {
    base + slope * u / (SCALE as int)
}

/// The rates recomputed from post-action liquidity, or the error that
/// stops them: the triple is (liquidity rate, variable rate, stable
/// rate). The liquidity rate is the stable rate earned on the utilized
/// share of the pool.
pub open spec fn spec_rates_outcome(
    s: InterestRateStrategy,
    available: int,
    added: int,
    taken: int,
    debt: int,
) -> Result<(u128, u128, u128), Error> {
    if available + added > u128::MAX {
        Err(Error::InsufficientSupply)
    } else if taken > available + added {
        Err(Error::NotEnoughLiquidity)
    } else {
        let avail2 = available + added - taken;
        if avail2 + debt > u128::MAX {
            Err(Error::InsufficientSupply)
        } else if avail2 + debt != 0 && debt * SCALE > u128::MAX {
            Err(Error::InsufficientSupply)
        } else {
            let u = spec_utilization(avail2, debt);
            if s.stable_rate_slope * u > u128::MAX {
                Err(Error::InsufficientSupply)
            } else if s.base_stable_rate + s.stable_rate_slope * u / (SCALE as int) > u128::MAX {
                Err(Error::InsufficientSupply)
            } else if s.variable_rate_slope * u > u128::MAX {
                Err(Error::InsufficientSupply)
            } else if s.base_variable_rate + s.variable_rate_slope * u / (SCALE as int)
                > u128::MAX {
                Err(Error::InsufficientSupply)
            } else {
                let stable = spec_strategy_rate(s.base_stable_rate as int, s.stable_rate_slope as int, u);
                let variable = spec_strategy_rate(
                    s.base_variable_rate as int,
                    s.variable_rate_slope as int,
                    u,
                );
                if stable * u > u128::MAX {
                    Err(Error::InsufficientSupply)
                } else {
                    Ok(
                        (
                            (stable * u / (SCALE as int)) as u128,
                            variable as u128,
                            stable as u128,
                        ),
                    )
                }
            }
        }
    }
}

/// Recomputes the three current rates of `reserve` from the utilization
/// after an action that added `liquidity_added` and took
/// `liquidity_taken`, with `available_liquidity` the pool's underlying
/// holdings before the action and `total_stable_debt` the outstanding
/// principal debt. Only the three rate fields change.
pub fn update_interest_rates(
    reserve: &mut ReserveData,
    strategy: &InterestRateStrategy,
    available_liquidity: Balance,
    liquidity_added: Balance,
    liquidity_taken: Balance,
    total_stable_debt: Balance,
) -> (r: Result<(), Error>)
    ensures
        match r {
            Ok(()) => {
                &&& spec_rates_outcome(
                    *strategy,
                    available_liquidity as int,
                    liquidity_added as int,
                    liquidity_taken as int,
                    total_stable_debt as int,
                ) == Ok::<(u128, u128, u128), Error>(
                    (
                        final(reserve).current_liquidity_rate,
                        final(reserve).current_variable_borrow_rate,
                        final(reserve).current_stable_borrow_rate,
                    ),
                )
                &&& *final(reserve) == ReserveData {
                    current_liquidity_rate: final(reserve).current_liquidity_rate,
                    current_variable_borrow_rate: final(reserve).current_variable_borrow_rate,
                    current_stable_borrow_rate: final(reserve).current_stable_borrow_rate,
                    ..*old(reserve)
                }
            },
            Err(e) => {
                &&& spec_rates_outcome(
                    *strategy,
                    available_liquidity as int,
                    liquidity_added as int,
                    liquidity_taken as int,
                    total_stable_debt as int,
                ) == Err::<(u128, u128, u128), Error>(e)
                &&& *final(reserve) == *old(reserve)
            },
        },
{
    let with_added = match available_liquidity.checked_add(liquidity_added) {
        Some(v) => v,
        None => {
            return Err(Error::InsufficientSupply);
        },
    };
    if liquidity_taken > with_added {
        return Err(Error::NotEnoughLiquidity);
    }
    let avail2 = with_added - liquidity_taken;
    let denom = match avail2.checked_add(total_stable_debt) {
        Some(v) => v,
        None => {
            return Err(Error::InsufficientSupply);
        },
    };
    let u: u128 = if denom == 0 {
        0
    } else {
        match total_stable_debt.checked_mul(SCALE) {
            Some(v) => v / denom,
            None => {
                return Err(Error::InsufficientSupply);
            },
        }
    };
    let stable_slope_part = match strategy.stable_rate_slope.checked_mul(u) {
        Some(v) => v,
        None => {
            return Err(Error::InsufficientSupply);
        },
    };
    let stable = match strategy.base_stable_rate.checked_add(stable_slope_part / SCALE) {
        Some(v) => v,
        None => {
            return Err(Error::InsufficientSupply);
        },
    };
    let variable_slope_part = match strategy.variable_rate_slope.checked_mul(u) {
        Some(v) => v,
        None => {
            return Err(Error::InsufficientSupply);
        },
    };
    let variable = match strategy.base_variable_rate.checked_add(variable_slope_part / SCALE) {
        Some(v) => v,
        None => {
            return Err(Error::InsufficientSupply);
        },
    };
    let liquidity = match stable.checked_mul(u) {
        Some(v) => v / SCALE,
        None => {
            return Err(Error::InsufficientSupply);
        },
    };
    reserve.current_liquidity_rate = liquidity;
    reserve.current_variable_borrow_rate = variable;
    reserve.current_stable_borrow_rate = stable;
    Ok(())
}

} // verus!
