//! Reserve index accrual, its idempotence, rate recomputation, and the
//! fixed-point helpers.

use lendingpool::math::{accrued_balance, linear_interest, mul_div};
use lendingpool::reserve::{update_interest_rates, update_state};
use lendingpool::types::{
    Error, InterestRateStrategy, ReserveConfigurationMap, ReserveData, SCALE,
};

fn reserve() -> ReserveData {
    ReserveData {
        configuration: ReserveConfigurationMap { is_active: true, is_frozen: false },
        liquidity_index: SCALE,
        variable_borrow_index: SCALE,
        current_liquidity_rate: 50_000_000,
        current_variable_borrow_rate: 100_000_000,
        current_stable_borrow_rate: 200_000_000,
        last_update_timestamp: 0,
        atoken_address: 1,
        stable_debt_token_address: 2,
        variable_debt_token_address: 3,
        interest_rate_strategy_address: 4,
        id: 0,
    }
}

#[test]
fn update_state_advances_both_indices_linearly() {
    let mut r = reserve();
    assert_eq!(update_state(&mut r, 1), Ok(()));
    // One second at 0.05/s and 0.1/s.
    assert_eq!(r.liquidity_index, 1_050_000_000);
    assert_eq!(r.variable_borrow_index, 1_100_000_000);
    assert_eq!(r.last_update_timestamp, 1);
}

#[test]
fn update_state_compounds_across_calls() {
    let mut r = reserve();
    update_state(&mut r, 1).unwrap();
    update_state(&mut r, 2).unwrap();
    // The second step multiplies the already-grown index:
    // 1.05 * 1.05 = 1.1025.
    assert_eq!(r.liquidity_index, 1_102_500_000);
}

#[test]
fn accrual_is_idempotent_at_one_timestamp() {
    // The accrual between two timestamps is applied exactly once:
    // a second call at the same timestamp changes nothing.
    let mut r = reserve();
    update_state(&mut r, 5).unwrap();
    let once = r;
    assert_eq!(update_state(&mut r, 5), Ok(()));
    assert_eq!(r, once);
}

#[test]
fn update_state_never_decreases_an_index() {
    let mut r = reserve();
    r.current_liquidity_rate = 0;
    update_state(&mut r, 100).unwrap();
    assert_eq!(r.liquidity_index, SCALE);
    assert_eq!(r.variable_borrow_index, 11_000_000_000);
}

#[test]
fn update_state_refuses_overflowing_growth() {
    let mut r = reserve();
    r.current_liquidity_rate = u128::MAX / 2;
    assert_eq!(update_state(&mut r, 3), Err(Error::InsufficientSupply));
    // A refused accrual leaves the reserve untouched.
    assert_eq!(r.last_update_timestamp, 0);
    assert_eq!(r.liquidity_index, SCALE);
}

#[test]
fn rates_follow_utilization() {
    let mut r = reserve();
    let s = InterestRateStrategy {
        base_stable_rate: 100_000_000,
        stable_rate_slope: 100_000_000,
        base_variable_rate: 50_000_000,
        variable_rate_slope: 200_000_000,
    };
    // 900 available against 100 owed: utilization 0.1.
    assert_eq!(update_interest_rates(&mut r, &s, 900, 0, 0, 100), Ok(()));
    assert_eq!(r.current_stable_borrow_rate, 110_000_000);
    assert_eq!(r.current_variable_borrow_rate, 70_000_000);
    // Depositors earn the stable rate on the utilized tenth.
    assert_eq!(r.current_liquidity_rate, 11_000_000);
    // Only the rates moved.
    assert_eq!(r.liquidity_index, SCALE);
    assert_eq!(r.last_update_timestamp, 0);
}

#[test]
fn rates_of_an_empty_reserve_sit_at_the_base() {
    let mut r = reserve();
    let s = InterestRateStrategy {
        base_stable_rate: 100_000_000,
        stable_rate_slope: 100_000_000,
        base_variable_rate: 50_000_000,
        variable_rate_slope: 200_000_000,
    };
    assert_eq!(update_interest_rates(&mut r, &s, 0, 0, 0, 0), Ok(()));
    assert_eq!(r.current_stable_borrow_rate, 100_000_000);
    assert_eq!(r.current_variable_borrow_rate, 50_000_000);
    assert_eq!(r.current_liquidity_rate, 0);
}

#[test]
fn rates_account_for_the_action_being_applied() {
    let mut r = reserve();
    let s = InterestRateStrategy {
        base_stable_rate: 0,
        stable_rate_slope: 1_000_000_000,
        base_variable_rate: 0,
        variable_rate_slope: 0,
    };
    // 500 held, 300 withdrawn, 200 owed: utilization 200/400 = 0.5.
    assert_eq!(update_interest_rates(&mut r, &s, 500, 0, 300, 200), Ok(()));
    assert_eq!(r.current_stable_borrow_rate, 500_000_000);
}

#[test]
fn rates_refuse_taking_more_than_the_pool_holds() {
    let mut r = reserve();
    let s = InterestRateStrategy {
        base_stable_rate: 0,
        stable_rate_slope: 0,
        base_variable_rate: 0,
        variable_rate_slope: 0,
    };
    assert_eq!(
        update_interest_rates(&mut r, &s, 100, 20, 121, 0),
        Err(Error::NotEnoughLiquidity)
    );
}

#[test]
fn rates_refuse_overflowing_liquidity() {
    let mut r = reserve();
    let s = InterestRateStrategy {
        base_stable_rate: 0,
        stable_rate_slope: 0,
        base_variable_rate: 0,
        variable_rate_slope: 0,
    };
    assert_eq!(
        update_interest_rates(&mut r, &s, u128::MAX, 1, 0, 0),
        Err(Error::InsufficientSupply)
    );
    assert_eq!(r, reserve());
}

#[test]
fn linear_interest_matches_the_formula() {
    // 100 at 0.1/s for 10 s earns 100.
    assert_eq!(linear_interest(100, 100_000_000, 10), Some(100));
    // Rounding is downward: 1 at 0.1/s for 1 s earns 0.1, booked as 0.
    assert_eq!(linear_interest(1, 100_000_000, 1), Some(0));
    assert_eq!(linear_interest(u128::MAX, 2, 1), None);
}

#[test]
fn accrued_balance_adds_interest_to_principal() {
    assert_eq!(accrued_balance(100, 100_000_000, 10), Some(200));
    assert_eq!(accrued_balance(100, 0, 1000), Some(100));
}

#[test]
fn mul_div_scales_with_floor_rounding() {
    assert_eq!(mul_div(7, 3, 2), Some(10));
    assert_eq!(mul_div(100, SCALE, 1_050_000_000), Some(95));
    assert_eq!(mul_div(u128::MAX, 2, 1), None);
}
