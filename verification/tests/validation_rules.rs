//! The validation predicates and the cross-reserve solvency check.

use lendingpool::generic::{balance_decrease_allowed, AssetPosition};
use lendingpool::types::{
    Error, InterestRateStrategy, ReserveConfigurationMap, ReserveData, Timestamp, SCALE,
};
use lendingpool::validation::{
    validate_borrow, validate_deposit, validate_repay, validate_withdraw,
};

fn reserve(active: bool, frozen: bool) -> ReserveData {
    ReserveData {
        configuration: ReserveConfigurationMap { is_active: active, is_frozen: frozen },
        liquidity_index: SCALE,
        variable_borrow_index: SCALE,
        current_liquidity_rate: 0,
        current_variable_borrow_rate: 0,
        current_stable_borrow_rate: 0,
        last_update_timestamp: 0 as Timestamp,
        atoken_address: 1,
        stable_debt_token_address: 2,
        variable_debt_token_address: 3,
        interest_rate_strategy_address: 4,
        id: 0,
    }
}

fn position(collateral: u128, debt: u128) -> AssetPosition {
    AssetPosition {
        collateral_balance: collateral,
        debt_balance: debt,
        price: 1,
        liquidation_threshold: 75,
    }
}

#[test]
fn deposit_validation_accepts_active_unfrozen_reserves() {
    assert_eq!(validate_deposit(&reserve(true, false), 10), Ok(()));
}

#[test]
fn deposit_validation_rejects_zero_amount() {
    assert_eq!(validate_deposit(&reserve(true, false), 0), Err(Error::InvalidAmount));
}

#[test]
fn deposit_validation_rejects_inactive_reserve() {
    assert_eq!(validate_deposit(&reserve(false, false), 10), Err(Error::InactiveReserve));
}

#[test]
fn deposit_validation_rejects_frozen_not_active_reserves() {
    // The documented intent: a frozen reserve takes no new deposits,
    // while an active, unfrozen one does.
    assert_eq!(validate_deposit(&reserve(true, true), 10), Err(Error::FrozenReserve));
    assert_eq!(validate_deposit(&reserve(true, false), 10), Ok(()));
}

#[test]
fn withdraw_validation_checks_amount_balance_and_reserve() {
    let ps = vec![position(100, 0)];
    assert_eq!(validate_withdraw(&reserve(true, false), 0, 100, &ps, 0), Err(Error::InvalidAmount));
    assert_eq!(
        validate_withdraw(&reserve(true, false), 101, 100, &ps, 0),
        Err(Error::InsufficientBalance)
    );
    assert_eq!(
        validate_withdraw(&reserve(false, false), 10, 100, &ps, 0),
        Err(Error::InactiveReserve)
    );
    assert_eq!(validate_withdraw(&reserve(true, false), 100, 100, &ps, 0), Ok(()));
}

#[test]
fn withdraw_validation_allows_frozen_reserves() {
    // Frozen only blocks deposits and borrows; withdrawal stays open.
    let ps = vec![position(100, 0)];
    assert_eq!(validate_withdraw(&reserve(true, true), 50, 100, &ps, 0), Ok(()));
}

#[test]
fn withdraw_validation_blocks_insolvent_decrease() {
    // With 80 owed, dropping collateral from 100 to 90 leaves a
    // weighted collateral of 67 against a debt of 80: refused.
    let ps = vec![position(100, 80)];
    assert_eq!(
        validate_withdraw(&reserve(true, false), 10, 100, &ps, 0),
        Err(Error::TransferNotAllowed)
    );
}

#[test]
fn decrease_allowed_without_debt() {
    let ps = vec![position(100, 0)];
    assert_eq!(balance_decrease_allowed(0, 100, &ps), Ok(true));
}

#[test]
fn decrease_allowed_while_collateral_covers_debt() {
    // 100 collateral, 50 owed: after taking 10, weighted collateral is
    // 90 * 75% = 67 against 50 owed, a health factor of 1.34.
    let ps = vec![position(100, 50)];
    assert_eq!(balance_decrease_allowed(0, 10, &ps), Ok(true));
    // Taking 40 leaves 60 * 75% = 45 < 50: refused.
    assert_eq!(balance_decrease_allowed(0, 40, &ps), Ok(false));
}

#[test]
fn decrease_of_more_than_the_collateral_is_not_allowed() {
    let ps = vec![position(100, 0)];
    assert_eq!(balance_decrease_allowed(0, 101, &ps), Ok(false));
}

#[test]
fn decrease_allowed_weighs_every_reserve() {
    // Debt in one reserve can be carried by collateral in another.
    let ps = vec![position(0, 60), position(100, 0)];
    assert_eq!(balance_decrease_allowed(1, 10, &ps), Ok(true));
    assert_eq!(balance_decrease_allowed(1, 30, &ps), Ok(false));
}

#[test]
fn borrow_validation_walks_every_rule() {
    let r = reserve(true, false);
    // amount, liquidity, collateral, debt, stable cap percent
    assert_eq!(validate_borrow(&r, 0, 1000, 1000, 0, 25), Err(Error::InvalidAmount));
    assert_eq!(
        validate_borrow(&reserve(false, false), 10, 1000, 1000, 0, 25),
        Err(Error::InactiveReserve)
    );
    assert_eq!(
        validate_borrow(&reserve(true, true), 10, 1000, 1000, 0, 25),
        Err(Error::FrozenReserve)
    );
    assert_eq!(validate_borrow(&r, 2000, 1000, 1000, 0, 25), Err(Error::NotEnoughLiquidity));
    // Borrowing power is 75% of collateral: 100 * 0.75 = 75.
    assert_eq!(validate_borrow(&r, 76, 1000, 100, 0, 25), Err(Error::TransferNotAllowed));
    assert_eq!(validate_borrow(&r, 40, 1000, 100, 40, 25), Err(Error::TransferNotAllowed));
    // The stable-loan cap is 25% of available liquidity.
    assert_eq!(validate_borrow(&r, 260, 1000, 10000, 0, 25), Err(Error::NotEnoughLiquidity));
    assert_eq!(validate_borrow(&r, 75, 1000, 100, 0, 25), Ok(()));
}

#[test]
fn repay_validation_checks_amount_and_outstanding_debt() {
    assert_eq!(validate_repay(0, 100), Err(Error::InvalidAmount));
    assert_eq!(validate_repay(101, 100), Err(Error::InsufficientBalance));
    assert_eq!(validate_repay(100, 100), Ok(()));
}

#[test]
fn strategy_struct_carries_the_rate_parameters() {
    let s = InterestRateStrategy {
        base_stable_rate: 7,
        stable_rate_slope: 8,
        base_variable_rate: 9,
        variable_rate_slope: 10,
    };
    assert_eq!(s.base_stable_rate, 7);
    assert_eq!(s.variable_rate_slope, 10);
}
