//! The orchestrator: full deposit / withdraw / borrow / repay rounds,
//! collateral-flag toggling, and the per-action error surface.

use lendingpool::pool::{Borrow, Deposit, Lendingpool, Repay, Withdraw};
use lendingpool::reserve::update_state;
use lendingpool::types::{Error, InterestRateStrategy, SCALE};

const USER: u128 = 10;
const OTHER: u128 = 20;

fn strategy() -> InterestRateStrategy {
    InterestRateStrategy {
        base_stable_rate: 200_000_000,
        stable_rate_slope: 0,
        base_variable_rate: 100_000_000,
        variable_rate_slope: 0,
    }
}

fn pool() -> Lendingpool {
    Lendingpool::new(1, 2, strategy())
}

fn collateral_flag(p: &Lendingpool, account: u128) -> Option<bool> {
    p.users_data.iter().find(|e| e.account == account).map(|e| e.data.use_as_collateral)
}

#[test]
fn deposit_then_accrual_then_full_withdraw() {
    // A deposit of 100 at index 1.0 stores 100 scaled; accrual to 1.05
    // makes it read 105; withdrawing 105 empties the position and
    // clears the collateral flag, and the rates are recomputed.
    let mut p = pool();
    let ev = p.deposit(USER, None, 100, 0, 0).unwrap();
    assert_eq!(ev, Deposit { user: USER, on_behalf_of: USER, amount: 100 });
    assert_eq!(p.stoken.getscaledbalanceandsupply(USER).0, 100);
    assert_eq!(p.stoken.balanceof(USER, p.reserve.liquidity_index), Ok(100));
    assert_eq!(collateral_flag(&p, USER), Some(true));

    // One second at a deposit rate of 0.05/s lifts the index to 1.05.
    p.reserve.current_liquidity_rate = 50_000_000;
    update_state(&mut p.reserve, 1).unwrap();
    assert_eq!(p.reserve.liquidity_index, 1_050_000_000);
    assert_eq!(p.stoken.balanceof(USER, p.reserve.liquidity_index), Ok(105));
    assert_eq!(p.stoken.getscaledbalanceandsupply(USER).0, 100);

    let ev = p.withdraw(USER, 105, None, 1000, 1).unwrap();
    assert_eq!(ev, Withdraw { user: USER, to: USER, amount: 105 });
    assert_eq!(p.stoken.getscaledbalanceandsupply(USER).0, 0);
    assert_eq!(collateral_flag(&p, USER), Some(false));
    assert_eq!(p.reserve.current_liquidity_rate, 0);
    assert_eq!(p.reserve.current_variable_borrow_rate, 100_000_000);
    assert_eq!(p.reserve.current_stable_borrow_rate, 200_000_000);
}

#[test]
fn deposit_withdraw_round_trip_restores_everything() {
    // Same timestamp, so no interest: the withdrawal hands back exactly
    // the deposit and the scaled balance returns to zero.
    let mut p = pool();
    p.deposit(USER, None, 100, 0, 0).unwrap();
    let ev = p.withdraw(USER, 100, None, 100, 0).unwrap();
    assert_eq!(ev.amount, 100);
    assert_eq!(p.stoken.getscaledbalanceandsupply(USER).0, 0);
    assert_eq!(p.stoken.scaledtotalsuplly(), 0);
    assert_eq!(collateral_flag(&p, USER), Some(false));
}

#[test]
fn collateral_flag_toggles_at_zero_crossings() {
    let mut p = pool();
    p.deposit(USER, None, 100, 0, 0).unwrap();
    assert_eq!(collateral_flag(&p, USER), Some(true));
    // A partial withdrawal keeps the flag on.
    p.withdraw(USER, 40, None, 100, 0).unwrap();
    assert_eq!(collateral_flag(&p, USER), Some(true));
    // Emptying the balance turns it off.
    p.withdraw(USER, 60, None, 100, 0).unwrap();
    assert_eq!(collateral_flag(&p, USER), Some(false));
    // A fresh deposit from zero turns it back on.
    p.deposit(USER, None, 5, 0, 0).unwrap();
    assert_eq!(collateral_flag(&p, USER), Some(true));
}

#[test]
fn deposit_for_a_beneficiary_credits_the_beneficiary() {
    let mut p = pool();
    let ev = p.deposit(USER, Some(OTHER), 100, 0, 0).unwrap();
    assert_eq!(ev, Deposit { user: USER, on_behalf_of: OTHER, amount: 100 });
    assert_eq!(p.stoken.getscaledbalanceandsupply(OTHER).0, 100);
    assert_eq!(p.stoken.getscaledbalanceandsupply(USER).0, 0);
    assert_eq!(collateral_flag(&p, OTHER), Some(true));
}

#[test]
fn borrow_locks_the_current_stable_rate_and_reprices() {
    let mut p = pool();
    p.deposit(USER, None, 1000, 0, 0).unwrap();
    let ev = p.borrow(USER, 100, USER, 1000, 0).unwrap();
    assert_eq!(
        ev,
        Borrow { user: USER, on_behalf_of: USER, amount: 100, borrow_rate: 200_000_000 }
    );
    assert_eq!(p.debt_token.principalbalanceof(USER), 100);
    assert_eq!(p.debt_token.getuserstalerate(USER), 200_000_000);
    assert_eq!(p.debt_token.getavgstablerate(), 200_000_000);
    // Utilization 100 / (900 + 100) = 0.1; depositors earn the stable
    // rate on the utilized tenth of the pool.
    assert_eq!(p.reserve.current_liquidity_rate, 20_000_000);
}

#[test]
fn repay_closes_the_debt_and_resets_the_average() {
    let mut p = pool();
    p.deposit(USER, None, 1000, 0, 0).unwrap();
    p.borrow(USER, 100, USER, 1000, 0).unwrap();
    let ev = p.repay(USER, 100, USER, 1000, 0).unwrap();
    assert_eq!(ev, Repay { receiver: USER, repayer: USER, amount: 100 });
    assert_eq!(p.debt_token.principalbalanceof(USER), 0);
    assert_eq!(p.debt_token.getuserstalerate(USER), 0);
    assert_eq!(p.debt_token.getavgstablerate(), 0);
    assert_eq!(p.debt_token.total_supply, 0);
}

#[test]
fn delegated_borrow_needs_and_consumes_the_allowance() {
    let mut p = pool();
    p.deposit(OTHER, None, 1000, 0, 0).unwrap();
    // Without a delegation the caller may not borrow against OTHER.
    assert_eq!(
        p.borrow(USER, 30, OTHER, 2000, 0),
        Err(Error::InsufficientAllowance)
    );
    p.debt_token.approvedelegation(OTHER, USER, 50);
    let ev = p.borrow(USER, 30, OTHER, 2000, 0).unwrap();
    assert_eq!(ev.on_behalf_of, OTHER);
    assert_eq!(p.debt_token.borrowallowance(OTHER, USER), 20);
    assert_eq!(p.debt_token.principalbalanceof(OTHER), 30);
    assert_eq!(p.debt_token.principalbalanceof(USER), 0);
}

#[test]
fn deposit_errors() {
    let mut p = pool();
    assert_eq!(p.deposit(USER, None, 0, 0, 0), Err(Error::InvalidAmount));
    p.reserve.configuration.is_frozen = true;
    assert_eq!(p.deposit(USER, None, 10, 0, 0), Err(Error::FrozenReserve));
    p.reserve.configuration.is_frozen = false;
    p.reserve.configuration.is_active = false;
    assert_eq!(p.deposit(USER, None, 10, 0, 0), Err(Error::InactiveReserve));
}

#[test]
fn frozen_reserve_still_allows_withdraw_and_repay() {
    let mut p = pool();
    p.deposit(USER, None, 1000, 0, 0).unwrap();
    p.borrow(USER, 100, USER, 1000, 0).unwrap();
    p.reserve.configuration.is_frozen = true;
    assert_eq!(p.repay(USER, 100, USER, 1000, 0).map(|ev| ev.amount), Ok(100));
    assert_eq!(p.withdraw(USER, 200, None, 1000, 0).map(|ev| ev.amount), Ok(200));
    // But no new deposits or borrows.
    assert_eq!(p.deposit(USER, None, 10, 1000, 0), Err(Error::FrozenReserve));
    assert_eq!(p.borrow(USER, 10, USER, 1000, 0), Err(Error::FrozenReserve));
}

#[test]
fn withdraw_errors() {
    let mut p = pool();
    p.deposit(USER, None, 100, 0, 0).unwrap();
    assert_eq!(p.withdraw(USER, 0, None, 100, 0), Err(Error::InvalidAmount));
    assert_eq!(p.withdraw(USER, 101, None, 100, 0), Err(Error::InsufficientBalance));
    // The pool cannot release more underlying than it holds.
    assert_eq!(p.withdraw(USER, 50, None, 10, 0), Err(Error::NotEnoughLiquidity));
    // The state is untouched by refused actions.
    assert_eq!(p.stoken.getscaledbalanceandsupply(USER).0, 100);
}

#[test]
fn withdraw_that_breaks_solvency_is_refused() {
    let mut p = pool();
    p.deposit(USER, None, 1000, 0, 0).unwrap();
    p.borrow(USER, 100, USER, 1000, 0).unwrap();
    // Dropping collateral to 100 leaves 75 weighted against 100 owed.
    assert_eq!(p.withdraw(USER, 900, None, 2000, 0), Err(Error::TransferNotAllowed));
    // A gentler withdrawal passes: 800 weighted 600 against 100 owed.
    assert_eq!(p.withdraw(USER, 200, None, 2000, 0).map(|ev| ev.amount), Ok(200));
}

#[test]
fn borrow_errors() {
    let mut p = pool();
    p.deposit(USER, None, 100, 0, 0).unwrap();
    assert_eq!(p.borrow(USER, 0, USER, 1000, 0), Err(Error::InvalidAmount));
    // Beyond the pool's holdings.
    assert_eq!(p.borrow(USER, 2000, USER, 1000, 0), Err(Error::NotEnoughLiquidity));
    // Beyond 75% of the caller's collateral.
    assert_eq!(p.borrow(USER, 76, USER, 1000, 0), Err(Error::TransferNotAllowed));
    // Beyond the stable-loan share (25%) of available liquidity.
    p.deposit(USER, None, 900, 0, 0).unwrap();
    assert_eq!(p.borrow(USER, 260, USER, 1000, 0), Err(Error::NotEnoughLiquidity));
}

#[test]
fn repay_errors() {
    let mut p = pool();
    p.deposit(USER, None, 1000, 0, 0).unwrap();
    p.borrow(USER, 100, USER, 1000, 0).unwrap();
    assert_eq!(p.repay(USER, 0, USER, 1000, 0), Err(Error::InvalidAmount));
    assert_eq!(p.repay(USER, 101, USER, 1000, 0), Err(Error::InsufficientBalance));
    assert_eq!(p.debt_token.principalbalanceof(USER), 100);
}

#[test]
fn partial_repay_after_accrual_reconciles_principal() {
    let mut p = pool();
    p.deposit(USER, None, 1000, 0, 0).unwrap();
    p.borrow(USER, 100, USER, 1000, 0).unwrap();
    // One second at 0.2/s: the debt reads 120.
    assert_eq!(p.debt_token.balanceof(USER, 1), Ok(120));
    // Repaying 5 is less than the 20 of accrued interest: the surplus
    // of 15 is folded into the principal.
    p.repay(USER, 5, USER, 1000, 1).unwrap();
    assert_eq!(p.debt_token.principalbalanceof(USER), 115);
}

#[test]
fn pool_new_starts_at_index_one_with_strategy_rates() {
    let p = pool();
    assert_eq!(p.reserve.liquidity_index, SCALE);
    assert_eq!(p.reserve.variable_borrow_index, SCALE);
    assert_eq!(p.reserve.current_liquidity_rate, 0);
    assert_eq!(p.reserve.current_variable_borrow_rate, 100_000_000);
    assert_eq!(p.reserve.current_stable_borrow_rate, 200_000_000);
    assert!(p.reserve.configuration.is_active);
    assert!(!p.reserve.configuration.is_frozen);
    assert_eq!(p.reserve.atoken_address, 1);
    assert_eq!(p.reserve.stable_debt_token_address, 2);
}
