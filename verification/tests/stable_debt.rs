//! The stable-debt ledger: weighted-average rates, lazy accrual,
//! conservation of principal, and the zero-position reset.

use lendingpool::stabledebttoken::Stabledebttoken;
use lendingpool::types::Error;

const RATE_10_PCT: u128 = 100_000_000;
const RATE_20_PCT: u128 = 200_000_000;

#[test]
fn avg_rate_is_the_weighted_average_of_two_borrows() {
    // User A borrows 100 at 10%, user B borrows 50 at 20%: the pool
    // average must be (100*10 + 50*20) / 150 percent.
    let mut t = Stabledebttoken::new(7);
    assert_eq!(t.mint(1, 1, 100, RATE_10_PCT, 0), Ok(true));
    assert_eq!(t.getavgstablerate(), RATE_10_PCT);
    assert_eq!(t.mint(2, 2, 50, RATE_20_PCT, 0), Ok(true));
    assert_eq!(t.getavgstablerate(), 133_333_333);
    assert_eq!(t.getuserstalerate(1), RATE_10_PCT);
    assert_eq!(t.getuserstalerate(2), RATE_20_PCT);
    assert_eq!(t.total_supply, 150);
    assert_eq!(t.principalbalanceof(1), 100);
    assert_eq!(t.principalbalanceof(2), 50);
}

#[test]
fn first_mint_locks_the_offered_rate() {
    let mut t = Stabledebttoken::new(7);
    assert_eq!(t.mint(1, 1, 500, RATE_20_PCT, 3), Ok(true));
    assert_eq!(t.getuserstalerate(1), RATE_20_PCT);
    assert_eq!(t.getavgstablerate(), RATE_20_PCT);
    assert_eq!(t.getuserlastupdated(1), 3);
    assert_eq!(t.gettotalsupplylastupdated(), 3);
}

#[test]
fn second_mint_reports_not_first() {
    let mut t = Stabledebttoken::new(7);
    assert_eq!(t.mint(1, 1, 100, RATE_10_PCT, 0), Ok(true));
    assert_eq!(t.mint(1, 1, 100, RATE_10_PCT, 0), Ok(false));
    assert_eq!(t.principalbalanceof(1), 200);
}

#[test]
fn balance_accrues_linear_interest() {
    // At a rate of 0.1 per second, 100 owed becomes 200 after 10 s.
    let mut t = Stabledebttoken::new(7);
    assert_eq!(t.mint(1, 1, 100, RATE_10_PCT, 0), Ok(true));
    assert_eq!(t.balanceof(1, 0), Ok(100));
    assert_eq!(t.balanceof(1, 10), Ok(200));
}

#[test]
fn mint_folds_accrued_interest_into_principal() {
    let mut t = Stabledebttoken::new(7);
    assert_eq!(t.mint(1, 1, 100, RATE_10_PCT, 0), Ok(true));
    // 10 s later the balance is 200; minting 50 more books 100 + 50.
    assert_eq!(t.mint(1, 1, 50, RATE_10_PCT, 10), Ok(false));
    assert_eq!(t.principalbalanceof(1), 250);
    assert_eq!(t.total_supply, 250);
    assert_eq!(t.getuserlastupdated(1), 10);
}

#[test]
fn full_burn_resets_user_rate_and_pool_average() {
    // Burning the entire (only) position collapses everything to zero.
    let mut t = Stabledebttoken::new(7);
    assert_eq!(t.mint(1, 1, 100, RATE_10_PCT, 0), Ok(true));
    assert_eq!(t.burn(1, 100, 0), Ok(()));
    assert_eq!(t.principalbalanceof(1), 0);
    assert_eq!(t.getuserstalerate(1), 0);
    assert_eq!(t.getuserlastupdated(1), 0);
    assert_eq!(t.getavgstablerate(), 0);
    assert_eq!(t.total_supply, 0);
}

#[test]
fn full_burn_after_accrual_resets_everything() {
    let mut t = Stabledebttoken::new(7);
    assert_eq!(t.mint(1, 1, 100, RATE_10_PCT, 0), Ok(true));
    // Balance is 200 at t=10; repaying all of it closes the position.
    assert_eq!(t.burn(1, 200, 10), Ok(()));
    assert_eq!(t.principalbalanceof(1), 0);
    assert_eq!(t.getuserstalerate(1), 0);
    assert_eq!(t.getavgstablerate(), 0);
    assert_eq!(t.total_supply, 0);
}

#[test]
fn partial_burn_keeps_rate_and_reweights_average() {
    let mut t = Stabledebttoken::new(7);
    assert_eq!(t.mint(1, 1, 100, RATE_10_PCT, 0), Ok(true));
    assert_eq!(t.burn(1, 40, 0), Ok(()));
    assert_eq!(t.principalbalanceof(1), 60);
    assert_eq!(t.total_supply, 60);
    assert_eq!(t.getuserstalerate(1), RATE_10_PCT);
    // (10% * 100 - 10% * 40) / 60 is still 10%.
    assert_eq!(t.getavgstablerate(), RATE_10_PCT);
}

#[test]
fn conservation_total_supply_equals_sum_of_principals() {
    // After an arbitrary mix of mints and burns the principal total is
    // exactly the sum of the stored principals.
    let mut t = Stabledebttoken::new(7);
    t.mint(1, 1, 100, RATE_10_PCT, 0).unwrap();
    t.mint(2, 2, 50, RATE_20_PCT, 0).unwrap();
    t.burn(1, 30, 0).unwrap();
    t.mint(3, 3, 7, RATE_10_PCT, 0).unwrap();
    t.burn(2, 50, 0).unwrap();
    let sum = t.principalbalanceof(1) + t.principalbalanceof(2) + t.principalbalanceof(3);
    assert_eq!(t.total_supply, sum);
    assert_eq!(t.total_supply, 77);
}

#[test]
fn burn_more_than_balance_is_refused() {
    let mut t = Stabledebttoken::new(7);
    t.mint(1, 1, 100, RATE_10_PCT, 0).unwrap();
    assert_eq!(t.burn(1, 101, 0), Err(Error::InsufficientBalance));
    assert_eq!(t.principalbalanceof(1), 100);
}

#[test]
fn zero_amounts_are_refused() {
    let mut t = Stabledebttoken::new(7);
    assert_eq!(t.mint(1, 1, 0, RATE_10_PCT, 0), Err(Error::InvalidAmount));
    assert_eq!(t.burn(1, 0, 0), Err(Error::InvalidAmount));
}

#[test]
fn mint_overflow_is_refused() {
    let mut t = Stabledebttoken::new(7);
    t.mint(1, 1, u128::MAX - 5, 0, 0).unwrap();
    assert_eq!(t.mint(2, 2, 10, 0, 0), Err(Error::InsufficientSupply));
    assert_eq!(t.total_supply, u128::MAX - 5);
}

#[test]
fn delegated_mint_consumes_allowance() {
    let mut t = Stabledebttoken::new(7);
    // Account 1 delegates 50 to account 2; a borrow of 30 on behalf of
    // account 1 leaves 20.
    t.approvedelegation(1, 2, 50);
    assert_eq!(t.borrowallowance(1, 2), 50);
    assert_eq!(t.mint(2, 1, 30, RATE_10_PCT, 0), Ok(true));
    assert_eq!(t.borrowallowance(1, 2), 20);
    assert_eq!(t.principalbalanceof(1), 30);
    assert_eq!(t.principalbalanceof(2), 0);
}

#[test]
fn delegated_mint_without_allowance_is_refused() {
    let mut t = Stabledebttoken::new(7);
    t.approvedelegation(1, 2, 10);
    assert_eq!(t.mint(2, 1, 30, RATE_10_PCT, 0), Err(Error::InsufficientAllowance));
    assert_eq!(t.borrowallowance(1, 2), 10);
    assert_eq!(t.principalbalanceof(1), 0);
}

#[test]
fn decreaseborrowallowance_checks_and_subtracts() {
    let mut t = Stabledebttoken::new(7);
    t.approvedelegation(1, 2, 50);
    assert_eq!(t.decreaseborrowallowance(1, 2, 20), Ok(()));
    assert_eq!(t.borrowallowance(1, 2), 30);
    assert_eq!(t.decreaseborrowallowance(1, 2, 31), Err(Error::InsufficientAllowance));
    assert_eq!(t.borrowallowance(1, 2), 30);
}

#[test]
fn balance_overflow_is_reported_not_wrapped() {
    let mut t = Stabledebttoken::new(7);
    t.mint(1, 1, u128::MAX / 4, 4, 0).unwrap();
    // principal * rate * dt no longer fits in the accrual step.
    assert_eq!(t.balanceof(1, u64::MAX), Err(Error::InsufficientSupply));
}

#[test]
fn avg_rate_stays_between_the_minted_rates() {
    // The weighted-rate bound on a run of mints: the pool average never
    // leaves the interval spanned by the personal rates.
    let mut t = Stabledebttoken::new(7);
    t.mint(1, 1, 100, RATE_10_PCT, 0).unwrap();
    t.mint(2, 2, 50, RATE_20_PCT, 0).unwrap();
    t.mint(3, 3, 77, 150_000_000, 0).unwrap();
    let avg = t.getavgstablerate();
    assert!(avg >= RATE_10_PCT && avg <= RATE_20_PCT);
}

#[test]
fn supply_data_reports_principal_accrued_rate_and_stamp() {
    let mut t = Stabledebttoken::new(7);
    t.mint(1, 1, 100, RATE_10_PCT, 0).unwrap();
    t.mint(2, 2, 50, RATE_20_PCT, 0).unwrap();
    let (principal, with_interest, avg, stamp) = t.getsupplydata(0).unwrap();
    assert_eq!(principal, 150);
    assert_eq!(with_interest, 150);
    assert_eq!(avg, 133_333_333);
    assert_eq!(stamp, 0);
    // 10 s later the accrued supply has grown at the average rate:
    // 150 + 150 * 0.133333333 * 10 = 349 (rounded down).
    let (total, avg2) = t.gettotalsupplyandavgrate(10).unwrap();
    assert_eq!(avg2, 133_333_333);
    assert_eq!(total, 150 + (150u128 * 133_333_333 * 10) / 1_000_000_000);
}
