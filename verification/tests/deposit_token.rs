//! The scaled-balance deposit token: index scaling, conservation of the
//! scaled total, and transfer between holders.

use lendingpool::atoken::AToken;
use lendingpool::types::{Error, SCALE};

#[test]
fn mint_at_index_one_stores_the_amount() {
    let mut t = AToken::new(5, 6);
    assert_eq!(t.mint(1, 100, SCALE), Ok(true));
    let (scaled, total) = t.getscaledbalanceandsupply(1);
    assert_eq!(scaled, 100);
    assert_eq!(total, 100);
    assert_eq!(t.balanceof(1, SCALE), Ok(100));
}

#[test]
fn real_balance_follows_the_index() {
    // 100 scaled at an index of 1.05 reads as 105, with the stored
    // scaled balance unchanged.
    let mut t = AToken::new(5, 6);
    t.mint(1, 100, SCALE).unwrap();
    let index = 1_050_000_000;
    assert_eq!(t.balanceof(1, index), Ok(105));
    assert_eq!(t.getscaledbalanceandsupply(1).0, 100);
    assert_eq!(t.totalsupply(index), Ok(105));
    assert_eq!(t.scaledtotalsuplly(), 100);
}

#[test]
fn mint_at_a_higher_index_scales_down() {
    // Depositing 105 while the index is 1.05 credits 100 scaled.
    let mut t = AToken::new(5, 6);
    assert_eq!(t.mint(1, 105, 1_050_000_000), Ok(true));
    assert_eq!(t.getscaledbalanceandsupply(1).0, 100);
}

#[test]
fn second_mint_reports_prior_balance() {
    let mut t = AToken::new(5, 6);
    assert_eq!(t.mint(1, 100, SCALE), Ok(true));
    assert_eq!(t.mint(1, 50, SCALE), Ok(false));
    assert_eq!(t.getscaledbalanceandsupply(1).0, 150);
}

#[test]
fn burn_removes_the_scaled_equivalent() {
    let mut t = AToken::new(5, 6);
    t.mint(1, 100, SCALE).unwrap();
    assert_eq!(t.burn(1, 105, 1_050_000_000), Ok(()));
    assert_eq!(t.getscaledbalanceandsupply(1).0, 0);
    assert_eq!(t.scaledtotalsuplly(), 0);
}

#[test]
fn burn_more_than_stored_is_refused() {
    let mut t = AToken::new(5, 6);
    t.mint(1, 100, SCALE).unwrap();
    assert_eq!(t.burn(1, 101, SCALE), Err(Error::InsufficientBalance));
    assert_eq!(t.burn(2, 1, SCALE), Err(Error::InsufficientBalance));
    assert_eq!(t.getscaledbalanceandsupply(1).0, 100);
}

#[test]
fn amounts_that_scale_to_zero_are_refused() {
    let mut t = AToken::new(5, 6);
    // 1 at an index of 2.0 scales to 0: rejected, not silently dropped.
    assert_eq!(t.mint(1, 1, 2_000_000_000), Err(Error::InvalidAmount));
    assert_eq!(t.mint(1, 0, SCALE), Err(Error::InvalidAmount));
}

#[test]
fn mint_overflowing_the_scaled_total_is_refused() {
    let mut t = AToken::new(5, 6);
    assert_eq!(t.mint(1, u128::MAX, SCALE), Err(Error::InsufficientSupply));
}

#[test]
fn transfer_on_liquidation_moves_scaled_balance() {
    let mut t = AToken::new(5, 6);
    t.mint(1, 100, SCALE).unwrap();
    assert_eq!(t.transferonliquidation(1, 2, 40, SCALE), Ok(()));
    assert_eq!(t.getscaledbalanceandsupply(1).0, 60);
    assert_eq!(t.getscaledbalanceandsupply(2).0, 40);
    assert_eq!(t.scaledtotalsuplly(), 100);
    assert_eq!(
        t.transferonliquidation(1, 2, 61, SCALE),
        Err(Error::InsufficientBalance)
    );
}

#[test]
fn treasury_mint_credits_the_reserve_account() {
    let mut t = AToken::new(5, 6);
    assert_eq!(t.minttotreasury(0, SCALE), Ok(()));
    assert_eq!(t.scaledtotalsuplly(), 0);
    assert_eq!(t.minttotreasury(30, SCALE), Ok(()));
    assert_eq!(t.getscaledbalanceandsupply(6).0, 30);
}
