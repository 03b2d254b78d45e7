//! Pure validation predicates gating each pool action against reserve
//! and user state. Each one names the exact error for the exact input,
//! and passes if and only if no rule is broken.

use vstd::prelude::*;

use crate::generic::{balance_decrease_allowed, spec_decrease_allowed, AssetPosition};
use crate::types::{
    Balance, Error, ReserveData, LIQUIDATION_THRESHOLD_PERCENT, PERCENT,
};

verus! {

/// Outcome of deposit validation: the amount must be nonzero and the
/// reserve active and not frozen.
pub open spec fn spec_validate_deposit(reserve: ReserveData, amount: Balance) -> Result<(), Error> {
    if amount == 0 {
        Err(Error::InvalidAmount)
    } else if !reserve.configuration.is_active {
        Err(Error::InactiveReserve)
    } else if reserve.configuration.is_frozen {
        Err(Error::FrozenReserve)
    } else {
        Ok(())
    }
}

/// Validates a deposit: refuses a zero amount, an inactive reserve, and
/// a frozen reserve — frozen reserves accept no new deposits, though
/// they keep accruing and allow withdrawals.
pub fn validate_deposit(reserve: &ReserveData, amount: Balance) -> (r: Result<(), Error>)
    ensures
        r == spec_validate_deposit(*reserve, amount),
{
    if amount == 0 {
        Err(Error::InvalidAmount)
    } else if !reserve.configuration.is_active {
        Err(Error::InactiveReserve)
    } else if reserve.configuration.is_frozen {
        Err(Error::FrozenReserve)
    } else {
        Ok(())
    }
}

/// Outcome of withdraw validation: a nonzero amount within the user's
/// balance, an active reserve, and a decrease the user's cross-reserve
/// health factor survives.
pub open spec fn spec_validate_withdraw(
    reserve: ReserveData,
    amount: Balance,
    user_balance: Balance,
    positions: Seq<AssetPosition>,
    asset: int,
) -> Result<(), Error> {
    if amount == 0 {
        Err(Error::InvalidAmount)
    } else if amount > user_balance {
        Err(Error::InsufficientBalance)
    } else if !reserve.configuration.is_active {
        Err(Error::InactiveReserve)
    } else {
        match spec_decrease_allowed(positions, asset, amount as int) {
            Err(e) => Err(e),
            Ok(false) => Err(Error::TransferNotAllowed),
            Ok(true) => Ok(()),
        }
    }
}

/// Validates a withdrawal of `amount` against the user's `user_balance`
/// in the target reserve and against the user's positions across all
/// reserves, priced by the oracle; `asset` is the index of the target
/// reserve among those positions.
pub fn validate_withdraw(
    reserve: &ReserveData,
    amount: Balance,
    user_balance: Balance,
    positions: &Vec<AssetPosition>,
    asset: usize,
) -> (r: Result<(), Error>)
    requires
        asset < positions@.len(),
    ensures
        r == spec_validate_withdraw(*reserve, amount, user_balance, positions@, asset as int),
{
    if amount == 0 {
        return Err(Error::InvalidAmount);
    }
    if amount > user_balance {
        return Err(Error::InsufficientBalance);
    }
    if !reserve.configuration.is_active {
        return Err(Error::InactiveReserve);
    }
    match balance_decrease_allowed(asset, amount, positions) {
        Err(e) => Err(e),
        Ok(false) => Err(Error::TransferNotAllowed),
        Ok(true) => Ok(()),
    }
}

/// Outcome of borrow validation: a nonzero amount from an active,
/// unfrozen reserve, within the pool's liquidity, within the borrower's
/// collateral-adjusted borrowing power, and within the configured share
/// of liquidity a stable-rate loan may take.
pub open spec fn spec_validate_borrow(
    reserve: ReserveData,
    amount: Balance,
    available_liquidity: Balance,
    user_collateral_balance: Balance,
    user_debt_balance: Balance,
    max_stable_loan_percent: u128,
) -> Result<(), Error> {
    if amount == 0 {
        Err(Error::InvalidAmount)
    } else if !reserve.configuration.is_active {
        Err(Error::InactiveReserve)
    } else if reserve.configuration.is_frozen {
        Err(Error::FrozenReserve)
    } else if amount > available_liquidity {
        Err(Error::NotEnoughLiquidity)
    } else if user_collateral_balance * LIQUIDATION_THRESHOLD_PERCENT > u128::MAX {
        Err(Error::InsufficientSupply)
    } else if user_debt_balance + amount > u128::MAX {
        Err(Error::InsufficientSupply)
    } else if user_debt_balance + amount > user_collateral_balance
        * (LIQUIDATION_THRESHOLD_PERCENT as int) / (PERCENT as int) {
        Err(Error::TransferNotAllowed)
    } else if available_liquidity * max_stable_loan_percent > u128::MAX {
        Err(Error::InsufficientSupply)
    } else if amount > available_liquidity * max_stable_loan_percent / (PERCENT as int) {
        Err(Error::NotEnoughLiquidity)
    } else {
        Ok(())
    }
}

/// Validates a borrow of `amount`: the reserve must be active and not
/// frozen, the pool must hold the amount, the borrower's debt after the
/// borrow must stay within the liquidation-threshold share of their
/// collateral, and a stable loan may not take more than
/// `max_stable_loan_percent` percent of the available liquidity.
pub fn validate_borrow(
    reserve: &ReserveData,
    amount: Balance,
    available_liquidity: Balance,
    user_collateral_balance: Balance,
    user_debt_balance: Balance,
    max_stable_loan_percent: u128,
) -> (r: Result<(), Error>)
    ensures
        r == spec_validate_borrow(
            *reserve,
            amount,
            available_liquidity,
            user_collateral_balance,
            user_debt_balance,
            max_stable_loan_percent,
        ),
{
    if amount == 0 {
        return Err(Error::InvalidAmount);
    }
    if !reserve.configuration.is_active {
        return Err(Error::InactiveReserve);
    }
    if reserve.configuration.is_frozen {
        return Err(Error::FrozenReserve);
    }
    if amount > available_liquidity {
        return Err(Error::NotEnoughLiquidity);
    }
    let power = match user_collateral_balance.checked_mul(LIQUIDATION_THRESHOLD_PERCENT) {
        Some(v) => v / PERCENT,
        None => {
            return Err(Error::InsufficientSupply);
        },
    };
    let debt_after = match user_debt_balance.checked_add(amount) {
        Some(v) => v,
        None => {
            return Err(Error::InsufficientSupply);
        },
    };
    if debt_after > power {
        return Err(Error::TransferNotAllowed);
    }
    let cap = match available_liquidity.checked_mul(max_stable_loan_percent) {
        Some(v) => v / PERCENT,
        None => {
            return Err(Error::InsufficientSupply);
        },
    };
    if amount > cap {
        return Err(Error::NotEnoughLiquidity);
    }
    Ok(())
}

/// Outcome of repay validation: a nonzero amount no larger than the
/// borrower's outstanding stable debt.
pub open spec fn spec_validate_repay(amount_sent: Balance, stable_debt: Balance) -> Result<(), Error> {
    if amount_sent == 0 {
        Err(Error::InvalidAmount)
    } else if amount_sent > stable_debt {
        Err(Error::InsufficientBalance)
    } else {
        Ok(())
    }
}

/// Validates a repayment of `amount_sent` against the borrower's
/// outstanding `stable_debt` of the matching rate mode.
pub fn validate_repay(amount_sent: Balance, stable_debt: Balance) -> (r: Result<(), Error>)
    ensures
        r == spec_validate_repay(amount_sent, stable_debt),
{
    if amount_sent == 0 {
        Err(Error::InvalidAmount)
    } else if amount_sent > stable_debt {
        Err(Error::InsufficientBalance)
    } else {
        Ok(())
    }
}

} // verus!
