//! The cross-reserve solvency check: whether a decrease of one asset's
//! collateral keeps the user's health factor at or above the liquidation
//! threshold, valuing every position through oracle prices handed in as
//! plain values.

use vstd::prelude::*;

use crate::types::{Balance, Error, PERCENT, SCALE};

verus! {

/// One reserve's view of a user, priced by the oracle: the user's real
/// deposit-token balance, outstanding debt, the asset's unit price, and
/// the asset's liquidation threshold in percent.
#[derive(Clone, Copy, Debug, PartialEq, Eq, Structural)]
pub struct AssetPosition {
    pub collateral_balance: Balance,
    pub debt_balance: Balance,
    pub price: u128,
    pub liquidation_threshold: u128,
}

/// The total value of the user's debt, `sum(debt_i * price_i)`, or
/// `None` when a `u128` step would overflow.
pub open spec fn spec_debt_value(s: Seq<AssetPosition>) -> Option<int>
    decreases s.len(),
{
    if s.len() == 0 {
        Some(0)
    } else {
        match spec_debt_value(s.drop_last()) {
            None => None,
            Some(acc) => {
                let p = s.last();
                if p.debt_balance * p.price > u128::MAX {
                    None
                } else if acc + p.debt_balance * p.price > u128::MAX {
                    None
                } else {
                    Some(acc + p.debt_balance * p.price)
                }
            },
        }
    }
}

/// The liquidation-weighted value of the user's collateral after taking
/// `amount` out of the asset at index `asset`:
/// `sum(collateral_i' * price_i * threshold_i / PERCENT)`, or `None`
/// when a `u128` step would overflow.
pub open spec fn spec_collateral_value(s: Seq<AssetPosition>, asset: int, amount: int) -> Option<int>
    decreases s.len(),
{
    if s.len() == 0 {
        Some(0)
    } else {
        match spec_collateral_value(s.drop_last(), asset, amount) {
            None => None,
            Some(acc) => {
                let p = s.last();
                let c = if asset == s.len() - 1 {
                    p.collateral_balance - amount
                } else {
                    p.collateral_balance as int
                };
                if c * p.price > u128::MAX {
                    None
                } else if c * p.price * p.liquidation_threshold > u128::MAX {
                    None
                } else if acc + c * p.price * p.liquidation_threshold / (PERCENT as int)
                    > u128::MAX {
                    None
                } else {
                    Some(acc + c * p.price * p.liquidation_threshold / (PERCENT as int))
                }
            },
        }
    }
}

/// Whether taking `amount` of collateral out of asset `asset` is
/// allowed: always when the user owes nothing, otherwise only when the
/// weighted collateral still covers the debt (health factor at least
/// one); never when the amount exceeds that asset's collateral.
pub open spec fn spec_decrease_allowed(s: Seq<AssetPosition>, asset: int, amount: int) -> Result<
    bool,
    Error,
> {
    if amount > s[asset].collateral_balance {
        Ok(false)
    } else {
        match spec_debt_value(s) {
            None => Err(Error::InsufficientSupply),
            Some(debt) => {
                if debt == 0 {
                    Ok(true)
                } else {
                    match spec_collateral_value(s, asset, amount) {
                        None => Err(Error::InsufficientSupply),
                        Some(cw) => {
                            if cw * SCALE > u128::MAX {
                                Err(Error::InsufficientSupply)
                            } else {
                                Ok(cw * (SCALE as int) / debt >= SCALE)
                            }
                        },
                    }
                }
            },
        }
    }
}

/// A `None` prefix of the debt-value fold never recovers.
proof fn lemma_debt_value_none_extends(s: Seq<AssetPosition>, i: int)
    requires
        0 <= i <= s.len(),
        spec_debt_value(s.take(i)) is None,
    ensures
        spec_debt_value(s) is None,
    decreases s.len() - i,
{
    if i < s.len() {
        assert(s.take(i + 1).drop_last() =~= s.take(i));
        lemma_debt_value_none_extends(s, i + 1);
    } else {
        assert(s.take(i) =~= s);
    }
}

/// A `None` prefix of the collateral-value fold never recovers.
proof fn lemma_collateral_value_none_extends(s: Seq<AssetPosition>, asset: int, amount: int, i: int)
    requires
        0 <= i <= s.len(),
        spec_collateral_value(s.take(i), asset, amount) is None,
    ensures
        spec_collateral_value(s, asset, amount) is None,
    decreases s.len() - i,
{
    if i < s.len() {
        assert(s.take(i + 1).drop_last() =~= s.take(i));
        lemma_collateral_value_none_extends(s, asset, amount, i + 1);
    } else {
        assert(s.take(i) =~= s);
    }
}

/// Decides whether decreasing the collateral of asset `asset` by
/// `amount` keeps the user solvent across all their reserves.
pub fn balance_decrease_allowed(asset: usize, amount: Balance, positions: &Vec<AssetPosition>) -> (r: Result<
    bool,
    Error,
>)
    requires
        asset < positions@.len(),
    ensures
        r == spec_decrease_allowed(positions@, asset as int, amount as int),
{
    if amount > positions[asset].collateral_balance {
        return Ok(false);
    }
    // Total debt value across every reserve.
    let mut debt: u128 = 0;
    let mut i: usize = 0;
    while i < positions.len()
        invariant
            i <= positions@.len(),
            asset < positions@.len(),
            amount <= positions@[asset as int].collateral_balance,
            Some(debt as int) == spec_debt_value(positions@.take(i as int)),
        decreases positions@.len() - i,
    {
        let p = positions[i];
        proof {
            assert(positions@.take(i + 1).drop_last() =~= positions@.take(i as int));
            assert(positions@.take(i + 1).last() == positions@[i as int]);
        }
        let dv = match p.debt_balance.checked_mul(p.price) {
            Some(v) => v,
            None => {
                proof {
                    lemma_debt_value_none_extends(positions@, i + 1);
                }
                return Err(Error::InsufficientSupply);
            },
        };
        debt = match debt.checked_add(dv) {
            Some(v) => v,
            None => {
                proof {
                    lemma_debt_value_none_extends(positions@, i + 1);
                }
                return Err(Error::InsufficientSupply);
            },
        };
        i += 1;
    }
    proof {
        assert(positions@.take(positions@.len() as int) =~= positions@);
    }
    if debt == 0 {
        return Ok(true);
    }
    // Liquidation-weighted collateral value after the decrease.
    let mut cw: u128 = 0;
    let mut j: usize = 0;
    while j < positions.len()
        invariant
            j <= positions@.len(),
            asset < positions@.len(),
            amount <= positions@[asset as int].collateral_balance,
            spec_debt_value(positions@) == Some(debt as int),
            debt != 0,
            Some(cw as int) == spec_collateral_value(positions@.take(j as int), asset as int, amount as int),
        decreases positions@.len() - j,
    {
        let p = positions[j];
        let c = if j == asset {
            p.collateral_balance - amount
        } else {
            p.collateral_balance
        };
        proof {
            assert(positions@.take(j + 1).drop_last() =~= positions@.take(j as int));
            assert(positions@.take(j + 1).last() == positions@[j as int]);
        }
        let cv = match c.checked_mul(p.price) {
            Some(v) => v,
            None => {
                proof {
                    lemma_collateral_value_none_extends(positions@, asset as int, amount as int, j + 1);
                }
                return Err(Error::InsufficientSupply);
            },
        };
        let cvt = match cv.checked_mul(p.liquidation_threshold) {
            Some(v) => v,
            None => {
                proof {
                    lemma_collateral_value_none_extends(positions@, asset as int, amount as int, j + 1);
                }
                return Err(Error::InsufficientSupply);
            },
        };
        cw = match cw.checked_add(cvt / PERCENT) {
            Some(v) => v,
            None => {
                proof {
                    lemma_collateral_value_none_extends(positions@, asset as int, amount as int, j + 1);
                }
                return Err(Error::InsufficientSupply);
            },
        };
        j += 1;
    }
    proof {
        assert(positions@.take(positions@.len() as int) =~= positions@);
    }
    // Health factor: weighted collateral over debt, in SCALE units.
    match cw.checked_mul(SCALE) {
        Some(h) => Ok(h / debt >= SCALE),
        None => Err(Error::InsufficientSupply),
    }
}

} // verus!
