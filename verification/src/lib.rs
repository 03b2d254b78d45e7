//! A lending-pool accounting core: interest-bearing deposit balances,
//! stable-rate debt positions, reserve index/rate bookkeeping, and the
//! validation and orchestration rules for deposit, withdraw, borrow and
//! repay.
//!
//! Every balance is a function of a stored principal and an accruing rate
//! or index; the contracts here pin down exactly how each action reconciles
//! principal, accrued interest and the pool-wide aggregates.

pub mod atoken;
pub mod generic;
pub mod math;
pub mod pool;
pub mod reserve;
pub mod stabledebttoken;
pub mod types;
pub mod validation;
