//! Shared value types of the accounting core: identifiers, amounts,
//! fixed-point constants, the error taxonomy and the per-reserve and
//! per-user records.

use vstd::prelude::*;

verus! {

/// An account identifier. The surrounding environment hands these out;
/// the accounting core only compares them for equality.
pub type AccountId = u128;

/// An amount of the underlying asset, or of a token that tracks it.
pub type Balance = u128;

/// Seconds since an environment-defined origin.
pub type Timestamp = u64;

/// Fixed-point unit for interest rates and reserve indices: a value of
/// `SCALE` means 1.0 (nine decimal places). Rates are per second in this
/// unit; indices start at `SCALE` and only grow.
pub const SCALE: u128 = 1_000_000_000;

/// Unit for percentage parameters such as the liquidation threshold.
pub const PERCENT: u128 = 100;

/// Share of a user's deposit-token balance, in percent, that counts as
/// borrowing power when a borrow or a collateral decrease is validated.
pub const LIQUIDATION_THRESHOLD_PERCENT: u128 = 75;

/// Largest share of the pool's available liquidity, in percent, that a
/// single stable-rate borrow may take.
pub const MAX_STABLE_LOAN_PERCENT: u128 = 25;

/// Every way an action can be refused. All errors are detected before any
/// state is mutated: a failed action has no side effects.
#[derive(Clone, Copy, Debug, PartialEq, Eq, Structural)]
pub enum Error {
    /// A zero or out-of-range amount.
    InvalidAmount,
    /// The target reserve is not active.
    InactiveReserve,
    /// The target reserve is frozen and accepts no new deposits or borrows.
    FrozenReserve,
    /// A balance is too small for the requested burn, withdrawal or repayment.
    InsufficientBalance,
    /// A credit-delegation allowance is too small for the requested borrow.
    InsufficientAllowance,
    /// An arithmetic step would overflow the supply or an intermediate value.
    InsufficientSupply,
    /// The decrease would push the user's health factor below the threshold.
    TransferNotAllowed,
    /// The pool does not hold enough liquidity for the requested borrow.
    NotEnoughLiquidity,
}

/// The configuration flags of a reserve. A frozen reserve accepts no new
/// deposits or borrows but still accrues interest and allows withdrawals
/// and repayments.
#[derive(Clone, Copy, Debug, PartialEq, Eq, Structural)]
pub struct ReserveConfigurationMap {
    pub is_active: bool,
    pub is_frozen: bool,
}

/// Per-reserve aggregate state: the two monotone interest indices, the
/// three current rates, the accrual timestamp, and opaque references to
/// the collaborating token contracts.
#[derive(Clone, Copy, Debug, PartialEq, Eq, Structural)]
pub struct ReserveData {
    pub configuration: ReserveConfigurationMap,
    /// Cumulative interest earned by depositors, in `SCALE` units; starts
    /// at `SCALE` and never decreases.
    pub liquidity_index: u128,
    /// Cumulative interest owed by variable-rate borrowers, in `SCALE`
    /// units; starts at `SCALE` and never decreases.
    pub variable_borrow_index: u128,
    /// Current deposit rate per second, in `SCALE` units.
    pub current_liquidity_rate: u128,
    /// Current variable borrow rate per second, in `SCALE` units.
    pub current_variable_borrow_rate: u128,
    /// Current stable borrow rate per second, in `SCALE` units.
    pub current_stable_borrow_rate: u128,
    /// When the indices were last advanced.
    pub last_update_timestamp: Timestamp,
    pub atoken_address: AccountId,
    pub stable_debt_token_address: AccountId,
    pub variable_debt_token_address: AccountId,
    pub interest_rate_strategy_address: AccountId,
    /// Position of the reserve in the list of active reserves.
    pub id: u8,
}

/// Per-(user, reserve) record. Created lazily on first touch and never
/// deleted: a zero balance is a valid terminal state.
#[derive(Clone, Copy, Debug, PartialEq, Eq, Structural)]
pub struct UserReserveData {
    /// Running total of deposit interest observed at the user's touches;
    /// informational, not part of any balance.
    pub cumulated_liquidity_interest: Balance,
    /// Running total of stable borrow interest observed at the user's
    /// touches; informational, not part of any balance.
    pub cumulated_stable_borrow_interest: Balance,
    /// When this record was last touched.
    pub last_update_timestamp: Timestamp,
    /// Whether the user's deposit balance backs their borrows. Set when a
    /// deposit starts from zero, cleared when a withdrawal empties the
    /// balance.
    pub use_as_collateral: bool,
}

/// Parameters of the rate strategy that recomputes the three reserve
/// rates from utilization after every liquidity-affecting action. Each
/// rate is `base + slope * utilization / SCALE`, with utilization in
/// `SCALE` units.
#[derive(Clone, Copy, Debug, PartialEq, Eq, Structural)]
pub struct InterestRateStrategy {
    pub base_stable_rate: u128,
    pub stable_rate_slope: u128,
    pub base_variable_rate: u128,
    pub variable_rate_slope: u128,
}

} // verus!
