//! The pool orchestrator: one reserve, its user records, and the two
//! token ledgers, driven by the four actions deposit, withdraw, borrow
//! and repay. Each action validates, accrues the reserve state,
//! recomputes rates from post-action utilization, mutates the ledgers,
//! and returns the event record for the caller to emit — in that order,
//! and atomically: a refused action changes nothing.
//!
//! The surrounding environment supplies what only it knows: the caller,
//! the current timestamp, and the pool's underlying holdings; it also
//! performs the actual transfers of underlying value that the returned
//! events describe.

use vstd::prelude::*;

use crate::atoken::AToken;
use crate::generic::AssetPosition;
use crate::math::{linear_interest, spec_linear_interest, spec_mul_div};
use crate::reserve::{
    spec_rates_outcome, spec_update_state, spec_update_state_overflows, update_interest_rates,
    update_state,
};
use crate::stabledebttoken::Stabledebttoken;
use crate::types::{
    AccountId, Balance, Error, InterestRateStrategy, ReserveConfigurationMap, ReserveData,
    Timestamp, UserReserveData, LIQUIDATION_THRESHOLD_PERCENT, MAX_STABLE_LOAN_PERCENT, SCALE,
};
use crate::validation::{
    spec_validate_borrow, spec_validate_deposit, spec_validate_repay, spec_validate_withdraw,
    validate_borrow, validate_deposit, validate_repay, validate_withdraw,
};

verus! {

/// Emitted on a successful deposit.
#[derive(Clone, Copy, Debug, PartialEq, Eq, Structural)]
pub struct Deposit {
    pub user: AccountId,
    pub on_behalf_of: AccountId,
    pub amount: Balance,
}

/// Emitted on a successful withdrawal.
#[derive(Clone, Copy, Debug, PartialEq, Eq, Structural)]
pub struct Withdraw {
    pub user: AccountId,
    pub to: AccountId,
    pub amount: Balance,
}

/// Emitted on a successful borrow.
#[derive(Clone, Copy, Debug, PartialEq, Eq, Structural)]
pub struct Borrow {
    pub user: AccountId,
    pub on_behalf_of: AccountId,
    pub amount: Balance,
    pub borrow_rate: u128,
}

/// Emitted on a successful repayment.
#[derive(Clone, Copy, Debug, PartialEq, Eq, Structural)]
pub struct Repay {
    pub receiver: AccountId,
    pub repayer: AccountId,
    pub amount: Balance,
}

/// One user's per-reserve record, keyed by account.
#[derive(Clone, Copy, Debug, PartialEq, Eq, Structural)]
pub struct UserEntry {
    pub account: AccountId,
    pub data: UserReserveData,
}

/// Whether some record belongs to `a`.
pub open spec fn has_user(s: Seq<UserEntry>, a: AccountId) -> bool {
    exists|i: int| 0 <= i < s.len() && (#[trigger] s[i]).account == a
}

/// The index of `a`'s record (unique when accounts are distinct).
pub open spec fn user_index(s: Seq<UserEntry>, a: AccountId) -> int {
    choose|i: int| 0 <= i < s.len() && (#[trigger] s[i]).account == a
}

/// `a`'s record, or the lazily-created default when `a` has none.
pub open spec fn user_of(s: Seq<UserEntry>, a: AccountId) -> UserReserveData {
    if has_user(s, a) {
        s[user_index(s, a)].data
    } else {
        UserReserveData {
            cumulated_liquidity_interest: 0,
            cumulated_stable_borrow_interest: 0,
            last_update_timestamp: 0,
            use_as_collateral: false,
        }
    }
}

/// No two records share an account.
pub open spec fn distinct_users(s: Seq<UserEntry>) -> bool {
    forall|i: int, j: int|
        0 <= i < j < s.len() ==> (#[trigger] s[i]).account != (#[trigger] s[j]).account
}

/// With distinct accounts, the record at any index holding `a` is the
/// one `user_of` reads.
pub proof fn lemma_user_at(s: Seq<UserEntry>, a: AccountId, i: int)
    requires
        distinct_users(s),
        0 <= i < s.len(),
        s[i].account == a,
    ensures
        has_user(s, a),
        user_index(s, a) == i,
        user_of(s, a) == s[i].data,
{
    assert(has_user(s, a));
    let j = user_index(s, a);
    if i < j {
        assert(s[i].account != s[j].account);
    } else if j < i {
        assert(s[j].account != s[i].account);
    }
}

/// Updating the record at `i` in place changes only that account.
pub proof fn lemma_update_user(s: Seq<UserEntry>, i: int, e: UserEntry)
    requires
        distinct_users(s),
        0 <= i < s.len(),
        s[i].account == e.account,
    ensures
        distinct_users(s.update(i, e)),
        user_of(s.update(i, e), e.account) == e.data,
        forall|b: AccountId| b != e.account ==> #[trigger] user_of(s.update(i, e), b) == user_of(s, b),
{
    let t = s.update(i, e);
    assert forall|p: int, q: int| 0 <= p < q < t.len() implies (#[trigger] t[p]).account != (
    #[trigger] t[q]).account by {
        assert(s[p].account != s[q].account);
    }
    lemma_user_at(t, e.account, i);
    assert forall|b: AccountId| b != e.account implies #[trigger] user_of(t, b) == user_of(s, b) by {
        if has_user(s, b) {
            let j = user_index(s, b);
            assert(s[j].account == b);
            assert(j != i);
            lemma_user_at(t, b, j);
            lemma_user_at(s, b, j);
        } else {
            assert forall|k: int| 0 <= k < t.len() implies (#[trigger] t[k]).account != b by {
                if k != i {
                    assert(s[k].account != b);
                }
            }
            assert(!has_user(t, b));
        }
    }
}

/// Appending a record for a new account changes only that account.
pub proof fn lemma_push_user(s: Seq<UserEntry>, e: UserEntry)
    requires
        distinct_users(s),
        !has_user(s, e.account),
    ensures
        distinct_users(s.push(e)),
        user_of(s.push(e), e.account) == e.data,
        forall|b: AccountId| b != e.account ==> #[trigger] user_of(s.push(e), b) == user_of(s, b),
{
    let t = s.push(e);
    assert forall|p: int, q: int| 0 <= p < q < t.len() implies (#[trigger] t[p]).account != (
    #[trigger] t[q]).account by {
        if q < s.len() {
            assert(s[p].account != s[q].account);
        } else {
            assert(t[q] == e);
            assert(s[p].account != e.account);
        }
    }
    lemma_user_at(t, e.account, s.len() as int);
    assert forall|b: AccountId| b != e.account implies #[trigger] user_of(t, b) == user_of(s, b) by {
        if has_user(s, b) {
            let j = user_index(s, b);
            assert(t[j].account == b);
            lemma_user_at(t, b, j);
            lemma_user_at(s, b, j);
        } else {
            assert forall|k: int| 0 <= k < t.len() implies (#[trigger] t[k]).account != b by {
                if k < s.len() {
                    assert(s[k].account != b);
                }
            }
            assert(!has_user(t, b));
        }
    }
}

/// The account that receives the effect of an action: the explicit
/// beneficiary when one is given, else the caller.
pub open spec fn spec_receiver(beneficiary: Option<AccountId>, sender: AccountId) -> AccountId {
    match beneficiary {
        Some(b) => b,
        None => sender,
    }
}

/// The lending pool for one reserve.
pub struct Lendingpool {
    pub reserve: ReserveData,
    /// The rate strategy the reserve's rates are recomputed with.
    pub strategy: InterestRateStrategy,
    pub users_data: Vec<UserEntry>,
    /// The interest-bearing deposit-token ledger.
    pub stoken: AToken,
    /// The stable-debt ledger.
    pub debt_token: Stabledebttoken,
}

impl Lendingpool {
    /// Internal consistency: both ledgers are well-formed, user records
    /// are unique, the indices never fell under one, and no component's
    /// clock is ahead of the reserve's.
    pub open spec fn wf(self) -> bool {
        &&& distinct_users(self.users_data@)
        &&& self.stoken.wf()
        &&& self.debt_token.wf()
        &&& self.reserve.liquidity_index >= SCALE
        &&& self.reserve.variable_borrow_index >= SCALE
        &&& self.debt_token.totalsupplytimestamp <= self.reserve.last_update_timestamp
        &&& (forall|i: int|
            0 <= i < self.users_data@.len()
                ==> (#[trigger] self.users_data@[i]).data.last_update_timestamp
                <= self.reserve.last_update_timestamp)
    }

    /// A fresh pool over one reserve, linked to the given token
    /// addresses, with both indices at one and rates at the strategy's
    /// zero-utilization values.
    pub fn new(stoken: AccountId, debt_token: AccountId, strategy: InterestRateStrategy) -> (r: Lendingpool)
        ensures
            r.wf(),
            r.reserve.configuration.is_active,
            !r.reserve.configuration.is_frozen,
            r.reserve.liquidity_index == SCALE,
            r.reserve.variable_borrow_index == SCALE,
            r.reserve.current_liquidity_rate == 0,
            r.reserve.current_variable_borrow_rate == strategy.base_variable_rate,
            r.reserve.current_stable_borrow_rate == strategy.base_stable_rate,
            r.reserve.last_update_timestamp == 0,
            r.reserve.atoken_address == stoken,
            r.reserve.stable_debt_token_address == debt_token,
            r.strategy == strategy,
            r.users_data@.len() == 0,
            r.stoken.total_supply == 0,
            r.stoken.entries@.len() == 0,
            r.debt_token.total_supply == 0,
            r.debt_token.positions@.len() == 0,
            r.debt_token.avgstablerate == 0,
            forall|a: AccountId| #[trigger] r.stoken.spec_balance_of(a) == 0,
            forall|a: AccountId| #[trigger] r.debt_token.spec_principal_of(a) == 0,
    {
        let pool = Lendingpool {
            reserve: ReserveData {
                configuration: ReserveConfigurationMap { is_active: true, is_frozen: false },
                liquidity_index: SCALE,
                variable_borrow_index: SCALE,
                current_liquidity_rate: 0,
                current_variable_borrow_rate: strategy.base_variable_rate,
                current_stable_borrow_rate: strategy.base_stable_rate,
                last_update_timestamp: 0,
                atoken_address: stoken,
                stable_debt_token_address: debt_token,
                variable_debt_token_address: 0,
                interest_rate_strategy_address: 0,
                id: 0,
            },
            strategy,
            users_data: Vec::new(),
            stoken: AToken::new(stoken, stoken),
            debt_token: Stabledebttoken::new(stoken),
        };
        pool
    }

    /// The record of `a`, or its lazily-created default.
    fn user_record(&self, a: AccountId) -> (r: UserReserveData)
        requires
            distinct_users(self.users_data@),
        ensures
            r == user_of(self.users_data@, a),
    {
        let mut i: usize = 0;
        while i < self.users_data.len()
            invariant
                i <= self.users_data@.len(),
                forall|j: int| 0 <= j < i ==> (#[trigger] self.users_data@[j]).account != a,
                distinct_users(self.users_data@),
            decreases self.users_data@.len() - i,
        {
            if self.users_data[i].account == a {
                proof {
                    lemma_user_at(self.users_data@, a, i as int);
                }
                return self.users_data[i].data;
            }
            i += 1;
        }
        proof {
            assert(!has_user(self.users_data@, a));
        }
        UserReserveData {
            cumulated_liquidity_interest: 0,
            cumulated_stable_borrow_interest: 0,
            last_update_timestamp: 0,
            use_as_collateral: false,
        }
    }

    /// Stores `data` as `a`'s record, creating it if needed.
    fn set_user_record(&mut self, a: AccountId, data: UserReserveData)
        requires
            distinct_users(old(self).users_data@),
        ensures
            distinct_users(final(self).users_data@),
            user_of(final(self).users_data@, a) == data,
            forall|b: AccountId|
                b != a ==> #[trigger] user_of(final(self).users_data@, b) == user_of(
                    old(self).users_data@,
                    b,
                ),
            has_user(old(self).users_data@, a) ==> final(self).users_data@ == old(
                self,
            ).users_data@.update(
                user_index(old(self).users_data@, a),
                (UserEntry { account: a, data }),
            ),
            !has_user(old(self).users_data@, a) ==> final(self).users_data@ == old(
                self,
            ).users_data@.push((UserEntry { account: a, data })),
            final(self).reserve == old(self).reserve,
            final(self).strategy == old(self).strategy,
            final(self).stoken == old(self).stoken,
            final(self).debt_token == old(self).debt_token,
    {
        let mut i: usize = 0;
        while i < self.users_data.len()
            invariant
                i <= self.users_data@.len(),
                forall|j: int| 0 <= j < i ==> (#[trigger] self.users_data@[j]).account != a,
                distinct_users(self.users_data@),
                self.users_data@ == old(self).users_data@,
                *self == *old(self),
            decreases self.users_data@.len() - i,
        {
            if self.users_data[i].account == a {
                let e = UserEntry { account: a, data };
                proof {
                    lemma_user_at(self.users_data@, a, i as int);
                    lemma_update_user(self.users_data@, i as int, e);
                }
                self.users_data[i] = e;
                return ;
            }
            i += 1;
        }
        let e = UserEntry { account: a, data };
        proof {
            assert(!has_user(self.users_data@, a));
            lemma_push_user(self.users_data@, e);
        }
        self.users_data.push(e);
    }

    /// Outcome of `deposit`, step by step in the order the action runs:
    /// validation, reserve accrual, the depositor's interest
    /// bookkeeping, rate recomputation, and the deposit-token mint.
    pub open spec fn spec_deposit_outcome(
        self,
        sender: AccountId,
        on_behalf_of: Option<AccountId>,
        amount: Balance,
        pool_liquidity: Balance,
        now: Timestamp,
    ) -> Result<Deposit, Error> {
        let receiver = spec_receiver(on_behalf_of, sender);
        match spec_validate_deposit(self.reserve, amount) {
            Err(e) => Err(e),
            Ok(_) => {
                if spec_update_state_overflows(self.reserve, now) {
                    Err(Error::InsufficientSupply)
                } else {
                    let r1 = spec_update_state(self.reserve, now);
                    let scaledbal = self.stoken.spec_balance_of(receiver);
                    if scaledbal * r1.liquidity_index > u128::MAX {
                        Err(Error::InsufficientSupply)
                    } else {
                        let user_balance = spec_mul_div(
                            scaledbal as int,
                            r1.liquidity_index as int,
                            SCALE as int,
                        );
                        let udata = user_of(self.users_data@, receiver);
                        let dt = now - udata.last_update_timestamp;
                        let rate = r1.current_liquidity_rate as int;
                        if user_balance * rate > u128::MAX || user_balance * rate * dt > u128::MAX {
                            Err(Error::InsufficientSupply)
                        } else if udata.cumulated_liquidity_interest + spec_linear_interest(
                            user_balance,
                            rate,
                            dt,
                        ) > u128::MAX {
                            Err(Error::InsufficientSupply)
                        } else {
                            match spec_rates_outcome(
                                self.strategy,
                                pool_liquidity as int,
                                amount as int,
                                0,
                                self.debt_token.total_supply as int,
                            ) {
                                Err(e) => Err(e),
                                Ok(_) => match AToken::spec_mint_outcome(
                                    self.stoken,
                                    receiver,
                                    amount,
                                    r1.liquidity_index,
                                ) {
                                    Err(e) => Err(e),
                                    Ok(_) => Ok(
                                        Deposit { user: sender, on_behalf_of: receiver, amount },
                                    ),
                                },
                            }
                        }
                    }
                }
            },
        }
    }

    /// Effect of a successful `deposit`: the reserve accrues and its
    /// rates are recomputed with the amount added, the deposit token is
    /// minted to the receiver at the accrued index, the receiver's
    /// record logs the observed interest and — when the prior scaled
    /// balance was zero — turns the collateral flag on.
    pub open spec fn spec_deposit_post(
        pre: Lendingpool,
        post: Lendingpool,
        sender: AccountId,
        receiver: AccountId,
        amount: Balance,
        pool_liquidity: Balance,
        now: Timestamp,
    ) -> bool {
        let r1 = spec_update_state(pre.reserve, now);
        let scaledbal = pre.stoken.spec_balance_of(receiver);
        let user_balance = spec_mul_div(scaledbal as int, r1.liquidity_index as int, SCALE as int);
        let udata = user_of(pre.users_data@, receiver);
        let dt = now - udata.last_update_timestamp;
        let interest = spec_linear_interest(user_balance, r1.current_liquidity_rate as int, dt);
        let new_udata = user_of(post.users_data@, receiver);
        &&& post.reserve.liquidity_index == r1.liquidity_index
        &&& post.reserve.variable_borrow_index == r1.variable_borrow_index
        &&& post.reserve.last_update_timestamp == now
        &&& spec_rates_outcome(
            pre.strategy,
            pool_liquidity as int,
            amount as int,
            0,
            pre.debt_token.total_supply as int,
        ) == Ok::<(u128, u128, u128), Error>(
            (
                post.reserve.current_liquidity_rate,
                post.reserve.current_variable_borrow_rate,
                post.reserve.current_stable_borrow_rate,
            ),
        )
        &&& post.reserve.configuration == pre.reserve.configuration
        &&& post.reserve.atoken_address == pre.reserve.atoken_address
        &&& post.reserve.stable_debt_token_address == pre.reserve.stable_debt_token_address
        &&& post.reserve.variable_debt_token_address == pre.reserve.variable_debt_token_address
        &&& post.reserve.interest_rate_strategy_address
            == pre.reserve.interest_rate_strategy_address
        &&& post.reserve.id == pre.reserve.id
        &&& AToken::spec_mint_post(pre.stoken, post.stoken, receiver, amount, r1.liquidity_index)
        &&& new_udata.cumulated_liquidity_interest == udata.cumulated_liquidity_interest + interest
        &&& new_udata.cumulated_stable_borrow_interest == udata.cumulated_stable_borrow_interest
        &&& new_udata.last_update_timestamp == now
        &&& new_udata.use_as_collateral == (scaledbal == 0 || udata.use_as_collateral)
        &&& (forall|b: AccountId|
            b != receiver ==> #[trigger] user_of(post.users_data@, b) == user_of(
                pre.users_data@,
                b,
            ))
        &&& post.debt_token == pre.debt_token
        &&& post.strategy == pre.strategy
    }

    /// Deposits `amount` of underlying — already received by the pool's
    /// custody, as `pool_liquidity` does not yet include it — and mints
    /// the equivalent deposit tokens to `on_behalf_of` (the caller when
    /// absent). A first deposit marks the balance as collateral.
    pub fn deposit(
        &mut self,
        sender: AccountId,
        on_behalf_of: Option<AccountId>,
        amount: Balance,
        pool_liquidity: Balance,
        now: Timestamp,
    ) -> (r: Result<Deposit, Error>)
        requires
            old(self).wf(),
            now >= old(self).reserve.last_update_timestamp,
        ensures
            final(self).wf(),
            match r {
                Ok(ev) => {
                    &&& old(self).spec_deposit_outcome(sender, on_behalf_of, amount, pool_liquidity, now)
                        == Ok::<Deposit, Error>(ev)
                    &&& Self::spec_deposit_post(
                        *old(self),
                        *final(self),
                        sender,
                        spec_receiver(on_behalf_of, sender),
                        amount,
                        pool_liquidity,
                        now,
                    )
                },
                Err(e) => {
                    &&& old(self).spec_deposit_outcome(sender, on_behalf_of, amount, pool_liquidity, now)
                        == Err::<Deposit, Error>(e)
                    &&& *final(self) == *old(self)
                },
            },
    {
        let receiver = match on_behalf_of {
            Some(b) => b,
            None => sender,
        };
        match validate_deposit(&self.reserve, amount) {
            Ok(_) => {},
            Err(e) => {
                return Err(e);
            },
        }
        let mut r1 = self.reserve;
        match update_state(&mut r1, now) {
            Ok(_) => {},
            Err(e) => {
                return Err(e);
            },
        }
        let user_balance = match self.stoken.balanceof(receiver, r1.liquidity_index) {
            Ok(v) => v,
            Err(e) => {
                return Err(e);
            },
        };
        let udata = self.user_record(receiver);
        let interval = now - udata.last_update_timestamp;
        let interest = match linear_interest(user_balance, r1.current_liquidity_rate, interval) {
            Some(v) => v,
            None => {
                return Err(Error::InsufficientSupply);
            },
        };
        let new_cumulated = match udata.cumulated_liquidity_interest.checked_add(interest) {
            Some(v) => v,
            None => {
                return Err(Error::InsufficientSupply);
            },
        };
        match update_interest_rates(
            &mut r1,
            &self.strategy,
            pool_liquidity,
            amount,
            0,
            self.debt_token.total_supply,
        ) {
            Ok(_) => {},
            Err(e) => {
                return Err(e);
            },
        }
        let is_first = match self.stoken.mint(receiver, amount, r1.liquidity_index) {
            Ok(b) => b,
            Err(e) => {
                return Err(e);
            },
        };
        self.set_user_record(
            receiver,
            UserReserveData {
                cumulated_liquidity_interest: new_cumulated,
                cumulated_stable_borrow_interest: udata.cumulated_stable_borrow_interest,
                last_update_timestamp: now,
                use_as_collateral: is_first || udata.use_as_collateral,
            },
        );
        self.reserve = r1;
        Ok(Deposit { user: sender, on_behalf_of: receiver, amount })
    }

    /// The single-reserve view of `sender` used by the withdrawal
    /// solvency check: their deposit balance as collateral against their
    /// accrued stable debt, at unit price.
    pub open spec fn spec_own_position(user_balance: int, debt_balance: int) -> AssetPosition {
        AssetPosition {
            collateral_balance: user_balance as u128,
            debt_balance: debt_balance as u128,
            price: 1,
            liquidation_threshold: LIQUIDATION_THRESHOLD_PERCENT,
        }
    }

    /// Outcome of `withdraw`, step by step in the order the action
    /// runs: reserve accrual, both balance reads, validation (amount,
    /// balance, active reserve, solvency), interest bookkeeping, rate
    /// recomputation, and the deposit-token burn.
    pub open spec fn spec_withdraw_outcome(
        self,
        sender: AccountId,
        amount: Balance,
        to: Option<AccountId>,
        pool_liquidity: Balance,
        now: Timestamp,
    ) -> Result<Withdraw, Error> {
        let receiver = spec_receiver(to, sender);
        if spec_update_state_overflows(self.reserve, now) {
            Err(Error::InsufficientSupply)
        } else {
            let r1 = spec_update_state(self.reserve, now);
            let scaledbal = self.stoken.spec_balance_of(sender);
            if scaledbal * r1.liquidity_index > u128::MAX {
                Err(Error::InsufficientSupply)
            } else {
                let user_balance = spec_mul_div(
                    scaledbal as int,
                    r1.liquidity_index as int,
                    SCALE as int,
                );
                if self.debt_token.spec_balance_overflows(sender, now) {
                    Err(Error::InsufficientSupply)
                } else {
                    let debt_bal = self.debt_token.spec_balance_of(sender, now);
                    let positions = Seq::empty().push(
                        Self::spec_own_position(user_balance, debt_bal),
                    );
                    match spec_validate_withdraw(r1, amount, user_balance as u128, positions, 0) {
                        Err(e) => Err(e),
                        Ok(_) => {
                            let udata = user_of(self.users_data@, sender);
                            let dt = now - udata.last_update_timestamp;
                            let rate = r1.current_liquidity_rate as int;
                            if user_balance * rate > u128::MAX || user_balance * rate * dt
                                > u128::MAX {
                                Err(Error::InsufficientSupply)
                            } else if udata.cumulated_liquidity_interest + spec_linear_interest(
                                user_balance,
                                rate,
                                dt,
                            ) > u128::MAX {
                                Err(Error::InsufficientSupply)
                            } else {
                                match spec_rates_outcome(
                                    self.strategy,
                                    pool_liquidity as int,
                                    0,
                                    amount as int,
                                    self.debt_token.total_supply as int,
                                ) {
                                    Err(e) => Err(e),
                                    Ok(_) => match AToken::spec_burn_outcome(
                                        self.stoken,
                                        sender,
                                        amount,
                                        r1.liquidity_index,
                                    ) {
                                        Err(e) => Err(e),
                                        Ok(_) => Ok(Withdraw { user: sender, to: receiver, amount }),
                                    },
                                }
                            }
                        },
                    }
                }
            }
        }
    }

    /// Effect of a successful `withdraw`: the reserve accrues and its
    /// rates are recomputed with the amount taken, the deposit token is
    /// burnt at the accrued index, the sender's record logs the observed
    /// interest, and a balance emptied by the burn drops its collateral
    /// flag.
    pub open spec fn spec_withdraw_post(
        pre: Lendingpool,
        post: Lendingpool,
        sender: AccountId,
        amount: Balance,
        pool_liquidity: Balance,
        now: Timestamp,
    ) -> bool {
        let r1 = spec_update_state(pre.reserve, now);
        let scaledbal = pre.stoken.spec_balance_of(sender);
        let user_balance = spec_mul_div(scaledbal as int, r1.liquidity_index as int, SCALE as int);
        let udata = user_of(pre.users_data@, sender);
        let dt = now - udata.last_update_timestamp;
        let interest = spec_linear_interest(user_balance, r1.current_liquidity_rate as int, dt);
        let new_udata = user_of(post.users_data@, sender);
        &&& post.reserve.liquidity_index == r1.liquidity_index
        &&& post.reserve.variable_borrow_index == r1.variable_borrow_index
        &&& post.reserve.last_update_timestamp == now
        &&& spec_rates_outcome(
            pre.strategy,
            pool_liquidity as int,
            0,
            amount as int,
            pre.debt_token.total_supply as int,
        ) == Ok::<(u128, u128, u128), Error>(
            (
                post.reserve.current_liquidity_rate,
                post.reserve.current_variable_borrow_rate,
                post.reserve.current_stable_borrow_rate,
            ),
        )
        &&& post.reserve.configuration == pre.reserve.configuration
        &&& post.reserve.atoken_address == pre.reserve.atoken_address
        &&& post.reserve.stable_debt_token_address == pre.reserve.stable_debt_token_address
        &&& post.reserve.variable_debt_token_address == pre.reserve.variable_debt_token_address
        &&& post.reserve.interest_rate_strategy_address
            == pre.reserve.interest_rate_strategy_address
        &&& post.reserve.id == pre.reserve.id
        &&& AToken::spec_burn_post(pre.stoken, post.stoken, sender, amount, r1.liquidity_index)
        &&& new_udata.cumulated_liquidity_interest == udata.cumulated_liquidity_interest + interest
        &&& new_udata.cumulated_stable_borrow_interest == udata.cumulated_stable_borrow_interest
        &&& new_udata.last_update_timestamp == now
        &&& new_udata.use_as_collateral == (post.stoken.spec_balance_of(sender) != 0
            && udata.use_as_collateral)
        &&& (forall|b: AccountId|
            b != sender ==> #[trigger] user_of(post.users_data@, b) == user_of(pre.users_data@, b))
        &&& post.debt_token == pre.debt_token
        &&& post.strategy == pre.strategy
    }

    /// Withdraws `amount` of underlying to `to` (the caller when
    /// absent), burning the equivalent deposit tokens of the caller at
    /// the accrued index. Refused when the amount exceeds the caller's
    /// accrued balance or would leave them insolvent across their
    /// positions; emptying the balance clears the collateral flag.
    pub fn withdraw(
        &mut self,
        sender: AccountId,
        amount: Balance,
        to: Option<AccountId>,
        pool_liquidity: Balance,
        now: Timestamp,
    ) -> (r: Result<Withdraw, Error>)
        requires
            old(self).wf(),
            now >= old(self).reserve.last_update_timestamp,
        ensures
            final(self).wf(),
            match r {
                Ok(ev) => {
                    &&& old(self).spec_withdraw_outcome(sender, amount, to, pool_liquidity, now)
                        == Ok::<Withdraw, Error>(ev)
                    &&& Self::spec_withdraw_post(
                        *old(self),
                        *final(self),
                        sender,
                        amount,
                        pool_liquidity,
                        now,
                    )
                },
                Err(e) => {
                    &&& old(self).spec_withdraw_outcome(sender, amount, to, pool_liquidity, now)
                        == Err::<Withdraw, Error>(e)
                    &&& *final(self) == *old(self)
                },
            },
    {
        let receiver = match to {
            Some(b) => b,
            None => sender,
        };
        let mut r1 = self.reserve;
        match update_state(&mut r1, now) {
            Ok(_) => {},
            Err(e) => {
                return Err(e);
            },
        }
        let user_balance = match self.stoken.balanceof(sender, r1.liquidity_index) {
            Ok(v) => v,
            Err(e) => {
                return Err(e);
            },
        };
        let debt_bal = match self.debt_token.balanceof(sender, now) {
            Ok(v) => v,
            Err(e) => {
                return Err(e);
            },
        };
        let mut positions: Vec<AssetPosition> = Vec::new();
        positions.push(
            AssetPosition {
                collateral_balance: user_balance,
                debt_balance: debt_bal,
                price: 1,
                liquidation_threshold: LIQUIDATION_THRESHOLD_PERCENT,
            },
        );
        match validate_withdraw(&r1, amount, user_balance, &positions, 0) {
            Ok(_) => {},
            Err(e) => {
                return Err(e);
            },
        }
        let udata = self.user_record(sender);
        let interval = now - udata.last_update_timestamp;
        let interest = match linear_interest(user_balance, r1.current_liquidity_rate, interval) {
            Some(v) => v,
            None => {
                return Err(Error::InsufficientSupply);
            },
        };
        let new_cumulated = match udata.cumulated_liquidity_interest.checked_add(interest) {
            Some(v) => v,
            None => {
                return Err(Error::InsufficientSupply);
            },
        };
        match update_interest_rates(
            &mut r1,
            &self.strategy,
            pool_liquidity,
            0,
            amount,
            self.debt_token.total_supply,
        ) {
            Ok(_) => {},
            Err(e) => {
                return Err(e);
            },
        }
        match self.stoken.burn(sender, amount, r1.liquidity_index) {
            Ok(_) => {},
            Err(e) => {
                return Err(e);
            },
        }
        let (scaled_after, _) = self.stoken.getscaledbalanceandsupply(sender);
        self.set_user_record(
            sender,
            UserReserveData {
                cumulated_liquidity_interest: new_cumulated,
                cumulated_stable_borrow_interest: udata.cumulated_stable_borrow_interest,
                last_update_timestamp: now,
                use_as_collateral: scaled_after != 0 && udata.use_as_collateral,
            },
        );
        self.reserve = r1;
        Ok(Withdraw { user: sender, to: receiver, amount })
    }

    /// Outcome of `borrow`, step by step in the order the action runs:
    /// reserve accrual, the collateral and debt reads, validation,
    /// interest bookkeeping, the post-mint debt total, rate
    /// recomputation, and the stable-debt mint (which consumes the
    /// delegation allowance when borrowing for another account).
    pub open spec fn spec_borrow_outcome(
        self,
        sender: AccountId,
        amount: Balance,
        on_behalf_of: AccountId,
        pool_liquidity: Balance,
        now: Timestamp,
    ) -> Result<Borrow, Error> {
        let receiver = on_behalf_of;
        if spec_update_state_overflows(self.reserve, now) {
            Err(Error::InsufficientSupply)
        } else {
            let r1 = spec_update_state(self.reserve, now);
            let scaledbal = self.stoken.spec_balance_of(receiver);
            if scaledbal * r1.liquidity_index > u128::MAX {
                Err(Error::InsufficientSupply)
            } else {
                let collateral = spec_mul_div(
                    scaledbal as int,
                    r1.liquidity_index as int,
                    SCALE as int,
                );
                if self.debt_token.spec_balance_overflows(receiver, now) {
                    Err(Error::InsufficientSupply)
                } else {
                    let debt_bal = self.debt_token.spec_balance_of(receiver, now);
                    match spec_validate_borrow(
                        r1,
                        amount,
                        pool_liquidity,
                        collateral as u128,
                        debt_bal as u128,
                        MAX_STABLE_LOAN_PERCENT,
                    ) {
                        Err(e) => Err(e),
                        Ok(_) => {
                            let udata = user_of(self.users_data@, receiver);
                            let dt = now - udata.last_update_timestamp;
                            let rate = r1.current_stable_borrow_rate as int;
                            if amount * rate > u128::MAX || amount * rate * dt > u128::MAX {
                                Err(Error::InsufficientSupply)
                            } else if udata.cumulated_stable_borrow_interest
                                + spec_linear_interest(amount as int, rate, dt) > u128::MAX {
                                Err(Error::InsufficientSupply)
                            } else {
                                let increase = self.debt_token.spec_balance_increase(receiver, now);
                                if self.debt_token.total_supply + amount > u128::MAX {
                                    Err(Error::InsufficientSupply)
                                } else if self.debt_token.total_supply + amount + increase
                                    > u128::MAX {
                                    Err(Error::InsufficientSupply)
                                } else {
                                    match spec_rates_outcome(
                                        self.strategy,
                                        pool_liquidity as int,
                                        0,
                                        amount as int,
                                        self.debt_token.total_supply + amount + increase,
                                    ) {
                                        Err(e) => Err(e),
                                        Ok(_) => match self.debt_token.spec_mint_outcome(
                                            sender,
                                            receiver,
                                            amount,
                                            r1.current_stable_borrow_rate,
                                            now,
                                        ) {
                                            Err(e) => Err(e),
                                            Ok(_) => Ok(
                                                Borrow {
                                                    user: sender,
                                                    on_behalf_of: receiver,
                                                    amount,
                                                    borrow_rate: r1.current_stable_borrow_rate,
                                                },
                                            ),
                                        },
                                    }
                                }
                            }
                        },
                    }
                }
            }
        }
    }

    /// Effect of a successful `borrow`: the reserve accrues, stable
    /// debt is minted to the receiver at the stable rate current after
    /// accrual, the rates are recomputed with the amount taken and the
    /// new debt total, and the receiver's record logs the observed
    /// borrow interest.
    pub open spec fn spec_borrow_post(
        pre: Lendingpool,
        post: Lendingpool,
        sender: AccountId,
        amount: Balance,
        receiver: AccountId,
        pool_liquidity: Balance,
        now: Timestamp,
    ) -> bool {
        let r1 = spec_update_state(pre.reserve, now);
        let udata = user_of(pre.users_data@, receiver);
        let dt = now - udata.last_update_timestamp;
        let interest = spec_linear_interest(
            amount as int,
            r1.current_stable_borrow_rate as int,
            dt,
        );
        let increase = pre.debt_token.spec_balance_increase(receiver, now);
        let new_udata = user_of(post.users_data@, receiver);
        &&& post.reserve.liquidity_index == r1.liquidity_index
        &&& post.reserve.variable_borrow_index == r1.variable_borrow_index
        &&& post.reserve.last_update_timestamp == now
        &&& spec_rates_outcome(
            pre.strategy,
            pool_liquidity as int,
            0,
            amount as int,
            pre.debt_token.total_supply + amount + increase,
        ) == Ok::<(u128, u128, u128), Error>(
            (
                post.reserve.current_liquidity_rate,
                post.reserve.current_variable_borrow_rate,
                post.reserve.current_stable_borrow_rate,
            ),
        )
        &&& post.reserve.configuration == pre.reserve.configuration
        &&& post.reserve.atoken_address == pre.reserve.atoken_address
        &&& post.reserve.stable_debt_token_address == pre.reserve.stable_debt_token_address
        &&& post.reserve.variable_debt_token_address == pre.reserve.variable_debt_token_address
        &&& post.reserve.interest_rate_strategy_address
            == pre.reserve.interest_rate_strategy_address
        &&& post.reserve.id == pre.reserve.id
        &&& Stabledebttoken::spec_mint_post(
            pre.debt_token,
            post.debt_token,
            sender,
            receiver,
            amount,
            r1.current_stable_borrow_rate,
            now,
        )
        &&& new_udata.cumulated_liquidity_interest == udata.cumulated_liquidity_interest
        &&& new_udata.cumulated_stable_borrow_interest == udata.cumulated_stable_borrow_interest
            + interest
        &&& new_udata.last_update_timestamp == now
        &&& new_udata.use_as_collateral == udata.use_as_collateral
        &&& (forall|b: AccountId|
            b != receiver ==> #[trigger] user_of(post.users_data@, b) == user_of(
                pre.users_data@,
                b,
            ))
        &&& post.stoken == pre.stoken
        &&& post.strategy == pre.strategy
    }

    /// Borrows `amount` of underlying for the caller against the
    /// collateral of `on_behalf_of`, who receives the stable debt at the
    /// current stable rate. When caller and receiver differ, the
    /// delegation allowance the receiver granted the caller is consumed.
    /// The caller is owed the transfer of `amount` described by the
    /// returned event.
    pub fn borrow(
        &mut self,
        sender: AccountId,
        amount: Balance,
        on_behalf_of: AccountId,
        pool_liquidity: Balance,
        now: Timestamp,
    ) -> (r: Result<Borrow, Error>)
        requires
            old(self).wf(),
            now >= old(self).reserve.last_update_timestamp,
        ensures
            final(self).wf(),
            match r {
                Ok(ev) => {
                    &&& old(self).spec_borrow_outcome(sender, amount, on_behalf_of, pool_liquidity, now)
                        == Ok::<Borrow, Error>(ev)
                    &&& Self::spec_borrow_post(
                        *old(self),
                        *final(self),
                        sender,
                        amount,
                        on_behalf_of,
                        pool_liquidity,
                        now,
                    )
                },
                Err(e) => {
                    &&& old(self).spec_borrow_outcome(sender, amount, on_behalf_of, pool_liquidity, now)
                        == Err::<Borrow, Error>(e)
                    &&& *final(self) == *old(self)
                },
            },
    {
        let receiver = on_behalf_of;
        let mut r1 = self.reserve;
        match update_state(&mut r1, now) {
            Ok(_) => {},
            Err(e) => {
                return Err(e);
            },
        }
        let collateral = match self.stoken.balanceof(receiver, r1.liquidity_index) {
            Ok(v) => v,
            Err(e) => {
                return Err(e);
            },
        };
        let debt_bal = match self.debt_token.balanceof(receiver, now) {
            Ok(v) => v,
            Err(e) => {
                return Err(e);
            },
        };
        match validate_borrow(&r1, amount, pool_liquidity, collateral, debt_bal, MAX_STABLE_LOAN_PERCENT) {
            Ok(_) => {},
            Err(e) => {
                return Err(e);
            },
        }
        let udata = self.user_record(receiver);
        let interval = now - udata.last_update_timestamp;
        let rate0 = r1.current_stable_borrow_rate;
        let interest = match linear_interest(amount, rate0, interval) {
            Some(v) => v,
            None => {
                return Err(Error::InsufficientSupply);
            },
        };
        let new_cumulated = match udata.cumulated_stable_borrow_interest.checked_add(interest) {
            Some(v) => v,
            None => {
                return Err(Error::InsufficientSupply);
            },
        };
        let (_, _, increase) = match self.debt_token.caculatebalanceincrease(receiver, now) {
            Ok(t) => t,
            Err(e) => {
                return Err(e);
            },
        };
        let with_amount = match self.debt_token.total_supply.checked_add(amount) {
            Some(v) => v,
            None => {
                return Err(Error::InsufficientSupply);
            },
        };
        let new_debt_total = match with_amount.checked_add(increase) {
            Some(v) => v,
            None => {
                return Err(Error::InsufficientSupply);
            },
        };
        match update_interest_rates(
            &mut r1,
            &self.strategy,
            pool_liquidity,
            0,
            amount,
            new_debt_total,
        ) {
            Ok(_) => {},
            Err(e) => {
                return Err(e);
            },
        }
        match self.debt_token.mint(sender, receiver, amount, rate0, now) {
            Ok(_) => {},
            Err(e) => {
                return Err(e);
            },
        }
        self.set_user_record(
            receiver,
            UserReserveData {
                cumulated_liquidity_interest: udata.cumulated_liquidity_interest,
                cumulated_stable_borrow_interest: new_cumulated,
                last_update_timestamp: now,
                use_as_collateral: udata.use_as_collateral,
            },
        );
        self.reserve = r1;
        Ok(Borrow { user: sender, on_behalf_of: receiver, amount, borrow_rate: rate0 })
    }

    /// Outcome of `repay`, step by step in the order the action runs:
    /// reserve accrual, the debt read, validation, the post-burn debt
    /// total, rate recomputation, and the stable-debt burn.
    pub open spec fn spec_repay_outcome(
        self,
        sender: AccountId,
        amount: Balance,
        on_behalf_of: AccountId,
        pool_liquidity: Balance,
        now: Timestamp,
    ) -> Result<Repay, Error> {
        let receiver = on_behalf_of;
        if spec_update_state_overflows(self.reserve, now) {
            Err(Error::InsufficientSupply)
        } else {
            if self.debt_token.spec_balance_overflows(receiver, now) {
                Err(Error::InsufficientSupply)
            } else {
                let debt_bal = self.debt_token.spec_balance_of(receiver, now);
                match spec_validate_repay(amount, debt_bal as u128) {
                    Err(e) => Err(e),
                    Ok(_) => {
                        let increase = self.debt_token.spec_balance_increase(receiver, now);
                        if increase > amount && self.debt_token.total_supply + (increase - amount)
                            > u128::MAX {
                            Err(Error::InsufficientSupply)
                        } else {
                            match spec_rates_outcome(
                                self.strategy,
                                pool_liquidity as int,
                                amount as int,
                                0,
                                self.debt_token.total_supply + increase - amount,
                            ) {
                                Err(e) => Err(e),
                                Ok(_) => match self.debt_token.spec_burn_outcome(
                                    receiver,
                                    amount,
                                    now,
                                ) {
                                    Err(e) => Err(e),
                                    Ok(_) => Ok(
                                        Repay { receiver, repayer: sender, amount },
                                    ),
                                },
                            }
                        }
                    },
                }
            }
        }
    }

    /// Effect of a successful `repay`: the reserve accrues, `amount` of
    /// the receiver's stable debt is burnt, and the rates are
    /// recomputed with the amount added back and the reduced debt
    /// total. The repayer owes the pool the transfer of `amount`
    /// described by the returned event.
    pub open spec fn spec_repay_post(
        pre: Lendingpool,
        post: Lendingpool,
        sender: AccountId,
        amount: Balance,
        receiver: AccountId,
        pool_liquidity: Balance,
        now: Timestamp,
    ) -> bool {
        let r1 = spec_update_state(pre.reserve, now);
        let increase = pre.debt_token.spec_balance_increase(receiver, now);
        &&& post.reserve.liquidity_index == r1.liquidity_index
        &&& post.reserve.variable_borrow_index == r1.variable_borrow_index
        &&& post.reserve.last_update_timestamp == now
        &&& spec_rates_outcome(
            pre.strategy,
            pool_liquidity as int,
            amount as int,
            0,
            pre.debt_token.total_supply + increase - amount,
        ) == Ok::<(u128, u128, u128), Error>(
            (
                post.reserve.current_liquidity_rate,
                post.reserve.current_variable_borrow_rate,
                post.reserve.current_stable_borrow_rate,
            ),
        )
        &&& post.reserve.configuration == pre.reserve.configuration
        &&& post.reserve.atoken_address == pre.reserve.atoken_address
        &&& post.reserve.stable_debt_token_address == pre.reserve.stable_debt_token_address
        &&& post.reserve.variable_debt_token_address == pre.reserve.variable_debt_token_address
        &&& post.reserve.interest_rate_strategy_address
            == pre.reserve.interest_rate_strategy_address
        &&& post.reserve.id == pre.reserve.id
        &&& Stabledebttoken::spec_burn_post(pre.debt_token, post.debt_token, receiver, amount, now)
        &&& post.users_data@ == pre.users_data@
        &&& post.stoken == pre.stoken
        &&& post.strategy == pre.strategy
    }

    /// Repays `amount` of the stable debt of `on_behalf_of`, burning
    /// the equivalent debt tokens; the caller provides the underlying.
    pub fn repay(
        &mut self,
        sender: AccountId,
        amount: Balance,
        on_behalf_of: AccountId,
        pool_liquidity: Balance,
        now: Timestamp,
    ) -> (r: Result<Repay, Error>)
        requires
            old(self).wf(),
            now >= old(self).reserve.last_update_timestamp,
        ensures
            final(self).wf(),
            match r {
                Ok(ev) => {
                    &&& old(self).spec_repay_outcome(sender, amount, on_behalf_of, pool_liquidity, now)
                        == Ok::<Repay, Error>(ev)
                    &&& Self::spec_repay_post(
                        *old(self),
                        *final(self),
                        sender,
                        amount,
                        on_behalf_of,
                        pool_liquidity,
                        now,
                    )
                },
                Err(e) => {
                    &&& old(self).spec_repay_outcome(sender, amount, on_behalf_of, pool_liquidity, now)
                        == Err::<Repay, Error>(e)
                    &&& *final(self) == *old(self)
                },
            },
    {
        let receiver = on_behalf_of;
        let mut r1 = self.reserve;
        match update_state(&mut r1, now) {
            Ok(_) => {},
            Err(e) => {
                return Err(e);
            },
        }
        let debt_bal = match self.debt_token.balanceof(receiver, now) {
            Ok(v) => v,
            Err(e) => {
                return Err(e);
            },
        };
        match validate_repay(amount, debt_bal) {
            Ok(_) => {},
            Err(e) => {
                return Err(e);
            },
        }
        let (_, _, increase) = match self.debt_token.caculatebalanceincrease(receiver, now) {
            Ok(t) => t,
            Err(e) => {
                return Err(e);
            },
        };
        let new_debt_total: Balance = if increase > amount {
            match self.debt_token.total_supply.checked_add(increase - amount) {
                Some(v) => v,
                None => {
                    return Err(Error::InsufficientSupply);
                },
            }
        } else {
            proof {
                crate::stabledebttoken::lemma_principal_le_total(self.debt_token, receiver);
            }
            self.debt_token.total_supply - (amount - increase)
        };
        match update_interest_rates(
            &mut r1,
            &self.strategy,
            pool_liquidity,
            amount,
            0,
            new_debt_total,
        ) {
            Ok(_) => {},
            Err(e) => {
                return Err(e);
            },
        }
        match self.debt_token.burn(receiver, amount, now) {
            Ok(_) => {},
            Err(e) => {
                return Err(e);
            },
        }
        self.reserve = r1;
        Ok(Repay { receiver, repayer: sender, amount })
    }
}

/// Deposit/withdraw round trip: when a user with no deposit-token
/// balance deposits `amount` and immediately — at the same timestamp,
/// so no interest accrues in between — withdraws `amount`, the burn
/// removes exactly the scaled amount the mint created: the scaled
/// balance returns to zero, the collateral flag is off, and the
/// underlying released equals the underlying paid in.
pub proof fn lemma_deposit_withdraw_round_trip(
    pre: Lendingpool,
    mid: Lendingpool,
    post: Lendingpool,
    sender: AccountId,
    amount: Balance,
    deposit_liquidity: Balance,
    withdraw_liquidity: Balance,
    now: Timestamp,
)
    requires
        pre.stoken.spec_balance_of(sender) == 0,
        Lendingpool::spec_deposit_post(pre, mid, sender, sender, amount, deposit_liquidity, now),
        Lendingpool::spec_withdraw_post(mid, post, sender, amount, withdraw_liquidity, now),
    ensures
        post.stoken.spec_balance_of(sender) == 0,
        !user_of(post.users_data@, sender).use_as_collateral,
{
    let r1 = spec_update_state(pre.reserve, now);
    assert(mid.reserve.last_update_timestamp == now);
    assert(spec_update_state(mid.reserve, now) == mid.reserve);
    assert(mid.reserve.liquidity_index == r1.liquidity_index);
}

} // verus!
