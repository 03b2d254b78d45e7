//! The interest-bearing deposit token. A holder's real balance is a
//! stored *scaled* principal times the reserve's current liquidity index,
//! so interest accrues for every holder at once without touching any
//! holder's storage. Mint and burn take real amounts together with the
//! current index and convert them to scaled amounts internally.

use vstd::prelude::*;

use crate::math::{mul_div, spec_mul_div};
use crate::types::{AccountId, Balance, Error, SCALE};

verus! {

/// One holder's stored scaled principal.
#[derive(Clone, Copy, Debug, PartialEq, Eq, Structural)]
pub struct BalanceEntry {
    pub account: AccountId,
    pub balance: Balance,
}

/// Whether some entry carries `a`.
pub open spec fn has_account(s: Seq<BalanceEntry>, a: AccountId) -> bool {
    exists|i: int| 0 <= i < s.len() && (#[trigger] s[i]).account == a
}

/// The index of the entry carrying `a` (unique when accounts are distinct).
pub open spec fn account_index(s: Seq<BalanceEntry>, a: AccountId) -> int {
    choose|i: int| 0 <= i < s.len() && (#[trigger] s[i]).account == a
}

/// The scaled balance stored for `a`; zero when `a` has no entry.
pub open spec fn bal_of(s: Seq<BalanceEntry>, a: AccountId) -> Balance {
    if has_account(s, a) {
        s[account_index(s, a)].balance
    } else {
        0
    }
}

/// No two entries carry the same account.
pub open spec fn distinct_accounts(s: Seq<BalanceEntry>) -> bool {
    forall|i: int, j: int|
        0 <= i < j < s.len() ==> (#[trigger] s[i]).account != (#[trigger] s[j]).account
}

/// The sum of all stored scaled balances.
pub open spec fn sum_balances(s: Seq<BalanceEntry>) -> int
    decreases s.len(),
{
    if s.len() == 0 {
        0
    } else {
        sum_balances(s.drop_last()) + s.last().balance
    }
}

/// With distinct accounts, the entry at any index holding `a` is the one
/// `bal_of` reads.
pub proof fn lemma_entry_is_the_account(s: Seq<BalanceEntry>, a: AccountId, i: int)
    requires
        distinct_accounts(s),
        0 <= i < s.len(),
        s[i].account == a,
    ensures
        has_account(s, a),
        account_index(s, a) == i,
        bal_of(s, a) == s[i].balance,
{
    assert(has_account(s, a));
    let j = account_index(s, a);
    if i < j {
        assert(s[i].account != s[j].account);
    } else if j < i {
        assert(s[j].account != s[i].account);
    }
}

/// Updating the entry at `i` in place changes only that account's balance.
pub proof fn lemma_update_balance(s: Seq<BalanceEntry>, i: int, e: BalanceEntry)
    requires
        distinct_accounts(s),
        0 <= i < s.len(),
        s[i].account == e.account,
    ensures
        distinct_accounts(s.update(i, e)),
        bal_of(s.update(i, e), e.account) == e.balance,
        forall|b: AccountId|
            b != e.account ==> #[trigger] bal_of(s.update(i, e), b) == bal_of(s, b),
{
    let t = s.update(i, e);
    assert forall|p: int, q: int| 0 <= p < q < t.len() implies (#[trigger] t[p]).account != (
    #[trigger] t[q]).account by {
        assert(s[p].account != s[q].account);
    }
    lemma_entry_is_the_account(t, e.account, i);
    assert forall|b: AccountId| b != e.account implies #[trigger] bal_of(t, b) == bal_of(s, b) by {
        if has_account(s, b) {
            let j = account_index(s, b);
            assert(s[j].account == b);
            assert(j != i);
            lemma_entry_is_the_account(t, b, j);
            lemma_entry_is_the_account(s, b, j);
        } else {
            assert forall|k: int| 0 <= k < t.len() implies (#[trigger] t[k]).account != b by {
                if k != i {
                    assert(s[k].account != b);
                }
            }
            assert(!has_account(t, b));
        }
    }
}

/// Appending an entry for a new account changes only that account's balance.
pub proof fn lemma_push_balance(s: Seq<BalanceEntry>, e: BalanceEntry)
    requires
        distinct_accounts(s),
        !has_account(s, e.account),
    ensures
        distinct_accounts(s.push(e)),
        bal_of(s.push(e), e.account) == e.balance,
        forall|b: AccountId| b != e.account ==> #[trigger] bal_of(s.push(e), b) == bal_of(s, b),
{
    let t = s.push(e);
    assert forall|p: int, q: int| 0 <= p < q < t.len() implies (#[trigger] t[p]).account != (
    #[trigger] t[q]).account by {
        if q < s.len() {
            assert(s[p].account != s[q].account);
        } else {
            assert(t[q] == e);
            assert(s[p].account != e.account);
        }
    }
    lemma_entry_is_the_account(t, e.account, s.len() as int);
    assert forall|b: AccountId| b != e.account implies #[trigger] bal_of(t, b) == bal_of(s, b) by {
        if has_account(s, b) {
            let j = account_index(s, b);
            assert(t[j].account == b);
            lemma_entry_is_the_account(t, b, j);
            lemma_entry_is_the_account(s, b, j);
        } else {
            assert forall|k: int| 0 <= k < t.len() implies (#[trigger] t[k]).account != b by {
                if k < s.len() {
                    assert(s[k].account != b);
                }
            }
            assert(!has_account(t, b));
        }
    }
}

/// The sum of all balances is never negative.
pub proof fn lemma_sum_nonneg(s: Seq<BalanceEntry>)
    ensures
        sum_balances(s) >= 0,
    decreases s.len(),
{
    if s.len() > 0 {
        lemma_sum_nonneg(s.drop_last());
    }
}

/// Every single balance is bounded by the sum of all balances.
pub proof fn lemma_sum_ge_entry(s: Seq<BalanceEntry>, i: int)
    requires
        0 <= i < s.len(),
    ensures
        sum_balances(s) >= s[i].balance,
    decreases s.len(),
{
    if i == s.len() - 1 {
        lemma_sum_nonneg(s.drop_last());
    } else {
        lemma_sum_ge_entry(s.drop_last(), i);
        assert(s.drop_last()[i] == s[i]);
    }
}

/// Updating one entry moves the sum by the difference of the balances.
pub proof fn lemma_sum_update(s: Seq<BalanceEntry>, i: int, e: BalanceEntry)
    requires
        0 <= i < s.len(),
    ensures
        sum_balances(s.update(i, e)) == sum_balances(s) - s[i].balance + e.balance,
    decreases s.len(),
{
    let t = s.update(i, e);
    if i == s.len() - 1 {
        assert(t.drop_last() =~= s.drop_last());
    } else {
        lemma_sum_update(s.drop_last(), i, e);
        assert(t.drop_last() =~= s.drop_last().update(i, e));
        assert(t.last() == s.last());
    }
}

/// Appending an entry adds its balance to the sum.
pub proof fn lemma_sum_push(s: Seq<BalanceEntry>, e: BalanceEntry)
    ensures
        sum_balances(s.push(e)) == sum_balances(s) + e.balance,
{
    assert(s.push(e).drop_last() =~= s);
}

/// The scaled amount that a real `amount` becomes at `index`.
pub open spec fn spec_scaled_amount(amount: int, index: int) -> int {
    amount * (SCALE as int) / index
}

/// The deposit-token ledger: scaled balances, their total, and the opaque
/// addresses of the collaborating contracts.
pub struct AToken {
    /// The asset that depositors pay in and withdraw.
    pub underlying_asset_address: AccountId,
    /// The reserve's own account; treasury mints accrue here.
    pub reserve_asset_address: AccountId,
    pub entries: Vec<BalanceEntry>,
    /// Scaled total supply; always the sum of all entries.
    pub total_supply: Balance,
}

impl AToken {
    /// Internal consistency: accounts are unique and the recorded total
    /// is exactly the sum of the stored balances.
    pub open spec fn wf(self) -> bool {
        &&& distinct_accounts(self.entries@)
        &&& self.total_supply as int == sum_balances(self.entries@)
    }

    /// The scaled balance stored for `a`.
    pub open spec fn spec_balance_of(self, a: AccountId) -> Balance {
        bal_of(self.entries@, a)
    }

    /// Outcome of `mint`: the scaling step must not overflow, the scaled
    /// amount must be nonzero, and the scaled total must keep fitting.
    pub open spec fn spec_mint_outcome(pre: AToken, user: AccountId, amount: u128, index: u128) -> Result<
        bool,
        Error,
    > {
        let scaled = spec_scaled_amount(amount as int, index as int);
        if amount * SCALE > u128::MAX {
            Err(Error::InsufficientSupply)
        } else if scaled == 0 {
            Err(Error::InvalidAmount)
        } else if pre.total_supply + scaled > u128::MAX {
            Err(Error::InsufficientSupply)
        } else {
            Ok(bal_of(pre.entries@, user) == 0)
        }
    }

    /// Effect of a successful `mint`: `user` gained the scaled amount,
    /// nobody else moved, and the total moved by the same scaled amount.
    pub open spec fn spec_mint_post(pre: AToken, post: AToken, user: AccountId, amount: u128, index: u128) -> bool {
        let scaled = spec_scaled_amount(amount as int, index as int);
        &&& bal_of(post.entries@, user) == bal_of(pre.entries@, user) + scaled
        &&& (forall|b: AccountId|
            b != user ==> #[trigger] bal_of(post.entries@, b) == bal_of(pre.entries@, b))
        &&& post.total_supply == pre.total_supply + scaled
        &&& post.underlying_asset_address == pre.underlying_asset_address
        &&& post.reserve_asset_address == pre.reserve_asset_address
    }

    /// Outcome of `burn`: as for mint, and the scaled amount must not
    /// exceed the user's stored balance.
    pub open spec fn spec_burn_outcome(pre: AToken, user: AccountId, amount: u128, index: u128) -> Result<
        (),
        Error,
    > {
        let scaled = spec_scaled_amount(amount as int, index as int);
        if amount * SCALE > u128::MAX {
            Err(Error::InsufficientSupply)
        } else if scaled == 0 {
            Err(Error::InvalidAmount)
        } else if scaled > bal_of(pre.entries@, user) {
            Err(Error::InsufficientBalance)
        } else {
            Ok(())
        }
    }

    /// Effect of a successful `burn`.
    pub open spec fn spec_burn_post(pre: AToken, post: AToken, user: AccountId, amount: u128, index: u128) -> bool {
        let scaled = spec_scaled_amount(amount as int, index as int);
        &&& bal_of(post.entries@, user) == bal_of(pre.entries@, user) - scaled
        &&& (forall|b: AccountId|
            b != user ==> #[trigger] bal_of(post.entries@, b) == bal_of(pre.entries@, b))
        &&& post.total_supply == pre.total_supply - scaled
        &&& post.underlying_asset_address == pre.underlying_asset_address
        &&& post.reserve_asset_address == pre.reserve_asset_address
    }

    /// An empty ledger linked to the given collaborator addresses.
    pub fn new(underlying_asset_address: AccountId, reserve_asset_address: AccountId) -> (r: AToken)
        ensures
            r.wf(),
            r.underlying_asset_address == underlying_asset_address,
            r.reserve_asset_address == reserve_asset_address,
            r.entries@.len() == 0,
            r.total_supply == 0,
            forall|b: AccountId| #[trigger] r.spec_balance_of(b) == 0,
    {
        let r = AToken {
            underlying_asset_address,
            reserve_asset_address,
            entries: Vec::new(),
            total_supply: 0,
        };
        proof {
            assert(forall|b: AccountId| !has_account(r.entries@, b));
        }
        r
    }

    /// The position of `a`'s entry, if there is one.
    fn find(&self, a: AccountId) -> (r: Option<usize>)
        ensures
            match r {
                Some(i) => i < self.entries@.len() && self.entries@[i as int].account == a,
                None => !has_account(self.entries@, a),
            },
    {
        let mut i: usize = 0;
        while i < self.entries.len()
            invariant
                i <= self.entries@.len(),
                forall|j: int| 0 <= j < i ==> (#[trigger] self.entries@[j]).account != a,
            decreases self.entries@.len() - i,
        {
            if self.entries[i].account == a {
                return Some(i);
            }
            i += 1;
        }
        None
    }

    /// Adds `scaled` to `user`'s stored balance and to the total, creating
    /// the entry if needed. The caller has already checked the total.
    fn credit(&mut self, user: AccountId, scaled: Balance)
        requires
            old(self).wf(),
            old(self).total_supply + scaled <= u128::MAX,
        ensures
            final(self).wf(),
            final(self).total_supply == old(self).total_supply + scaled,
            bal_of(final(self).entries@, user) == bal_of(old(self).entries@, user) + scaled,
            forall|b: AccountId|
                b != user ==> #[trigger] bal_of(final(self).entries@, b) == bal_of(
                    old(self).entries@,
                    b,
                ),
            final(self).underlying_asset_address == old(self).underlying_asset_address,
            final(self).reserve_asset_address == old(self).reserve_asset_address,
    {
        match self.find(user) {
            Some(i) => {
                proof {
                    lemma_entry_is_the_account(self.entries@, user, i as int);
                    lemma_sum_ge_entry(self.entries@, i as int);
                    lemma_sum_nonneg(self.entries@);
                }
                let prior = self.entries[i].balance;
                let e = BalanceEntry { account: user, balance: prior + scaled };
                proof {
                    lemma_update_balance(self.entries@, i as int, e);
                    lemma_sum_update(self.entries@, i as int, e);
                }
                self.entries[i] = e;
            },
            None => {
                let e = BalanceEntry { account: user, balance: scaled };
                proof {
                    lemma_push_balance(self.entries@, e);
                    lemma_sum_push(self.entries@, e);
                }
                self.entries.push(e);
            },
        }
        self.total_supply = self.total_supply + scaled;
    }

    /// Mints deposit tokens worth the real `amount` at the given liquidity
    /// `index` and reports whether the holder's prior balance was zero, so
    /// the caller can toggle the collateral flag.
    pub fn mint(&mut self, user: AccountId, amount: Balance, index: u128) -> (r: Result<bool, Error>)
        requires
            old(self).wf(),
            index > 0,
        ensures
            final(self).wf(),
            match r {
                Ok(first) => {
                    &&& Self::spec_mint_outcome(*old(self), user, amount, index) == Ok::<bool, Error>(first)
                    &&& Self::spec_mint_post(*old(self), *final(self), user, amount, index)
                },
                Err(e) => {
                    &&& Self::spec_mint_outcome(*old(self), user, amount, index) == Err::<bool, Error>(e)
                    &&& *final(self) == *old(self)
                },
            },
    {
        let scaled = match mul_div(amount, SCALE, index) {
            Some(s) => s,
            None => {
                return Err(Error::InsufficientSupply);
            },
        };
        if scaled == 0 {
            return Err(Error::InvalidAmount);
        }
        if self.total_supply.checked_add(scaled).is_none() {
            return Err(Error::InsufficientSupply);
        }
        let first = match self.find(user) {
            Some(i) => {
                proof {
                    lemma_entry_is_the_account(self.entries@, user, i as int);
                }
                self.entries[i].balance == 0
            },
            None => true,
        };
        self.credit(user, scaled);
        Ok(first)
    }

    /// Burns deposit tokens worth the real `amount` at the given liquidity
    /// `index`. The equivalent underlying is released by the caller.
    pub fn burn(&mut self, user: AccountId, amount: Balance, index: u128) -> (r: Result<(), Error>)
        requires
            old(self).wf(),
            index > 0,
        ensures
            final(self).wf(),
            match r {
                Ok(()) => {
                    &&& Self::spec_burn_outcome(*old(self), user, amount, index) == Ok::<(), Error>(())
                    &&& Self::spec_burn_post(*old(self), *final(self), user, amount, index)
                },
                Err(e) => {
                    &&& Self::spec_burn_outcome(*old(self), user, amount, index) == Err::<(), Error>(e)
                    &&& *final(self) == *old(self)
                },
            },
    {
        let scaled = match mul_div(amount, SCALE, index) {
            Some(s) => s,
            None => {
                return Err(Error::InsufficientSupply);
            },
        };
        if scaled == 0 {
            return Err(Error::InvalidAmount);
        }
        match self.find(user) {
            Some(i) => {
                proof {
                    lemma_entry_is_the_account(self.entries@, user, i as int);
                    lemma_sum_ge_entry(self.entries@, i as int);
                }
                let prior = self.entries[i].balance;
                if scaled > prior {
                    return Err(Error::InsufficientBalance);
                }
                let e = BalanceEntry { account: user, balance: prior - scaled };
                proof {
                    lemma_update_balance(self.entries@, i as int, e);
                    lemma_sum_update(self.entries@, i as int, e);
                }
                self.entries[i] = e;
                self.total_supply = self.total_supply - scaled;
                Ok(())
            },
            None => {
                // With no entry the stored balance is zero and any nonzero
                // scaled amount exceeds it.
                Err(Error::InsufficientBalance)
            },
        }
    }

    /// The real balance of `user`: scaled principal times the current
    /// liquidity `index`.
    pub fn balanceof(&self, user: AccountId, index: u128) -> (r: Result<Balance, Error>)
        requires
            self.wf(),
        ensures
            match r {
                Ok(v) => {
                    &&& self.spec_balance_of(user) * index <= u128::MAX
                    &&& v == spec_mul_div(self.spec_balance_of(user) as int, index as int, SCALE as int)
                },
                Err(e) => {
                    &&& e == Error::InsufficientSupply
                    &&& self.spec_balance_of(user) * index > u128::MAX
                },
            },
    {
        let scaled = match self.find(user) {
            Some(i) => {
                proof {
                    lemma_entry_is_the_account(self.entries@, user, i as int);
                }
                self.entries[i].balance
            },
            None => 0,
        };
        match mul_div(scaled, index, SCALE) {
            Some(v) => Ok(v),
            None => Err(Error::InsufficientSupply),
        }
    }

    /// The scaled balance of `user` and the scaled total supply.
    pub fn getscaledbalanceandsupply(&self, user: AccountId) -> (r: (Balance, Balance))
        requires
            self.wf(),
        ensures
            r.0 == self.spec_balance_of(user),
            r.1 == self.total_supply,
    {
        let scaled = match self.find(user) {
            Some(i) => {
                proof {
                    lemma_entry_is_the_account(self.entries@, user, i as int);
                }
                self.entries[i].balance
            },
            None => 0,
        };
        (scaled, self.total_supply)
    }

    /// The real total supply: scaled total times the current `index`.
    pub fn totalsupply(&self, index: u128) -> (r: Result<Balance, Error>)
        requires
            self.wf(),
        ensures
            match r {
                Ok(v) => {
                    &&& self.total_supply * index <= u128::MAX
                    &&& v == spec_mul_div(self.total_supply as int, index as int, SCALE as int)
                },
                Err(e) => {
                    &&& e == Error::InsufficientSupply
                    &&& self.total_supply * index > u128::MAX
                },
            },
    {
        if self.total_supply == 0 {
            return Ok(0);
        }
        match mul_div(self.total_supply, index, SCALE) {
            Some(v) => Ok(v),
            None => Err(Error::InsufficientSupply),
        }
    }

    /// The scaled total supply.
    pub fn scaledtotalsuplly(&self) -> (r: Balance)
        ensures
            r == self.total_supply,
    {
        self.total_supply
    }

    /// Mints deposit tokens worth `amount` at `index` to the reserve's own
    /// account; a zero amount is a no-op.
    pub fn minttotreasury(&mut self, amount: Balance, index: u128) -> (r: Result<(), Error>)
        requires
            old(self).wf(),
            index > 0,
        ensures
            final(self).wf(),
            amount == 0 ==> r == Ok::<(), Error>(()) && *final(self) == *old(self),
            amount != 0 ==> match r {
                Ok(()) => {
                    &&& Self::spec_mint_outcome(
                        *old(self),
                        old(self).reserve_asset_address,
                        amount,
                        index,
                    ) is Ok
                    &&& Self::spec_mint_post(
                        *old(self),
                        *final(self),
                        old(self).reserve_asset_address,
                        amount,
                        index,
                    )
                },
                Err(e) => {
                    &&& Self::spec_mint_outcome(
                        *old(self),
                        old(self).reserve_asset_address,
                        amount,
                        index,
                    ) == Err::<bool, Error>(e)
                    &&& *final(self) == *old(self)
                },
            },
    {
        if amount == 0 {
            return Ok(());
        }
        let treasury = self.reserve_asset_address;
        match self.mint(treasury, amount, index) {
            Ok(_) => Ok(()),
            Err(e) => Err(e),
        }
    }

    /// Moves deposit tokens worth the real `value` at `index` from a
    /// liquidated holder to the liquidator.
    pub fn transferonliquidation(&mut self, from: AccountId, to: AccountId, value: Balance, index: u128) -> (r: Result<
        (),
        Error,
    >)
        requires
            old(self).wf(),
            index > 0,
        ensures
            final(self).wf(),
            match r {
                Ok(()) => {
                    &&& Self::spec_burn_outcome(*old(self), from, value, index) == Ok::<(), Error>(())
                    &&& Self::spec_transfer_post(*old(self), *final(self), from, to, value, index)
                },
                Err(e) => {
                    &&& Self::spec_burn_outcome(*old(self), from, value, index) == Err::<(), Error>(e)
                    &&& *final(self) == *old(self)
                },
            },
    {
        self._transfer(from, to, value, index)
    }

    /// Effect of a successful transfer: the scaled amount moved from
    /// `from` to `to` (nothing moves when they are the same account) and
    /// the total stayed put.
    pub open spec fn spec_transfer_post(pre: AToken, post: AToken, from: AccountId, to: AccountId, value: Balance, index: u128) -> bool {
        let scaled = spec_scaled_amount(value as int, index as int);
        &&& (from == to ==> post == pre)
        &&& (from != to ==> {
            &&& bal_of(post.entries@, from) == bal_of(pre.entries@, from) - scaled
            &&& bal_of(post.entries@, to) == bal_of(pre.entries@, to) + scaled
            &&& (forall|b: AccountId|
                b != from && b != to ==> #[trigger] bal_of(post.entries@, b) == bal_of(
                    pre.entries@,
                    b,
                ))
            &&& post.total_supply == pre.total_supply
            &&& post.underlying_asset_address == pre.underlying_asset_address
            &&& post.reserve_asset_address == pre.reserve_asset_address
        })
    }

    /// Moves the scaled equivalent of `amount` at `index` between two
    /// holders, against the sender's stored balance.
    fn _transfer(&mut self, from: AccountId, to: AccountId, amount: Balance, index: u128) -> (r: Result<
        (),
        Error,
    >)
        requires
            old(self).wf(),
            index > 0,
        ensures
            final(self).wf(),
            match r {
                Ok(()) => {
                    &&& Self::spec_burn_outcome(*old(self), from, amount, index) == Ok::<(), Error>(())
                    &&& Self::spec_transfer_post(*old(self), *final(self), from, to, amount, index)
                },
                Err(e) => {
                    &&& Self::spec_burn_outcome(*old(self), from, amount, index) == Err::<(), Error>(e)
                    &&& *final(self) == *old(self)
                },
            },
    {
        let scaled = match mul_div(amount, SCALE, index) {
            Some(s) => s,
            None => {
                return Err(Error::InsufficientSupply);
            },
        };
        if scaled == 0 {
            return Err(Error::InvalidAmount);
        }
        let i = match self.find(from) {
            Some(i) => i,
            None => {
                return Err(Error::InsufficientBalance);
            },
        };
        proof {
            lemma_entry_is_the_account(self.entries@, from, i as int);
            lemma_sum_ge_entry(self.entries@, i as int);
        }
        let prior = self.entries[i].balance;
        if scaled > prior {
            return Err(Error::InsufficientBalance);
        }
        if from == to {
            return Ok(());
        }
        let e = BalanceEntry { account: from, balance: prior - scaled };
        proof {
            lemma_update_balance(self.entries@, i as int, e);
            lemma_sum_update(self.entries@, i as int, e);
        }
        self.entries[i] = e;
        self.total_supply = self.total_supply - scaled;
        proof {
            lemma_sum_nonneg(self.entries@);
        }
        self.credit(to, scaled);
        Ok(())
    }
}

} // verus!
