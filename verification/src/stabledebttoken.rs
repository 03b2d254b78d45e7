//! The stable-rate debt ledger. Each borrower has a principal, a personal
//! rate locked in at borrow time, and a last-accrual timestamp; the pool
//! keeps a weighted-average rate and a principal total supply. Interest is
//! accrued lazily: any mint or burn first folds the interest accrued since
//! the position's last touch into its principal.

use vstd::prelude::*;

use crate::math::{accrual_overflows, accrued_balance, spec_accrued};
use crate::types::{AccountId, Balance, Error, Timestamp};

verus! {

/// One borrower's stable-debt position.
#[derive(Clone, Copy, Debug, PartialEq, Eq, Structural)]
pub struct DebtPosition {
    pub account: AccountId,
    /// Stored principal; accrued interest is folded in at every touch.
    pub principal: Balance,
    /// The personal stable rate, re-blended at every mint.
    pub rate: u128,
    /// When the position's interest was last folded into the principal.
    pub timestamp: Timestamp,
}

/// One credit-delegation allowance: `owner` lets `delegatee` draw debt
/// against the owner's collateral.
#[derive(Clone, Copy, Debug, PartialEq, Eq, Structural)]
pub struct AllowanceEntry {
    pub owner: AccountId,
    pub delegatee: AccountId,
    pub amount: Balance,
}

/// The intermediate values of a mint, in the order they are computed.
#[derive(Clone, Copy, Debug, PartialEq, Eq, Structural)]
pub struct MintLocalVars {
    /// Total supply with interest before the mint.
    pub previoussupply: Balance,
    /// Total supply used as the new weighting denominator.
    pub next: Balance,
    /// The minted amount as it enters the rate-weighting terms.
    pub amountinray: u128,
    /// The borrower's re-blended personal rate.
    pub newstablerate: u128,
    /// The pool average rate before the mint.
    pub currentavgstablerate: u128,
}

/// Whether some position belongs to `a`.
pub open spec fn has_position(s: Seq<DebtPosition>, a: AccountId) -> bool {
    exists|i: int| 0 <= i < s.len() && (#[trigger] s[i]).account == a
}

/// The index of `a`'s position (unique when accounts are distinct).
pub open spec fn position_index(s: Seq<DebtPosition>, a: AccountId) -> int {
    choose|i: int| 0 <= i < s.len() && (#[trigger] s[i]).account == a
}

/// `a`'s position, or an all-zero position when `a` has none.
pub open spec fn position_of(s: Seq<DebtPosition>, a: AccountId) -> DebtPosition {
    if has_position(s, a) {
        s[position_index(s, a)]
    } else {
        DebtPosition { account: a, principal: 0, rate: 0, timestamp: 0 }
    }
}

/// No two positions share an account.
pub open spec fn distinct_positions(s: Seq<DebtPosition>) -> bool {
    forall|i: int, j: int|
        0 <= i < j < s.len() ==> (#[trigger] s[i]).account != (#[trigger] s[j]).account
}

/// The sum of all stored principals.
pub open spec fn sum_principals(s: Seq<DebtPosition>) -> int
    decreases s.len(),
{
    if s.len() == 0 {
        0
    } else {
        sum_principals(s.drop_last()) + s.last().principal
    }
}

/// With distinct accounts, the position at any index holding `a` is the
/// one `position_of` reads.
pub proof fn lemma_position_at(s: Seq<DebtPosition>, a: AccountId, i: int)
    requires
        distinct_positions(s),
        0 <= i < s.len(),
        s[i].account == a,
    ensures
        has_position(s, a),
        position_index(s, a) == i,
        position_of(s, a) == s[i],
{
    assert(has_position(s, a));
    let j = position_index(s, a);
    if i < j {
        assert(s[i].account != s[j].account);
    } else if j < i {
        assert(s[j].account != s[i].account);
    }
}

/// Updating the position at `i` in place changes only that account.
pub proof fn lemma_update_position(s: Seq<DebtPosition>, i: int, e: DebtPosition)
    requires
        distinct_positions(s),
        0 <= i < s.len(),
        s[i].account == e.account,
    ensures
        distinct_positions(s.update(i, e)),
        position_of(s.update(i, e), e.account) == e,
        forall|b: AccountId|
            b != e.account ==> #[trigger] position_of(s.update(i, e), b) == position_of(s, b),
{
    let t = s.update(i, e);
    assert forall|p: int, q: int| 0 <= p < q < t.len() implies (#[trigger] t[p]).account != (
    #[trigger] t[q]).account by {
        assert(s[p].account != s[q].account);
    }
    lemma_position_at(t, e.account, i);
    assert forall|b: AccountId| b != e.account implies #[trigger] position_of(t, b) == position_of(
        s,
        b,
    ) by {
        if has_position(s, b) {
            let j = position_index(s, b);
            assert(s[j].account == b);
            assert(j != i);
            lemma_position_at(t, b, j);
            lemma_position_at(s, b, j);
        } else {
            assert forall|k: int| 0 <= k < t.len() implies (#[trigger] t[k]).account != b by {
                if k != i {
                    assert(s[k].account != b);
                }
            }
            assert(!has_position(t, b));
        }
    }
}

/// Appending a position for a new account changes only that account.
pub proof fn lemma_push_position(s: Seq<DebtPosition>, e: DebtPosition)
    requires
        distinct_positions(s),
        !has_position(s, e.account),
    ensures
        distinct_positions(s.push(e)),
        position_of(s.push(e), e.account) == e,
        forall|b: AccountId|
            b != e.account ==> #[trigger] position_of(s.push(e), b) == position_of(s, b),
{
    let t = s.push(e);
    assert forall|p: int, q: int| 0 <= p < q < t.len() implies (#[trigger] t[p]).account != (
    #[trigger] t[q]).account by {
        if q < s.len() {
            assert(s[p].account != s[q].account);
        } else {
            assert(t[q] == e);
            assert(s[p].account != e.account);
        }
    }
    lemma_position_at(t, e.account, s.len() as int);
    assert forall|b: AccountId| b != e.account implies #[trigger] position_of(t, b) == position_of(
        s,
        b,
    ) by {
        if has_position(s, b) {
            let j = position_index(s, b);
            assert(t[j].account == b);
            lemma_position_at(t, b, j);
            lemma_position_at(s, b, j);
        } else {
            assert forall|k: int| 0 <= k < t.len() implies (#[trigger] t[k]).account != b by {
                if k < s.len() {
                    assert(s[k].account != b);
                }
            }
            assert(!has_position(t, b));
        }
    }
}

/// The sum of all principals is never negative.
pub proof fn lemma_principal_sum_nonneg(s: Seq<DebtPosition>)
    ensures
        sum_principals(s) >= 0,
    decreases s.len(),
{
    if s.len() > 0 {
        lemma_principal_sum_nonneg(s.drop_last());
    }
}

/// Every single principal is bounded by the sum of all principals.
pub proof fn lemma_principal_sum_ge_entry(s: Seq<DebtPosition>, i: int)
    requires
        0 <= i < s.len(),
    ensures
        sum_principals(s) >= s[i].principal,
    decreases s.len(),
{
    if i == s.len() - 1 {
        lemma_principal_sum_nonneg(s.drop_last());
    } else {
        lemma_principal_sum_ge_entry(s.drop_last(), i);
        assert(s.drop_last()[i] == s[i]);
    }
}

/// Updating one position moves the sum by the difference of principals.
pub proof fn lemma_principal_sum_update(s: Seq<DebtPosition>, i: int, e: DebtPosition)
    requires
        0 <= i < s.len(),
    ensures
        sum_principals(s.update(i, e)) == sum_principals(s) - s[i].principal + e.principal,
    decreases s.len(),
{
    let t = s.update(i, e);
    if i == s.len() - 1 {
        assert(t.drop_last() =~= s.drop_last());
    } else {
        lemma_principal_sum_update(s.drop_last(), i, e);
        assert(t.drop_last() =~= s.drop_last().update(i, e));
        assert(t.last() == s.last());
    }
}

/// Appending a position adds its principal to the sum.
pub proof fn lemma_principal_sum_push(s: Seq<DebtPosition>, e: DebtPosition)
    ensures
        sum_principals(s.push(e)) == sum_principals(s) + e.principal,
{
    assert(s.push(e).drop_last() =~= s);
}

/// When every position but the one at `i` stores a zero principal, the
/// sum is exactly that one principal.
pub proof fn lemma_principal_sum_single(s: Seq<DebtPosition>, i: int)
    requires
        0 <= i < s.len(),
        forall|j: int| 0 <= j < s.len() && j != i ==> (#[trigger] s[j]).principal == 0,
    ensures
        sum_principals(s) == s[i].principal,
    decreases s.len(),
{
    if i == s.len() - 1 {
        lemma_principal_sum_all_zero(s.drop_last());
    } else {
        lemma_principal_sum_single(s.drop_last(), i);
        assert(s.drop_last()[i] == s[i]);
        assert(s.last().principal == 0);
    }
}

/// A ledger of all-zero principals sums to zero.
pub proof fn lemma_principal_sum_all_zero(s: Seq<DebtPosition>)
    requires
        forall|j: int| 0 <= j < s.len() ==> (#[trigger] s[j]).principal == 0,
    ensures
        sum_principals(s) == 0,
    decreases s.len(),
{
    if s.len() > 0 {
        lemma_principal_sum_all_zero(s.drop_last());
    }
}

/// Whether some allowance entry carries the pair (`o`, `d`).
pub open spec fn has_allowance(s: Seq<AllowanceEntry>, o: AccountId, d: AccountId) -> bool {
    exists|i: int|
        0 <= i < s.len() && (#[trigger] s[i]).owner == o && s[i].delegatee == d
}

/// The index of the (`o`, `d`) entry (unique when pairs are distinct).
pub open spec fn allowance_index(s: Seq<AllowanceEntry>, o: AccountId, d: AccountId) -> int {
    choose|i: int| 0 <= i < s.len() && (#[trigger] s[i]).owner == o && s[i].delegatee == d
}

/// The allowance granted by `o` to `d`; zero when no entry exists.
pub open spec fn allowance_of(s: Seq<AllowanceEntry>, o: AccountId, d: AccountId) -> Balance {
    if has_allowance(s, o, d) {
        s[allowance_index(s, o, d)].amount
    } else {
        0
    }
}

/// No two allowance entries share the (owner, delegatee) pair.
pub open spec fn distinct_allowances(s: Seq<AllowanceEntry>) -> bool {
    forall|i: int, j: int|
        0 <= i < j < s.len() ==> ((#[trigger] s[i]).owner != (#[trigger] s[j]).owner || s[i].delegatee
            != s[j].delegatee)
}

/// With distinct pairs, the entry at any index holding the pair is the
/// one `allowance_of` reads.
pub proof fn lemma_allowance_at(s: Seq<AllowanceEntry>, o: AccountId, d: AccountId, i: int)
    requires
        distinct_allowances(s),
        0 <= i < s.len(),
        s[i].owner == o,
        s[i].delegatee == d,
    ensures
        has_allowance(s, o, d),
        allowance_index(s, o, d) == i,
        allowance_of(s, o, d) == s[i].amount,
{
    assert(has_allowance(s, o, d));
    let j = allowance_index(s, o, d);
    if i < j {
        assert(s[i].owner != s[j].owner || s[i].delegatee != s[j].delegatee);
    } else if j < i {
        assert(s[j].owner != s[i].owner || s[j].delegatee != s[i].delegatee);
    }
}

/// Updating the entry at `i` in place changes only that pair's allowance.
pub proof fn lemma_update_allowance(s: Seq<AllowanceEntry>, i: int, e: AllowanceEntry)
    requires
        distinct_allowances(s),
        0 <= i < s.len(),
        s[i].owner == e.owner,
        s[i].delegatee == e.delegatee,
    ensures
        distinct_allowances(s.update(i, e)),
        allowance_of(s.update(i, e), e.owner, e.delegatee) == e.amount,
        forall|o: AccountId, d: AccountId|
            !(o == e.owner && d == e.delegatee) ==> #[trigger] allowance_of(s.update(i, e), o, d)
                == allowance_of(s, o, d),
{
    let t = s.update(i, e);
    assert forall|p: int, q: int| 0 <= p < q < t.len() implies ((#[trigger] t[p]).owner != (
    #[trigger] t[q]).owner || t[p].delegatee != t[q].delegatee) by {
        assert(s[p].owner != s[q].owner || s[p].delegatee != s[q].delegatee);
    }
    lemma_allowance_at(t, e.owner, e.delegatee, i);
    assert forall|o: AccountId, d: AccountId| !(o == e.owner && d == e.delegatee) implies #[trigger] allowance_of(
        t,
        o,
        d,
    ) == allowance_of(s, o, d) by {
        if has_allowance(s, o, d) {
            let j = allowance_index(s, o, d);
            assert(s[j].owner == o && s[j].delegatee == d);
            assert(j != i);
            lemma_allowance_at(t, o, d, j);
            lemma_allowance_at(s, o, d, j);
        } else {
            assert forall|k: int| 0 <= k < t.len() implies !((#[trigger] t[k]).owner == o
                && t[k].delegatee == d) by {
                if k != i {
                    assert(!(s[k].owner == o && s[k].delegatee == d));
                }
            }
            assert(!has_allowance(t, o, d));
        }
    }
}

/// Appending an entry for a new pair changes only that pair's allowance.
pub proof fn lemma_push_allowance(s: Seq<AllowanceEntry>, e: AllowanceEntry)
    requires
        distinct_allowances(s),
        !has_allowance(s, e.owner, e.delegatee),
    ensures
        distinct_allowances(s.push(e)),
        allowance_of(s.push(e), e.owner, e.delegatee) == e.amount,
        forall|o: AccountId, d: AccountId|
            !(o == e.owner && d == e.delegatee) ==> #[trigger] allowance_of(s.push(e), o, d)
                == allowance_of(s, o, d),
{
    let t = s.push(e);
    assert forall|p: int, q: int| 0 <= p < q < t.len() implies ((#[trigger] t[p]).owner != (
    #[trigger] t[q]).owner || t[p].delegatee != t[q].delegatee) by {
        if q < s.len() {
            assert(s[p].owner != s[q].owner || s[p].delegatee != s[q].delegatee);
        } else {
            assert(t[q] == e);
            assert(!(s[p].owner == e.owner && s[p].delegatee == e.delegatee));
        }
    }
    lemma_allowance_at(t, e.owner, e.delegatee, s.len() as int);
    assert forall|o: AccountId, d: AccountId| !(o == e.owner && d == e.delegatee) implies #[trigger] allowance_of(
        t,
        o,
        d,
    ) == allowance_of(s, o, d) by {
        if has_allowance(s, o, d) {
            let j = allowance_index(s, o, d);
            assert(t[j].owner == o && t[j].delegatee == d);
            lemma_allowance_at(t, o, d, j);
            lemma_allowance_at(s, o, d, j);
        } else {
            assert forall|k: int| 0 <= k < t.len() implies !((#[trigger] t[k]).owner == o
                && t[k].delegatee == d) by {
                if k < s.len() {
                    assert(!(s[k].owner == o && s[k].delegatee == d));
                }
            }
            assert(!has_allowance(t, o, d));
        }
    }
}

/// A weighted average with floor division stays between its two inputs.
/// This is the weighted-rate bound for a mint: the new pool average
/// `(avg*supply + rate*amount) / (supply + amount)` never leaves the
/// interval spanned by the old average and the freshly minted rate, and
/// the same holds for the re-blended personal rate.
pub proof fn lemma_weighted_avg_bounds(avg: int, supply: int, rate: int, amount: int)
    requires
        avg >= 0,
        supply >= 0,
        rate >= 0,
        amount > 0,
    ensures
        (if avg <= rate { avg } else { rate }) <= (avg * supply + rate * amount) / (supply + amount),
        (avg * supply + rate * amount) / (supply + amount) <= (if avg <= rate { rate } else { avg }),
{
    let lo = if avg <= rate { avg } else { rate };
    let hi = if avg <= rate { rate } else { avg };
    let num = avg * supply + rate * amount;
    let den = supply + amount;
    assert(lo * den <= num && num <= hi * den) by (nonlinear_arith)
        requires
            lo <= avg,
            lo <= rate,
            avg <= hi,
            rate <= hi,
            supply >= 0,
            amount > 0,
            num == avg * supply + rate * amount,
            den == supply + amount,
    ;
    vstd::arithmetic::div_mod::lemma_div_is_ordered(lo * den, num, den);
    vstd::arithmetic::div_mod::lemma_div_multiples_vanish(lo, den);
    vstd::arithmetic::div_mod::lemma_div_is_ordered(num, hi * den, den);
    vstd::arithmetic::div_mod::lemma_div_multiples_vanish(hi, den);
}

/// The stable-debt ledger.
pub struct Stabledebttoken {
    /// The asset whose borrows this ledger tracks.
    pub underlying_asset_address: AccountId,
    pub positions: Vec<DebtPosition>,
    pub borrowallowances: Vec<AllowanceEntry>,
    /// Principal total supply; always the sum of all stored principals.
    pub total_supply: Balance,
    /// Pool-wide weighted-average stable rate.
    pub avgstablerate: u128,
    /// When the total supply last accrued.
    pub totalsupplytimestamp: Timestamp,
}

impl Stabledebttoken {
    /// Internal consistency: accounts and delegation pairs are unique,
    /// the recorded total is exactly the sum of the stored principals
    /// (conservation), and no position is newer than the supply stamp.
    pub open spec fn wf(self) -> bool {
        &&& distinct_positions(self.positions@)
        &&& distinct_allowances(self.borrowallowances@)
        &&& self.total_supply as int == sum_principals(self.positions@)
        &&& (forall|i: int|
            0 <= i < self.positions@.len() ==> (#[trigger] self.positions@[i]).timestamp
                <= self.totalsupplytimestamp)
    }

    /// The stored principal of `a`.
    pub open spec fn spec_principal_of(self, a: AccountId) -> Balance {
        position_of(self.positions@, a).principal
    }

    /// The personal stable rate of `a`.
    pub open spec fn spec_rate_of(self, a: AccountId) -> u128 {
        position_of(self.positions@, a).rate
    }

    /// The last accrual timestamp of `a`.
    pub open spec fn spec_ts_of(self, a: AccountId) -> Timestamp {
        position_of(self.positions@, a).timestamp
    }

    /// The allowance `o` has granted to `d`.
    pub open spec fn spec_allowance(self, o: AccountId, d: AccountId) -> Balance {
        allowance_of(self.borrowallowances@, o, d)
    }

    /// `a`'s debt at `now`: principal plus linear interest at the
    /// personal rate since the last touch.
    pub open spec fn spec_balance_of(self, a: AccountId, now: Timestamp) -> int {
        spec_accrued(
            self.spec_principal_of(a) as int,
            self.spec_rate_of(a) as int,
            now - self.spec_ts_of(a),
        )
    }

    /// The interest accrued by `a` since the last touch; zero for an
    /// empty position.
    pub open spec fn spec_balance_increase(self, a: AccountId, now: Timestamp) -> int {
        self.spec_balance_of(a, now) - self.spec_principal_of(a)
    }

    /// Whether computing `a`'s accrued debt in `u128` steps overflows.
    pub open spec fn spec_balance_overflows(self, a: AccountId, now: Timestamp) -> bool {
        self.spec_principal_of(a) != 0 && accrual_overflows(
            self.spec_principal_of(a) as int,
            self.spec_rate_of(a) as int,
            now - self.spec_ts_of(a),
        )
    }

    /// The total supply at `now`: principal total plus linear interest at
    /// the average rate since the supply stamp; exactly zero when the
    /// principal total is zero.
    pub open spec fn spec_total_supply(self, now: Timestamp) -> int {
        if self.total_supply == 0 {
            0
        } else {
            spec_accrued(
                self.total_supply as int,
                self.avgstablerate as int,
                now - self.totalsupplytimestamp,
            )
        }
    }

    /// Whether computing the accrued total supply in `u128` steps
    /// overflows.
    pub open spec fn spec_total_overflows(self, now: Timestamp) -> bool {
        self.total_supply != 0 && accrual_overflows(
            self.total_supply as int,
            self.avgstablerate as int,
            now - self.totalsupplytimestamp,
        )
    }

    /// An empty ledger for the given underlying asset.
    pub fn new(underaddress: AccountId) -> (r: Stabledebttoken)
        ensures
            r.wf(),
            r.underlying_asset_address == underaddress,
            r.positions@.len() == 0,
            r.borrowallowances@.len() == 0,
            r.total_supply == 0,
            r.avgstablerate == 0,
            r.totalsupplytimestamp == 0,
            forall|a: AccountId| #[trigger] r.spec_principal_of(a) == 0 && r.spec_rate_of(a) == 0
                && r.spec_ts_of(a) == 0,
            forall|o: AccountId, d: AccountId| #[trigger] r.spec_allowance(o, d) == 0,
    {
        let r = Stabledebttoken {
            underlying_asset_address: underaddress,
            positions: Vec::new(),
            borrowallowances: Vec::new(),
            total_supply: 0,
            avgstablerate: 0,
            totalsupplytimestamp: 0,
        };
        proof {
            assert(forall|a: AccountId| !has_position(r.positions@, a));
            assert(forall|o: AccountId, d: AccountId| !has_allowance(r.borrowallowances@, o, d));
        }
        r
    }

    /// The index of `a`'s position, if there is one.
    fn find_position(&self, a: AccountId) -> (r: Option<usize>)
        ensures
            match r {
                Some(i) => i < self.positions@.len() && self.positions@[i as int].account == a,
                None => !has_position(self.positions@, a),
            },
    {
        let mut i: usize = 0;
        while i < self.positions.len()
            invariant
                i <= self.positions@.len(),
                forall|j: int| 0 <= j < i ==> (#[trigger] self.positions@[j]).account != a,
            decreases self.positions@.len() - i,
        {
            if self.positions[i].account == a {
                return Some(i);
            }
            i += 1;
        }
        None
    }

    /// The index of the (`o`, `d`) allowance entry, if there is one.
    fn find_allowance(&self, o: AccountId, d: AccountId) -> (r: Option<usize>)
        ensures
            match r {
                Some(i) => i < self.borrowallowances@.len() && self.borrowallowances@[i as int].owner
                    == o && self.borrowallowances@[i as int].delegatee == d,
                None => !has_allowance(self.borrowallowances@, o, d),
            },
    {
        let mut i: usize = 0;
        while i < self.borrowallowances.len()
            invariant
                i <= self.borrowallowances@.len(),
                forall|j: int|
                    0 <= j < i ==> !((#[trigger] self.borrowallowances@[j]).owner == o
                        && self.borrowallowances@[j].delegatee == d),
            decreases self.borrowallowances@.len() - i,
        {
            if self.borrowallowances[i].owner == o && self.borrowallowances[i].delegatee == d {
                return Some(i);
            }
            i += 1;
        }
        None
    }

    /// Delegates borrowing power: sets the allowance of the calling
    /// `delegator` for `delegatee` to `amount`, replacing any prior value.
    pub fn approvedelegation(&mut self, delegator: AccountId, delegatee: AccountId, amount: Balance)
        requires
            old(self).wf(),
        ensures
            final(self).wf(),
            final(self).spec_allowance(delegator, delegatee) == amount,
            forall|o: AccountId, d: AccountId|
                !(o == delegator && d == delegatee) ==> #[trigger] final(self).spec_allowance(o, d)
                    == old(self).spec_allowance(o, d),
            final(self).positions@ == old(self).positions@,
            final(self).total_supply == old(self).total_supply,
            final(self).avgstablerate == old(self).avgstablerate,
            final(self).totalsupplytimestamp == old(self).totalsupplytimestamp,
            final(self).underlying_asset_address == old(self).underlying_asset_address,
    {
        let e = AllowanceEntry { owner: delegator, delegatee, amount };
        match self.find_allowance(delegator, delegatee) {
            Some(i) => {
                proof {
                    lemma_update_allowance(self.borrowallowances@, i as int, e);
                }
                self.borrowallowances[i] = e;
            },
            None => {
                proof {
                    lemma_push_allowance(self.borrowallowances@, e);
                }
                self.borrowallowances.push(e);
            },
        }
    }

    /// The current borrow allowance granted by `fromuser` to `touser`.
    pub fn borrowallowance(&self, fromuser: AccountId, touser: AccountId) -> (r: Balance)
        requires
            self.wf(),
        ensures
            r == self.spec_allowance(fromuser, touser),
    {
        match self.find_allowance(fromuser, touser) {
            Some(i) => {
                proof {
                    lemma_allowance_at(self.borrowallowances@, fromuser, touser, i as int);
                }
                self.borrowallowances[i].amount
            },
            None => 0,
        }
    }

    /// Consumes `amount` of the allowance granted by `delegator` to
    /// `delegatee`; refuses when the allowance is smaller.
    pub fn decreaseborrowallowance(
        &mut self,
        delegator: AccountId,
        delegatee: AccountId,
        amount: Balance,
    ) -> (r: Result<(), Error>)
        requires
            old(self).wf(),
        ensures
            final(self).wf(),
            match r {
                Ok(()) => {
                    &&& old(self).spec_allowance(delegator, delegatee) >= amount
                    &&& final(self).spec_allowance(delegator, delegatee) == old(self).spec_allowance(
                        delegator,
                        delegatee,
                    ) - amount
                    &&& (forall|o: AccountId, d: AccountId|
                        !(o == delegator && d == delegatee)
                            ==> #[trigger] final(self).spec_allowance(o, d)
                            == old(self).spec_allowance(o, d))
                    &&& final(self).positions@ == old(self).positions@
                    &&& final(self).total_supply == old(self).total_supply
                    &&& final(self).avgstablerate == old(self).avgstablerate
                    &&& final(self).totalsupplytimestamp == old(self).totalsupplytimestamp
                    &&& final(self).underlying_asset_address == old(self).underlying_asset_address
                },
                Err(e) => {
                    &&& e == Error::InsufficientAllowance
                    &&& old(self).spec_allowance(delegator, delegatee) < amount
                    &&& *final(self) == *old(self)
                },
            },
    {
        match self.find_allowance(delegator, delegatee) {
            Some(i) => {
                proof {
                    lemma_allowance_at(self.borrowallowances@, delegator, delegatee, i as int);
                }
                let cur = self.borrowallowances[i].amount;
                if cur < amount {
                    return Err(Error::InsufficientAllowance);
                }
                let e = AllowanceEntry { owner: delegator, delegatee, amount: cur - amount };
                proof {
                    lemma_update_allowance(self.borrowallowances@, i as int, e);
                }
                self.borrowallowances[i] = e;
                Ok(())
            },
            None => {
                if amount == 0 {
                    // Nothing to consume; the missing entry stays absent.
                    return Ok(());
                }
                Err(Error::InsufficientAllowance)
            },
        }
    }

    /// The pool-wide average stable rate.
    pub fn getavgstablerate(&self) -> (r: u128)
        ensures
            r == self.avgstablerate,
    {
        self.avgstablerate
    }

    /// The timestamp of `user`'s last accrual.
    pub fn getuserlastupdated(&self, user: AccountId) -> (r: Timestamp)
        requires
            self.wf(),
        ensures
            r == self.spec_ts_of(user),
    {
        match self.find_position(user) {
            Some(i) => {
                proof {
                    lemma_position_at(self.positions@, user, i as int);
                }
                self.positions[i].timestamp
            },
            None => 0,
        }
    }

    /// The personal stable rate of `user`.
    pub fn getuserstalerate(&self, user: AccountId) -> (r: u128)
        requires
            self.wf(),
        ensures
            r == self.spec_rate_of(user),
    {
        match self.find_position(user) {
            Some(i) => {
                proof {
                    lemma_position_at(self.positions@, user, i as int);
                }
                self.positions[i].rate
            },
            None => 0,
        }
    }

    /// The timestamp at which the total supply was last updated.
    pub fn gettotalsupplylastupdated(&self) -> (r: Timestamp)
        ensures
            r == self.totalsupplytimestamp,
    {
        self.totalsupplytimestamp
    }

    /// The stored principal debt of `user`, without pending interest.
    pub fn principalbalanceof(&self, user: AccountId) -> (r: Balance)
        requires
            self.wf(),
        ensures
            r == self.spec_principal_of(user),
    {
        match self.find_position(user) {
            Some(i) => {
                proof {
                    lemma_position_at(self.positions@, user, i as int);
                }
                self.positions[i].principal
            },
            None => 0,
        }
    }

    /// The accrued debt of `account` at `now`: principal plus linear
    /// interest at the personal rate since the last touch.
    pub fn balanceof(&self, account: AccountId, now: Timestamp) -> (r: Result<Balance, Error>)
        requires
            self.wf(),
            now >= self.totalsupplytimestamp,
        ensures
            match r {
                Ok(v) => !self.spec_balance_overflows(account, now) && v == self.spec_balance_of(
                    account,
                    now,
                ),
                Err(e) => e == Error::InsufficientSupply && self.spec_balance_overflows(
                    account,
                    now,
                ),
            },
    {
        let (principal, rate, ts) = match self.find_position(account) {
            Some(i) => {
                proof {
                    lemma_position_at(self.positions@, account, i as int);
                }
                let p = self.positions[i];
                (p.principal, p.rate, p.timestamp)
            },
            None => (0, 0, 0),
        };
        if principal == 0 {
            proof {
                crate::math::lemma_zero_accrues_nothing(
                    self.spec_rate_of(account) as int,
                    now - self.spec_ts_of(account),
                );
            }
            return Ok(0);
        }
        match accrued_balance(principal, rate, now - ts) {
            Some(v) => Ok(v),
            None => Err(Error::InsufficientSupply),
        }
    }

    /// The total supply accrued to `now` at the given average rate.
    fn calctotalsupply(&self, avgrate: u128, now: Timestamp) -> (r: Result<Balance, Error>)
        requires
            self.wf(),
            now >= self.totalsupplytimestamp,
        ensures
            match r {
                Ok(v) => {
                    &&& !(self.total_supply != 0 && accrual_overflows(
                        self.total_supply as int,
                        avgrate as int,
                        now - self.totalsupplytimestamp,
                    ))
                    &&& v as int == (if self.total_supply == 0 {
                        0int
                    } else {
                        spec_accrued(
                            self.total_supply as int,
                            avgrate as int,
                            now - self.totalsupplytimestamp,
                        )
                    })
                },
                Err(e) => {
                    &&& e == Error::InsufficientSupply
                    &&& self.total_supply != 0
                    &&& accrual_overflows(
                        self.total_supply as int,
                        avgrate as int,
                        now - self.totalsupplytimestamp,
                    )
                },
            },
    {
        if self.total_supply == 0 {
            return Ok(0);
        }
        match accrued_balance(self.total_supply, avgrate, now - self.totalsupplytimestamp) {
            Some(v) => Ok(v),
            None => Err(Error::InsufficientSupply),
        }
    }

    /// The total supply accrued to `now` at the current average rate.
    fn totalsupply(&self, now: Timestamp) -> (r: Result<Balance, Error>)
        requires
            self.wf(),
            now >= self.totalsupplytimestamp,
        ensures
            match r {
                Ok(v) => !self.spec_total_overflows(now) && v == self.spec_total_supply(now),
                Err(e) => e == Error::InsufficientSupply && self.spec_total_overflows(now),
            },
    {
        self.calctotalsupply(self.avgstablerate, now)
    }

    /// The principal supply, the accrued total supply, the average rate
    /// and the supply timestamp, in that order.
    pub fn getsupplydata(&self, now: Timestamp) -> (r: Result<(Balance, Balance, u128, Timestamp), Error>)
        requires
            self.wf(),
            now >= self.totalsupplytimestamp,
        ensures
            match r {
                Ok(v) => {
                    &&& !self.spec_total_overflows(now)
                    &&& v.0 == self.total_supply
                    &&& v.1 == self.spec_total_supply(now)
                    &&& v.2 == self.avgstablerate
                    &&& v.3 == self.totalsupplytimestamp
                },
                Err(e) => e == Error::InsufficientSupply && self.spec_total_overflows(now),
            },
    {
        let avgrate = self.avgstablerate;
        match self.calctotalsupply(avgrate, now) {
            Ok(total) => Ok((self.total_supply, total, avgrate, self.totalsupplytimestamp)),
            Err(e) => Err(e),
        }
    }

    /// The accrued total supply and the average stable rate.
    pub fn gettotalsupplyandavgrate(&self, now: Timestamp) -> (r: Result<(Balance, u128), Error>)
        requires
            self.wf(),
            now >= self.totalsupplytimestamp,
        ensures
            match r {
                Ok(v) => {
                    &&& !self.spec_total_overflows(now)
                    &&& v.0 == self.spec_total_supply(now)
                    &&& v.1 == self.avgstablerate
                },
                Err(e) => e == Error::InsufficientSupply && self.spec_total_overflows(now),
            },
    {
        let avgrate = self.avgstablerate;
        match self.calctotalsupply(avgrate, now) {
            Ok(total) => Ok((total, avgrate)),
            Err(e) => Err(e),
        }
    }

    /// The previous principal, the accrued balance, and the increase
    /// between them, for `user` at `now`; all zero for an empty position.
    pub(crate) fn caculatebalanceincrease(&self, user: AccountId, now: Timestamp) -> (r: Result<
        (Balance, Balance, Balance),
        Error,
    >)
        requires
            self.wf(),
            now >= self.totalsupplytimestamp,
        ensures
            match r {
                Ok(v) => {
                    &&& !self.spec_balance_overflows(user, now)
                    &&& v.0 == self.spec_principal_of(user)
                    &&& v.1 == self.spec_balance_of(user, now)
                    &&& v.2 == self.spec_balance_increase(user, now)
                },
                Err(e) => e == Error::InsufficientSupply && self.spec_balance_overflows(user, now),
            },
    {
        let previous = self.principalbalanceof(user);
        if previous == 0 {
            proof {
                crate::math::lemma_zero_accrues_nothing(
                    self.spec_rate_of(user) as int,
                    now - self.spec_ts_of(user),
                );
            }
            return Ok((0, 0, 0));
        }
        match self.balanceof(user, now) {
            Ok(current) => {
                proof {
                    crate::math::lemma_interest_nonneg(
                        self.spec_principal_of(user) as int,
                        self.spec_rate_of(user) as int,
                        now - self.spec_ts_of(user),
                    );
                }
                Ok((previous, current, current - previous))
            },
            Err(e) => Err(e),
        }
    }

    /// Whether some `u128` step of `mint` would overflow, in the order
    /// the steps are computed.
    pub open spec fn spec_mint_overflows(
        self,
        onbehalfof: AccountId,
        amount: Balance,
        rate: u128,
        now: Timestamp,
    ) -> bool {
        let curr = self.spec_balance_of(onbehalfof, now);
        let increase = self.spec_balance_increase(onbehalfof, now);
        let oldrate = self.spec_rate_of(onbehalfof) as int;
        let prevsupply = self.spec_total_supply(now);
        ||| self.spec_balance_overflows(onbehalfof, now)
        ||| self.spec_total_overflows(now)
        ||| prevsupply + amount > u128::MAX
        ||| oldrate * curr > u128::MAX
        ||| rate * amount > u128::MAX
        ||| oldrate * curr + rate * amount > u128::MAX
        ||| curr + amount > u128::MAX
        ||| self.avgstablerate * prevsupply > u128::MAX
        ||| self.avgstablerate * prevsupply + rate * amount > u128::MAX
        ||| amount + increase > u128::MAX
        ||| self.total_supply + amount + increase > u128::MAX
    }

    /// Outcome of `mint`: a zero amount is invalid; a delegated borrow
    /// needs a sufficient allowance; any arithmetic overflow refuses the
    /// mint; otherwise it succeeds and reports whether the prior
    /// principal was zero.
    pub open spec fn spec_mint_outcome(
        self,
        user: AccountId,
        onbehalfof: AccountId,
        amount: Balance,
        rate: u128,
        now: Timestamp,
    ) -> Result<bool, Error> {
        if amount == 0 {
            Err(Error::InvalidAmount)
        } else if user != onbehalfof && self.spec_allowance(onbehalfof, user) < amount {
            Err(Error::InsufficientAllowance)
        } else if self.spec_mint_overflows(onbehalfof, amount, rate, now) {
            Err(Error::InsufficientSupply)
        } else {
            Ok(self.spec_principal_of(onbehalfof) == 0)
        }
    }

    /// Effect of a successful `mint`, stated over the ledger model:
    /// the accrued interest is folded into the principal together with
    /// the minted amount, the personal and pool rates are re-blended as
    /// weighted averages, both stay between their two inputs, and no
    /// other position or allowance moves.
    pub open spec fn spec_mint_post(
        pre: Stabledebttoken,
        post: Stabledebttoken,
        user: AccountId,
        onbehalfof: AccountId,
        amount: Balance,
        rate: u128,
        now: Timestamp,
    ) -> bool {
        let prev = pre.spec_principal_of(onbehalfof);
        let curr = pre.spec_balance_of(onbehalfof, now);
        let increase = pre.spec_balance_increase(onbehalfof, now);
        let oldrate = pre.spec_rate_of(onbehalfof) as int;
        let prevsupply = pre.spec_total_supply(now);
        let avg = pre.avgstablerate as int;
        &&& post.spec_principal_of(onbehalfof) == prev + amount + increase
        &&& post.spec_rate_of(onbehalfof) == (oldrate * curr + rate * amount) / (curr + amount)
        &&& post.spec_ts_of(onbehalfof) == now
        &&& (forall|b: AccountId|
            b != onbehalfof ==> #[trigger] position_of(post.positions@, b) == position_of(
                pre.positions@,
                b,
            ))
        &&& post.total_supply == pre.total_supply + amount + increase
        &&& post.avgstablerate == (avg * prevsupply + rate * amount) / (prevsupply + amount)
        &&& post.totalsupplytimestamp == now
        &&& (if avg <= rate { avg } else { rate as int }) <= post.avgstablerate
        &&& post.avgstablerate <= (if avg <= rate { rate as int } else { avg })
        &&& (prevsupply == 0 ==> post.avgstablerate == rate)
        &&& (if oldrate <= rate { oldrate } else { rate as int }) <= post.spec_rate_of(onbehalfof)
        &&& post.spec_rate_of(onbehalfof) <= (if oldrate <= rate { rate as int } else { oldrate })
        &&& (prev == 0 ==> post.spec_rate_of(onbehalfof) == rate)
        &&& (user != onbehalfof ==> post.spec_allowance(onbehalfof, user) == pre.spec_allowance(
            onbehalfof,
            user,
        ) - amount)
        &&& (forall|o: AccountId, d: AccountId|
            !(o == onbehalfof && d == user) ==> #[trigger] post.spec_allowance(o, d)
                == pre.spec_allowance(o, d))
        &&& (user == onbehalfof ==> post.borrowallowances@ == pre.borrowallowances@)
        &&& post.underlying_asset_address == pre.underlying_asset_address
    }

    /// Mints `amount` of stable debt to `onbehalfof` at `rate`. When
    /// `user` borrows on behalf of another account, the delegation
    /// allowance is consumed first. The accrued interest since the last
    /// touch is folded into the principal, the personal rate becomes the
    /// weighted average of the old balance at its old rate and the new
    /// amount at `rate`, and the pool average is re-weighted likewise.
    /// Returns whether the prior principal was zero.
    pub fn mint(
        &mut self,
        user: AccountId,
        onbehalfof: AccountId,
        amount: Balance,
        rate: u128,
        now: Timestamp,
    ) -> (r: Result<bool, Error>)
        requires
            old(self).wf(),
            now >= old(self).totalsupplytimestamp,
        ensures
            final(self).wf(),
            match r {
                Ok(first) => {
                    &&& old(self).spec_mint_outcome(user, onbehalfof, amount, rate, now)
                        == Ok::<bool, Error>(first)
                    &&& Self::spec_mint_post(
                        *old(self),
                        *final(self),
                        user,
                        onbehalfof,
                        amount,
                        rate,
                        now,
                    )
                },
                Err(e) => {
                    &&& old(self).spec_mint_outcome(user, onbehalfof, amount, rate, now)
                        == Err::<bool, Error>(e)
                    &&& *final(self) == *old(self)
                },
            },
    {
        if amount == 0 {
            return Err(Error::InvalidAmount);
        }
        // Credit delegation: check now, consume at commit time.
        let allow_idx: Option<usize> = if user != onbehalfof {
            match self.find_allowance(onbehalfof, user) {
                Some(i) => {
                    proof {
                        lemma_allowance_at(self.borrowallowances@, onbehalfof, user, i as int);
                    }
                    if self.borrowallowances[i].amount < amount {
                        return Err(Error::InsufficientAllowance);
                    }
                    Some(i)
                },
                None => {
                    return Err(Error::InsufficientAllowance);
                },
            }
        } else {
            None
        };
        let (previous, current, increase) = match self.caculatebalanceincrease(onbehalfof, now) {
            Ok(t) => t,
            Err(e) => {
                return Err(e);
            },
        };
        let previoussupply = match self.totalsupply(now) {
            Ok(v) => v,
            Err(e) => {
                return Err(e);
            },
        };
        let nextsupply = match previoussupply.checked_add(amount) {
            Some(v) => v,
            None => {
                return Err(Error::InsufficientSupply);
            },
        };
        let currentavgstablerate = self.avgstablerate;
        let oldrate = self.getuserstalerate(onbehalfof);
        let t1 = match oldrate.checked_mul(current) {
            Some(v) => v,
            None => {
                return Err(Error::InsufficientSupply);
            },
        };
        let t2 = match rate.checked_mul(amount) {
            Some(v) => v,
            None => {
                return Err(Error::InsufficientSupply);
            },
        };
        let num = match t1.checked_add(t2) {
            Some(v) => v,
            None => {
                return Err(Error::InsufficientSupply);
            },
        };
        let den = match current.checked_add(amount) {
            Some(v) => v,
            None => {
                return Err(Error::InsufficientSupply);
            },
        };
        let a1 = match currentavgstablerate.checked_mul(previoussupply) {
            Some(v) => v,
            None => {
                return Err(Error::InsufficientSupply);
            },
        };
        let a2 = match a1.checked_add(t2) {
            Some(v) => v,
            None => {
                return Err(Error::InsufficientSupply);
            },
        };
        let added = match amount.checked_add(increase) {
            Some(v) => v,
            None => {
                return Err(Error::InsufficientSupply);
            },
        };
        let new_total = match self.total_supply.checked_add(added) {
            Some(v) => v,
            None => {
                return Err(Error::InsufficientSupply);
            },
        };
        let vars = MintLocalVars {
            previoussupply,
            next: nextsupply,
            amountinray: amount,
            newstablerate: num / den,
            currentavgstablerate,
        };
        let newavg = a2 / vars.next;
        proof {
            lemma_weighted_avg_bounds(
                currentavgstablerate as int,
                previoussupply as int,
                rate as int,
                amount as int,
            );
            lemma_weighted_avg_bounds(oldrate as int, current as int, rate as int, amount as int);
            if previoussupply == 0 {
                vstd::arithmetic::div_mod::lemma_div_multiples_vanish(rate as int, amount as int);
            }
            if previous == 0 {
                crate::math::lemma_zero_accrues_nothing(
                    self.spec_rate_of(onbehalfof) as int,
                    now - self.spec_ts_of(onbehalfof),
                );
                vstd::arithmetic::div_mod::lemma_div_multiples_vanish(rate as int, amount as int);
            }
        }
        // Commit: consume the allowance, fold interest and amount into the
        // position, and refresh the aggregates.
        match allow_idx {
            Some(i) => {
                let cur = self.borrowallowances[i].amount;
                let e = AllowanceEntry { owner: onbehalfof, delegatee: user, amount: cur - amount };
                proof {
                    lemma_update_allowance(self.borrowallowances@, i as int, e);
                }
                self.borrowallowances[i] = e;
            },
            None => {},
        }
        let pos = DebtPosition {
            account: onbehalfof,
            principal: 0,
            rate: vars.newstablerate,
            timestamp: now,
        };
        match self.find_position(onbehalfof) {
            Some(i) => {
                proof {
                    lemma_position_at(self.positions@, onbehalfof, i as int);
                    lemma_principal_sum_ge_entry(self.positions@, i as int);
                }
                let stored = self.positions[i].principal;
                let e = DebtPosition { principal: stored + added, ..pos };
                proof {
                    lemma_update_position(self.positions@, i as int, e);
                    lemma_principal_sum_update(self.positions@, i as int, e);
                }
                self.positions[i] = e;
            },
            None => {
                let e = DebtPosition { principal: added, ..pos };
                proof {
                    lemma_push_position(self.positions@, e);
                    lemma_principal_sum_push(self.positions@, e);
                }
                self.positions.push(e);
            },
        }
        self.total_supply = new_total;
        self.avgstablerate = newavg;
        self.totalsupplytimestamp = now;
        proof {
            assert(Self::spec_mint_post(
                *old(self),
                *final(self),
                user,
                onbehalfof,
                amount,
                rate,
                now,
            ));
        }
        Ok(previous == 0)
    }

    /// Whether some `u128` step of `burn` would overflow, in the order
    /// the steps are computed.
    pub open spec fn spec_burn_overflows(self, user: AccountId, amount: Balance, now: Timestamp) -> bool {
        let increase = self.spec_balance_increase(user, now);
        let prevsupply = self.spec_total_supply(now);
        ||| self.spec_total_overflows(now)
        ||| (prevsupply > amount && (self.avgstablerate * prevsupply > u128::MAX
            || self.spec_rate_of(user) * amount > u128::MAX))
        ||| (increase > amount && self.total_supply + (increase - amount) > u128::MAX)
    }

    /// Outcome of `burn`: a zero amount is invalid, the amount may not
    /// exceed the accrued balance, and any arithmetic overflow refuses
    /// the burn.
    pub open spec fn spec_burn_outcome(self, user: AccountId, amount: Balance, now: Timestamp) -> Result<
        (),
        Error,
    > {
        if amount == 0 {
            Err(Error::InvalidAmount)
        } else if self.spec_balance_overflows(user, now) {
            Err(Error::InsufficientSupply)
        } else if amount > self.spec_balance_of(user, now) {
            Err(Error::InsufficientBalance)
        } else if self.spec_burn_overflows(user, amount, now) {
            Err(Error::InsufficientSupply)
        } else {
            Ok(())
        }
    }

    /// Effect of a successful `burn`, stated over the ledger model: the
    /// principal absorbs the accrued interest net of the burnt amount; a
    /// full repayment zeroes the personal rate and timestamp; when the
    /// amount reaches the whole accrued supply the average rate resets
    /// to zero, and likewise when rounding would drive the weighted
    /// subtraction negative; no other position or any allowance moves.
    pub open spec fn spec_burn_post(
        pre: Stabledebttoken,
        post: Stabledebttoken,
        user: AccountId,
        amount: Balance,
        now: Timestamp,
    ) -> bool {
        let prev = pre.spec_principal_of(user);
        let curr = pre.spec_balance_of(user, now);
        let increase = pre.spec_balance_increase(user, now);
        let prevsupply = pre.spec_total_supply(now);
        let avg = pre.avgstablerate as int;
        let userrate = pre.spec_rate_of(user) as int;
        &&& post.spec_principal_of(user) == prev + increase - amount
        &&& (amount == curr ==> post.spec_rate_of(user) == 0 && post.spec_ts_of(user) == 0)
        &&& (amount != curr ==> post.spec_rate_of(user) == pre.spec_rate_of(user)
            && post.spec_ts_of(user) == now)
        &&& (forall|b: AccountId|
            b != user ==> #[trigger] position_of(post.positions@, b) == position_of(
                pre.positions@,
                b,
            ))
        &&& post.total_supply == pre.total_supply + increase - amount
        &&& post.avgstablerate == (if prevsupply <= amount {
            0int
        } else if userrate * amount >= avg * prevsupply {
            0int
        } else {
            (avg * prevsupply - userrate * amount) / (prevsupply - amount)
        })
        &&& post.totalsupplytimestamp == now
        &&& post.borrowallowances@ == pre.borrowallowances@
        &&& post.underlying_asset_address == pre.underlying_asset_address
    }

    /// Burns `amount` of `user`'s stable debt. Interest is accrued first;
    /// the burn then settles the difference between the amount and the
    /// accrued interest against the stored principal, and re-weights or
    /// resets the pool average rate.
    pub fn burn(&mut self, user: AccountId, amount: Balance, now: Timestamp) -> (r: Result<(), Error>)
        requires
            old(self).wf(),
            now >= old(self).totalsupplytimestamp,
        ensures
            final(self).wf(),
            match r {
                Ok(()) => {
                    &&& old(self).spec_burn_outcome(user, amount, now) == Ok::<(), Error>(())
                    &&& Self::spec_burn_post(*old(self), *final(self), user, amount, now)
                },
                Err(e) => {
                    &&& old(self).spec_burn_outcome(user, amount, now) == Err::<(), Error>(e)
                    &&& *final(self) == *old(self)
                },
            },
    {
        if amount == 0 {
            return Err(Error::InvalidAmount);
        }
        let (previous, current, increase) = match self.caculatebalanceincrease(user, now) {
            Ok(t) => t,
            Err(e) => {
                return Err(e);
            },
        };
        if amount > current {
            return Err(Error::InsufficientBalance);
        }
        let previoussupply = match self.totalsupply(now) {
            Ok(v) => v,
            Err(e) => {
                return Err(e);
            },
        };
        let userrate = self.getuserstalerate(user);
        let newavg: u128 = if previoussupply <= amount {
            // The last borrower may repay more than the drifted supply:
            // reset instead of underflowing.
            0
        } else {
            let firstterm = match self.avgstablerate.checked_mul(previoussupply) {
                Some(v) => v,
                None => {
                    return Err(Error::InsufficientSupply);
                },
            };
            let secondterm = match userrate.checked_mul(amount) {
                Some(v) => v,
                None => {
                    return Err(Error::InsufficientSupply);
                },
            };
            if secondterm >= firstterm {
                // Rounding drift can make the subtraction negative: reset.
                0
            } else {
                (firstterm - secondterm) / (previoussupply - amount)
            }
        };
        let i = match self.find_position(user) {
            Some(i) => i,
            None => {
                // A burnable balance implies a stored position.
                proof {
                    crate::math::lemma_zero_accrues_nothing(
                        self.spec_rate_of(user) as int,
                        now - self.spec_ts_of(user),
                    );
                    assert(false);
                }
                return Err(Error::InsufficientBalance);
            },
        };
        proof {
            lemma_position_at(self.positions@, user, i as int);
            lemma_principal_sum_ge_entry(self.positions@, i as int);
        }
        let (new_principal, new_total) = if increase > amount {
            let extra = increase - amount;
            let nt = match self.total_supply.checked_add(extra) {
                Some(v) => v,
                None => {
                    return Err(Error::InsufficientSupply);
                },
            };
            (previous + extra, nt)
        } else {
            let burned = amount - increase;
            (previous - burned, self.total_supply - burned)
        };
        let e = DebtPosition {
            account: user,
            principal: new_principal,
            rate: if amount == current {
                0
            } else {
                userrate
            },
            timestamp: if amount == current {
                0
            } else {
                now
            },
        };
        proof {
            lemma_update_position(self.positions@, i as int, e);
            lemma_principal_sum_update(self.positions@, i as int, e);
        }
        self.positions[i] = e;
        self.total_supply = new_total;
        self.avgstablerate = newavg;
        self.totalsupplytimestamp = now;
        Ok(())
    }
}

/// A single position's principal never exceeds the principal total.
pub proof fn lemma_principal_le_total(t: Stabledebttoken, a: AccountId)
    requires
        t.wf(),
    ensures
        t.spec_principal_of(a) <= t.total_supply,
{
    if has_position(t.positions@, a) {
        let i = position_index(t.positions@, a);
        lemma_principal_sum_ge_entry(t.positions@, i);
    }
}

/// Conservation: in every well-formed ledger state — and `mint` and
/// `burn` keep the ledger well-formed — the recorded principal total
/// supply equals the sum of all stored principals exactly.
pub proof fn lemma_conservation(t: Stabledebttoken)
    requires
        t.wf(),
    ensures
        t.total_supply as int == sum_principals(t.positions@),
{
}

/// Zero-position reset: burning a user's entire accrued balance zeroes
/// the personal rate and timestamp, and when that user was the last
/// position — no other position stores principal and the burn covers the
/// whole accrued supply — the principal total supply and the average
/// stable rate collapse to exactly zero.
pub proof fn lemma_zero_position_reset(
    pre: Stabledebttoken,
    post: Stabledebttoken,
    user: AccountId,
    amount: Balance,
    now: Timestamp,
)
    requires
        pre.wf(),
        Stabledebttoken::spec_burn_post(pre, post, user, amount, now),
        amount == pre.spec_balance_of(user, now),
        forall|j: int|
            0 <= j < pre.positions@.len() && (#[trigger] pre.positions@[j]).account != user
                ==> pre.positions@[j].principal == 0,
        pre.spec_total_supply(now) <= amount,
    ensures
        post.spec_rate_of(user) == 0,
        post.spec_ts_of(user) == 0,
        post.total_supply == 0,
        post.avgstablerate == 0,
{
    let prev = pre.spec_principal_of(user);
    let curr = pre.spec_balance_of(user, now);
    let increase = pre.spec_balance_increase(user, now);
    if has_position(pre.positions@, user) {
        let i = position_index(pre.positions@, user);
        assert(pre.positions@[i].account == user);
        assert forall|j: int| 0 <= j < pre.positions@.len() && j != i implies (
        #[trigger] pre.positions@[j]).principal == 0 by {
            if pre.positions@[j].account == user {
                assert(distinct_positions(pre.positions@));
                if j < i {
                    assert(pre.positions@[j].account != pre.positions@[i].account);
                } else {
                    assert(pre.positions@[i].account != pre.positions@[j].account);
                }
            }
        }
        lemma_principal_sum_single(pre.positions@, i);
        assert(pre.total_supply == prev);
    } else {
        assert(prev == 0);
        assert forall|j: int| 0 <= j < pre.positions@.len() implies (
        #[trigger] pre.positions@[j]).principal == 0 by {
            assert(pre.positions@[j].account != user);
        }
        lemma_principal_sum_all_zero(pre.positions@);
        assert(pre.total_supply == 0);
    }
    assert(post.total_supply == pre.total_supply + increase - amount);
    assert(amount == curr == prev + increase);
}

} // verus!
