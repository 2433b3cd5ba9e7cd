use vstd::prelude::*;

use crate::account::Account;
use crate::rewards::{emergency_payout_spec, owed_rewards, pending_fits, pending_spec, DepositRecord};

verus! {

/// The mathematical model of the ledger.
pub struct VaultState {
    /// One entry per account that has ever deposited, keys unique.
    pub entries: Seq<(Account, DepositRecord)>,
    /// Aggregate locked principal.
    pub total_locked: u128,
    /// The administrator; `None` before initialization.
    pub owner: Option<Account>,
    /// One-way emergency gate.
    pub emergency_mode: bool,
    /// Interest per unit principal per second, scaled by 10^18.
    pub base_reward_rate: u128,
    /// Duration bonus in basis points per day of lock.
    pub time_bonus_multiplier: u128,
}

/// Sum of the locked principal over `s`.
pub open spec fn sum_amounts(s: Seq<(Account, DepositRecord)>) -> int
    decreases s.len(),
{
    if s.len() == 0 {
        0
    } else {
        sum_amounts(s.drop_last()) + s.last().1.amount
    }
}

/// No two entries of `s` belong to the same account.
pub open spec fn unique_keys(s: Seq<(Account, DepositRecord)>) -> bool {
    forall|i: int, j: int|
        0 <= i < s.len() && 0 <= j < s.len() && i != j ==> #[trigger] s[i].0@ != #[trigger] s[j].0@
}

/// Whether `s` holds an entry for `a`.
pub open spec fn has_key(s: Seq<(Account, DepositRecord)>, a: Account) -> bool {
    exists|i: int| 0 <= i < s.len() && #[trigger] s[i].0@ == a@
}

/// The record of `a` in `s`; the empty record where `s` holds none.
pub open spec fn lookup(s: Seq<(Account, DepositRecord)>, a: Account) -> DepositRecord {
    if has_key(s, a) {
        s[choose|i: int| 0 <= i < s.len() && #[trigger] s[i].0@ == a@].1
    } else {
        DepositRecord::empty_spec()
    }
}

impl VaultState {
    /// The deposit record of `a`.
    pub open spec fn record(self, a: Account) -> DepositRecord {
        lookup(self.entries, a)
    }

    /// Sum of the principal over all accounts.
    pub open spec fn locked_sum(self) -> int {
        sum_amounts(self.entries)
    }

    /// The ledger's invariant: one record per account, each well formed, and
    /// the aggregate total equal to the sum of the principal over all accounts.
    pub open spec fn inv(self) -> bool {
        &&& unique_keys(self.entries)
        &&& forall|i: int| 0 <= i < self.entries.len() ==> (#[trigger] self.entries[i]).1.wf()
        &&& self.total_locked == self.locked_sum()
    }

    /// `a` is the administrator.
    pub open spec fn is_owner(self, a: Account) -> bool {
        self.owner matches Some(o) && o@ == a@
    }

    /// Everything but the records and the total is the same in `self` and `t`.
    pub open spec fn same_parameters(self, t: VaultState) -> bool {
        &&& t.owner == self.owner
        &&& t.emergency_mode == self.emergency_mode
        &&& t.base_reward_rate == self.base_reward_rate
        &&& t.time_bonus_multiplier == self.time_bonus_multiplier
    }

    /// `t` is `self` with the record of `a` replaced by `r` and the total set
    /// to `total`.
    pub open spec fn updated(self, a: Account, r: DepositRecord, total: int, t: VaultState) -> bool {
        &&& self.same_parameters(t)
        &&& t.total_locked == total
        &&& t.record(a) == r
        &&& forall|b: Account| b@ != a@ ==> #[trigger] t.record(b) == self.record(b)
    }

    /// Unsettled interest of `a` at `now`.
    pub open spec fn pending(self, a: Account, now: u64) -> int {
        pending_spec(self.record(a), self.base_reward_rate, self.time_bonus_multiplier, now)
    }

    /// Settled and unsettled interest of `a` at `now`.
    pub open spec fn owed(self, a: Account, now: u64) -> int {
        owed_rewards(self.record(a), self.base_reward_rate, self.time_bonus_multiplier, now)
    }

    /// The unsettled interest of `a` at `now` can be computed without overflow.
    pub open spec fn pending_computable(self, a: Account, now: u64) -> bool {
        pending_fits(self.record(a), self.base_reward_rate, self.time_bonus_multiplier, now)
    }

    /// The record that a deposit of `value` for `period` seconds at `now`
    /// leaves for `a`: the value tops up the principal, earlier interest is
    /// settled and carried forward, and the lock restarts at `now`.
    pub open spec fn deposited_record(self, a: Account, value: u128, period: u64, now: u64) -> DepositRecord {
        DepositRecord {
            amount: (self.record(a).amount + value) as u128,
            lock_start: now,
            unlock_time: (now + period) as u64,
            last_reward_claim: now,
            accrued_rewards: self.owed(a, now) as u128,
        }
    }

    /// A deposit by `a` of `value` for `period` seconds at `now` overflows nowhere.
    pub open spec fn deposit_fits(self, a: Account, value: u128, period: u64, now: u64) -> bool {
        &&& self.pending_computable(a, now)
        &&& self.owed(a, now) <= u128::MAX
        &&& now + period <= u64::MAX
        &&& self.record(a).amount + value <= u128::MAX
        &&& self.total_locked + value <= u128::MAX
    }

    /// A withdrawal by `a` at `now` overflows nowhere.
    pub open spec fn withdraw_fits(self, a: Account, now: u64) -> bool {
        &&& self.pending_computable(a, now)
        &&& self.record(a).amount + self.owed(a, now) <= u128::MAX
    }

    /// A claim by `a` at `now` overflows nowhere.
    pub open spec fn claim_fits(self, a: Account, now: u64) -> bool {
        &&& self.pending_computable(a, now)
        &&& self.owed(a, now) <= u128::MAX
    }

    /// `t` is the state after `a` withdrew `paid` at `now`: principal plus all
    /// interest, with the record cleared.
    pub open spec fn withdraw_result(self, a: Account, now: u64, paid: u128, t: VaultState) -> bool {
        &&& paid == self.record(a).amount + self.owed(a, now)
        &&& self.updated(a, DepositRecord::empty_spec(), self.total_locked - self.record(a).amount, t)
    }

    /// `t` is the state after `a` left early with `paid`: the principal less
    /// the penalty, interest forfeited, the record cleared.
    pub open spec fn emergency_result(self, a: Account, paid: u128, t: VaultState) -> bool {
        &&& paid == emergency_payout_spec(self.record(a).amount as int)
        &&& self.updated(a, DepositRecord::empty_spec(), self.total_locked - self.record(a).amount, t)
    }

    /// `t` is the state after `a` claimed `paid` at `now`: all interest owed,
    /// settled up to `now`; nothing changes when nothing is owed.
    pub open spec fn claim_result(self, a: Account, now: u64, paid: u128, t: VaultState) -> bool {
        &&& paid == self.owed(a, now)
        &&& paid == 0 ==> t == self
        &&& paid > 0 ==> self.updated(a, claimed_record(self.record(a), now), self.total_locked as int, t)
    }

    /// What `get_deposit_info` reports for `a` at `now`: principal, unlock
    /// time, interest owed, lock start. Unsettled interest that cannot be
    /// computed counts as zero, and the interest figure saturates.
    pub open spec fn deposit_info(self, a: Account, now: u64) -> (u128, u64, u128, u64) {
        let r = self.record(a);
        let pending = if self.pending_computable(a, now) { self.pending(a, now) } else { 0 };
        let owed = r.accrued_rewards + pending;
        let rewards = if owed <= u128::MAX { owed } else { u128::MAX as int };
        (r.amount, r.unlock_time, rewards as u128, r.lock_start)
    }
}

/// `r` after its interest has been paid out up to `now`.
pub open spec fn claimed_record(r: DepositRecord, now: u64) -> DepositRecord {
    DepositRecord { last_reward_claim: now, accrued_rewards: 0, ..r }
}

/// The principal of one account never exceeds the sum over all accounts.
pub(crate) proof fn lemma_record_le_sum(v: VaultState, a: Account)
    requires
        v.inv(),
    ensures
        v.record(a).amount <= v.locked_sum(),
{
    lemma_sum_nonneg(v.entries);
    if has_key(v.entries, a) {
        let j = choose|j: int| 0 <= j < v.entries.len() && #[trigger] v.entries[j].0@ == a@;
        lemma_lookup_at(v.entries, j, a);
        lemma_sum_update(v.entries, j, (a, DepositRecord::empty_spec()));
        lemma_sum_nonneg(v.entries.update(j, (a, DepositRecord::empty_spec())));
    }
}

/// The entry found for `a` is the one that `lookup` reports.
pub(crate) proof fn lemma_lookup_at(s: Seq<(Account, DepositRecord)>, i: int, a: Account)
    requires
        unique_keys(s),
        0 <= i < s.len(),
        s[i].0@ == a@,
    ensures
        lookup(s, a) == s[i].1,
{
    assert(has_key(s, a));
    let j = choose|j: int| 0 <= j < s.len() && #[trigger] s[j].0@ == a@;
    assert(s[j].0@ == s[i].0@);
}

/// Every record of an invariant-holding state is well formed.
pub(crate) proof fn lemma_record_wf(v: VaultState, a: Account)
    requires
        v.inv(),
    ensures
        v.record(a).wf(),
{
    if has_key(v.entries, a) {
        let j = choose|j: int| 0 <= j < v.entries.len() && #[trigger] v.entries[j].0@ == a@;
        assert(v.entries[j].1.wf());
    }
}

pub(crate) proof fn lemma_sum_nonneg(s: Seq<(Account, DepositRecord)>)
    ensures
        sum_amounts(s) >= 0,
    decreases s.len(),
{
    if s.len() > 0 {
        lemma_sum_nonneg(s.drop_last());
    }
}

/// Replacing one entry changes the sum by the difference of the amounts.
pub(crate) proof fn lemma_sum_update(s: Seq<(Account, DepositRecord)>, i: int, e: (Account, DepositRecord))
    requires
        0 <= i < s.len(),
    ensures
        sum_amounts(s.update(i, e)) == sum_amounts(s) - s[i].1.amount + e.1.amount,
    decreases s.len(),
{
    let t = s.update(i, e);
    if i == s.len() - 1 {
        assert(t.drop_last() =~= s.drop_last());
    } else {
        lemma_sum_update(s.drop_last(), i, e);
        assert(t.drop_last() =~= s.drop_last().update(i, e));
    }
}

/// Replacing the entry of `a` at `i` by a record of the same account.
pub(crate) proof fn lemma_replace(s: Seq<(Account, DepositRecord)>, i: int, a: Account, r: DepositRecord)
    requires
        unique_keys(s),
        0 <= i < s.len(),
        s[i].0@ == a@,
    ensures
        unique_keys(s.update(i, (a, r))),
        lookup(s.update(i, (a, r)), a) == r,
        forall|b: Account| b@ != a@ ==> #[trigger] lookup(s.update(i, (a, r)), b) == lookup(s, b),
        sum_amounts(s.update(i, (a, r))) == sum_amounts(s) - s[i].1.amount + r.amount,
{
    let t = s.update(i, (a, r));
    assert(unique_keys(t)) by {
        assert forall|x: int, y: int|
            0 <= x < t.len() && 0 <= y < t.len() && x != y implies #[trigger] t[x].0@ != #[trigger] t[y].0@ by {
            assert(s[x].0@ != s[y].0@);
        }
    }
    lemma_lookup_at(t, i, a);
    assert forall|b: Account| b@ != a@ implies #[trigger] lookup(t, b) == lookup(s, b) by {
        if has_key(s, b) {
            let j = choose|j: int| 0 <= j < s.len() && #[trigger] s[j].0@ == b@;
            lemma_lookup_at(s, j, b);
            lemma_lookup_at(t, j, b);
        } else {
            assert(!has_key(t, b)) by {
                if has_key(t, b) {
                    let j = choose|j: int| 0 <= j < t.len() && #[trigger] t[j].0@ == b@;
                    assert(s[j].0@ == b@);
                }
            }
        }
    }
    lemma_sum_update(s, i, (a, r));
}

/// Appending an entry for an account that `s` does not hold.
pub(crate) proof fn lemma_append(s: Seq<(Account, DepositRecord)>, a: Account, r: DepositRecord)
    requires
        unique_keys(s),
        !has_key(s, a),
    ensures
        unique_keys(s.push((a, r))),
        lookup(s.push((a, r)), a) == r,
        forall|b: Account| b@ != a@ ==> #[trigger] lookup(s.push((a, r)), b) == lookup(s, b),
        sum_amounts(s.push((a, r))) == sum_amounts(s) + r.amount,
{
    let t = s.push((a, r));
    assert(unique_keys(t)) by {
        assert forall|x: int, y: int|
            0 <= x < t.len() && 0 <= y < t.len() && x != y implies #[trigger] t[x].0@ != #[trigger] t[y].0@ by {
            if x < s.len() && y < s.len() {
                assert(s[x].0@ != s[y].0@);
            } else if x < s.len() {
                assert(s[x].0@ != a@);
            } else {
                assert(s[y].0@ != a@);
            }
        }
    }
    lemma_lookup_at(t, s.len() as int, a);
    assert forall|b: Account| b@ != a@ implies #[trigger] lookup(t, b) == lookup(s, b) by {
        if has_key(s, b) {
            let j = choose|j: int| 0 <= j < s.len() && #[trigger] s[j].0@ == b@;
            lemma_lookup_at(s, j, b);
            lemma_lookup_at(t, j, b);
        } else {
            assert(!has_key(t, b)) by {
                if has_key(t, b) {
                    let j = choose|j: int| 0 <= j < t.len() && #[trigger] t[j].0@ == b@;
                    if j < s.len() {
                        assert(s[j].0@ == b@);
                    }
                }
            }
        }
    }
    assert(t.drop_last() =~= s);
}

} // verus!
