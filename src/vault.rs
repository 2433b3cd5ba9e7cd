use vstd::prelude::*;

use crate::account::Account;
use crate::error::TimeLockedVaultError;
use crate::rewards::{
    emergency_payout, emergency_payout_spec, pending_interest, DepositRecord, MAX_LOCK_PERIOD, MIN_LOCK_PERIOD,
};
use crate::state::{
    claimed_record, has_key, lemma_append, lemma_lookup_at, lemma_record_le_sum, lemma_record_wf,
    lemma_replace, VaultState,
};

verus! {

/// The ledger: one deposit record per account, the aggregate locked total, the
/// reward parameters and the emergency gate.
///
/// Caller identity, the current time, the deposited value and the value
/// transfer come from the host: each operation takes them as arguments.
pub struct TimeLockedVault {
    deposits: Vec<(Account, DepositRecord)>,
    total_locked: u128,
    owner: Option<Account>,
    emergency_mode: bool,
    base_reward_rate: u128,
    time_bonus_multiplier: u128,
}

impl View for TimeLockedVault {
    type V = VaultState;

    closed spec fn view(&self) -> VaultState {
        VaultState {
            entries: self.deposits@,
            total_locked: self.total_locked,
            owner: self.owner,
            emergency_mode: self.emergency_mode,
            base_reward_rate: self.base_reward_rate,
            time_bonus_multiplier: self.time_bonus_multiplier,
        }
    }
}

impl TimeLockedVault {
    pub open spec fn wf(&self) -> bool {
        self@.inv()
    }

    /// A ledger with no owner, no deposits and zero rates.
    pub fn new() -> (r: TimeLockedVault)
        ensures
            r.wf(),
            r@.entries.len() == 0,
            r@.total_locked == 0,
            r@.owner is None,
            !r@.emergency_mode,
            r@.base_reward_rate == 0,
            r@.time_bonus_multiplier == 0,
    {
        TimeLockedVault {
            deposits: Vec::new(),
            total_locked: 0,
            owner: None,
            emergency_mode: false,
            base_reward_rate: 0,
            time_bonus_multiplier: 0,
        }
    }

    fn find(&self, a: &Account) -> (r: Option<usize>)
        ensures
            match r {
                Some(i) => i < self@.entries.len() && self@.entries[i as int].0@ == a@,
                None => !has_key(self@.entries, *a),
            },
    {
        let mut i: usize = 0;
        while i < self.deposits.len()
            invariant
                0 <= i <= self.deposits@.len(),
                forall|j: int| 0 <= j < i ==> (#[trigger] self.deposits@[j]).0@ != a@,
            decreases self.deposits@.len() - i,
        {
            if self.deposits[i].0.same(a) {
                return Some(i);
            }
            i = i + 1;
        }
        None
    }

    /// The deposit record of `a`; the empty record where `a` never deposited.
    pub fn deposit_record(&self, a: &Account) -> (r: DepositRecord)
        requires
            self.wf(),
        ensures
            r == self@.record(*a),
            r.wf(),
    {
        proof {
            lemma_record_wf(self@, *a);
        }
        match self.find(a) {
            Some(i) => {
                proof {
                    lemma_lookup_at(self@.entries, i as int, *a);
                }
                self.deposits[i].1
            },
            None => DepositRecord::empty(),
        }
    }

    /// Replaces the record of `a` by `r` and sets the total to `total`.
    fn put_record(&mut self, a: Account, r: DepositRecord, total: u128)
        requires
            old(self).wf(),
            r.wf(),
            total == old(self)@.locked_sum() - old(self)@.record(a).amount + r.amount,
        ensures
            final(self).wf(),
            old(self)@.updated(a, r, total as int, final(self)@),
            final(self)@.locked_sum() == old(self)@.locked_sum() - old(self)@.record(a).amount
                + r.amount,
    {
        match self.find(&a) {
            Some(i) => {
                proof {
                    lemma_lookup_at(self@.entries, i as int, a);
                    lemma_replace(self@.entries, i as int, a, r);
                }
                self.deposits.set(i, (a, r));
            },
            None => {
                proof {
                    lemma_append(self@.entries, a, r);
                }
                self.deposits.push((a, r));
            },
        }
        self.total_locked = total;
    }

    /// Locks `value` for `lock_period` seconds on behalf of `caller` at `now`.
    /// Interest owed on an earlier deposit is settled and carried forward;
    /// the value is then added to the principal and the lock clock restarts
    /// at `now` with the new period.
    pub fn deposit(&mut self, caller: Account, value: u128, lock_period: u64, now: u64) -> (r: Result<
        (),
        TimeLockedVaultError,
    >)
        requires
            old(self).wf(),
            old(self)@.record(caller).last_reward_claim <= now,
        ensures
            final(self).wf(),
            old(self)@.emergency_mode ==> r == Err::<(), _>(
                (TimeLockedVaultError::EmergencyModeActive { sender: caller }),
            ),
            !old(self)@.emergency_mode && value == 0 ==> r == Err::<(), _>(
                (TimeLockedVaultError::InsufficientBalance { sender: caller, balance: 0, needed: value }),
            ),
            !old(self)@.emergency_mode && value > 0 && !(MIN_LOCK_PERIOD <= lock_period
                <= MAX_LOCK_PERIOD) ==> r == Err::<(), _>(
                (TimeLockedVaultError::InvalidLockPeriod { lock_period }),
            ),
            !old(self)@.emergency_mode && value > 0 && MIN_LOCK_PERIOD <= lock_period
                <= MAX_LOCK_PERIOD ==> if old(self)@.deposit_fits(caller, value, lock_period, now) {
                r is Ok
            } else {
                r == Err::<(), _>(TimeLockedVaultError::ArithmeticOverflow)
            },
            r is Err ==> final(self)@ == old(self)@,
            r is Ok ==> old(self)@.updated(
                caller,
                old(self)@.deposited_record(caller, value, lock_period, now),
                old(self)@.total_locked + value,
                final(self)@,
            ),
    {
        if self.emergency_mode {
            return Err(TimeLockedVaultError::EmergencyModeActive { sender: caller });
        }
        if value == 0 {
            return Err(TimeLockedVaultError::InsufficientBalance { sender: caller, balance: 0, needed: value });
        }
        if lock_period < MIN_LOCK_PERIOD || lock_period > MAX_LOCK_PERIOD {
            return Err(TimeLockedVaultError::InvalidLockPeriod { lock_period });
        }
        let rec = self.deposit_record(&caller);
        let pending = match pending_interest(&rec, self.base_reward_rate, self.time_bonus_multiplier, now) {
            Some(v) => v,
            None => return Err(TimeLockedVaultError::ArithmeticOverflow),
        };
        let accrued = if rec.amount > 0 {
            match rec.accrued_rewards.checked_add(pending) {
                Some(v) => v,
                None => return Err(TimeLockedVaultError::ArithmeticOverflow),
            }
        } else {
            rec.accrued_rewards
        };
        let unlock_time = match now.checked_add(lock_period) {
            Some(v) => v,
            None => return Err(TimeLockedVaultError::ArithmeticOverflow),
        };
        let total = match self.total_locked.checked_add(value) {
            Some(v) => v,
            None => return Err(TimeLockedVaultError::ArithmeticOverflow),
        };
        let amount = match rec.amount.checked_add(value) {
            Some(v) => v,
            None => return Err(TimeLockedVaultError::ArithmeticOverflow),
        };
        let updated = DepositRecord {
            amount,
            lock_start: now,
            unlock_time,
            last_reward_claim: now,
            accrued_rewards: accrued,
        };
        self.put_record(caller, updated, total);
        Ok(())
    }

    /// Pays `caller` the principal plus all interest once the lock has
    /// expired, and clears the record. `transfer` performs the value transfer
    /// and reports whether it succeeded; the ledger changes only when it did.
    /// The closure cannot reach the ledger, which this call borrows
    /// mutably, so no reentrant call can observe the record before it clears.
    pub fn withdraw<F: FnOnce(Account, u128) -> bool>(&mut self, caller: Account, now: u64, transfer: F) -> (r:
        Result<u128, TimeLockedVaultError>)
        requires
            old(self).wf(),
            old(self)@.record(caller).last_reward_claim <= now,
            forall|a: Account, v: u128| transfer.requires((a, v)),
        ensures
            final(self).wf(),
            old(self)@.record(caller).amount == 0 ==> r == Err::<u128, _>(
                (TimeLockedVaultError::NoDeposit { sender: caller }),
            ),
            (r == Err::<u128, _>(
                (TimeLockedVaultError::FundsStillLocked {
                    sender: caller,
                    unlock_time: old(self)@.record(caller).unlock_time,
                }),
            )) <==> (old(self)@.record(caller).amount > 0 && now < old(self)@.record(caller).unlock_time),
            old(self)@.record(caller).amount > 0 && now >= old(self)@.record(caller).unlock_time
                && !old(self)@.withdraw_fits(caller, now) ==> r == Err::<u128, _>(
                TimeLockedVaultError::ArithmeticOverflow,
            ),
            old(self)@.record(caller).amount > 0 && now >= old(self)@.record(caller).unlock_time
                && old(self)@.withdraw_fits(caller, now) ==> ({
                let paid = (old(self)@.record(caller).amount + old(self)@.owed(caller, now)) as u128;
                ||| r == Ok::<u128, TimeLockedVaultError>(paid) && transfer.ensures((caller, paid), true)
                ||| r == Err::<u128, _>((TimeLockedVaultError::TransferFailed { sender: caller }))
                    && transfer.ensures((caller, paid), false)
            }),
            r is Err ==> final(self)@ == old(self)@,
            r matches Ok(paid) ==> old(self)@.withdraw_result(caller, now, paid, final(self)@),
    {
        let rec = self.deposit_record(&caller);
        if rec.amount == 0 {
            return Err(TimeLockedVaultError::NoDeposit { sender: caller });
        }
        if now < rec.unlock_time {
            return Err(TimeLockedVaultError::FundsStillLocked { sender: caller, unlock_time: rec.unlock_time });
        }
        let pending = match pending_interest(&rec, self.base_reward_rate, self.time_bonus_multiplier, now) {
            Some(v) => v,
            None => return Err(TimeLockedVaultError::ArithmeticOverflow),
        };
        let rewards = match rec.accrued_rewards.checked_add(pending) {
            Some(v) => v,
            None => return Err(TimeLockedVaultError::ArithmeticOverflow),
        };
        let paid = match rec.amount.checked_add(rewards) {
            Some(v) => v,
            None => return Err(TimeLockedVaultError::ArithmeticOverflow),
        };
        if !transfer(caller, paid) {
            return Err(TimeLockedVaultError::TransferFailed { sender: caller });
        }
        proof {
            lemma_record_le_sum(self@, caller);
        }
        let total = self.total_locked - rec.amount;
        self.put_record(caller, DepositRecord::empty(), total);
        Ok(paid)
    }

    /// Early exit while emergency mode is on: pays `caller` the principal
    /// less a 15% penalty, forfeits all interest, and clears the record. The
    /// lock is not checked. `transfer` as for `withdraw`.
    pub fn emergency_withdraw<F: FnOnce(Account, u128) -> bool>(&mut self, caller: Account, transfer: F) -> (r:
        Result<u128, TimeLockedVaultError>)
        requires
            old(self).wf(),
            forall|a: Account, v: u128| transfer.requires((a, v)),
        ensures
            final(self).wf(),
            !old(self)@.emergency_mode ==> r == Err::<u128, _>(
                (TimeLockedVaultError::EmergencyModeNotActive { sender: caller }),
            ),
            old(self)@.emergency_mode && old(self)@.record(caller).amount == 0 ==> r == Err::<u128, _>(
                (TimeLockedVaultError::NoDeposit { sender: caller }),
            ),
            old(self)@.emergency_mode && old(self)@.record(caller).amount > 0 ==> ({
                let paid = emergency_payout_spec(old(self)@.record(caller).amount as int) as u128;
                ||| r == Ok::<u128, TimeLockedVaultError>(paid) && transfer.ensures((caller, paid), true)
                ||| r == Err::<u128, _>((TimeLockedVaultError::TransferFailed { sender: caller }))
                    && transfer.ensures((caller, paid), false)
            }),
            r is Err ==> final(self)@ == old(self)@,
            r matches Ok(paid) ==> old(self)@.emergency_result(caller, paid, final(self)@),
    {
        if !self.emergency_mode {
            return Err(TimeLockedVaultError::EmergencyModeNotActive { sender: caller });
        }
        let rec = self.deposit_record(&caller);
        if rec.amount == 0 {
            return Err(TimeLockedVaultError::NoDeposit { sender: caller });
        }
        let paid = emergency_payout(rec.amount);
        if !transfer(caller, paid) {
            return Err(TimeLockedVaultError::TransferFailed { sender: caller });
        }
        proof {
            lemma_record_le_sum(self@, caller);
        }
        let total = self.total_locked - rec.amount;
        self.put_record(caller, DepositRecord::empty(), total);
        Ok(paid)
    }

    /// Pays `caller` all interest owed at `now` and settles the record up to
    /// `now`, leaving the principal locked. Nothing is transferred or changed
    /// when nothing is owed. `transfer` as for `withdraw`.
    pub fn claim_rewards<F: FnOnce(Account, u128) -> bool>(&mut self, caller: Account, now: u64, transfer: F) -> (r:
        Result<u128, TimeLockedVaultError>)
        requires
            old(self).wf(),
            old(self)@.record(caller).last_reward_claim <= now,
            forall|a: Account, v: u128| transfer.requires((a, v)),
        ensures
            final(self).wf(),
            old(self)@.record(caller).amount == 0 ==> r == Err::<u128, _>(
                (TimeLockedVaultError::NoDeposit { sender: caller }),
            ),
            old(self)@.record(caller).amount > 0 && !old(self)@.claim_fits(caller, now) ==> r == Err::<
                u128,
                _,
            >(TimeLockedVaultError::ArithmeticOverflow),
            old(self)@.record(caller).amount > 0 && old(self)@.claim_fits(caller, now) ==> ({
                let owed = old(self)@.owed(caller, now) as u128;
                if owed == 0 {
                    r == Ok::<u128, TimeLockedVaultError>(0)
                } else {
                    ||| r == Ok::<u128, TimeLockedVaultError>(owed) && transfer.ensures((caller, owed), true)
                    ||| r == Err::<u128, _>((TimeLockedVaultError::TransferFailed { sender: caller }))
                        && transfer.ensures((caller, owed), false)
                }
            }),
            r is Err ==> final(self)@ == old(self)@,
            r matches Ok(paid) ==> old(self)@.claim_result(caller, now, paid, final(self)@),
    {
        let rec = self.deposit_record(&caller);
        if rec.amount == 0 {
            return Err(TimeLockedVaultError::NoDeposit { sender: caller });
        }
        let pending = match pending_interest(&rec, self.base_reward_rate, self.time_bonus_multiplier, now) {
            Some(v) => v,
            None => return Err(TimeLockedVaultError::ArithmeticOverflow),
        };
        let owed = match rec.accrued_rewards.checked_add(pending) {
            Some(v) => v,
            None => return Err(TimeLockedVaultError::ArithmeticOverflow),
        };
        if owed == 0 {
            return Ok(0);
        }
        if !transfer(caller, owed) {
            return Err(TimeLockedVaultError::TransferFailed { sender: caller });
        }
        let settled = DepositRecord { last_reward_claim: now, accrued_rewards: 0, ..rec };
        let total = self.total_locked;
        self.put_record(caller, settled, total);
        proof {
            assert(settled == claimed_record(rec, now));
        }
        Ok(owed)
    }

    /// Makes `caller` the administrator and sets the reward parameters.
    /// Fails once an administrator exists.
    pub fn initialize(&mut self, caller: Account, base_reward_rate: u128, time_bonus_multiplier: u128) -> (r:
        Result<(), TimeLockedVaultError>)
        requires
            old(self).wf(),
        ensures
            final(self).wf(),
            old(self)@.owner is None <==> r is Ok,
            old(self)@.owner is Some ==> r == Err::<(), _>(
                (TimeLockedVaultError::Unauthorized { sender: caller }),
            ),
            r is Err ==> final(self)@ == old(self)@,
            r is Ok ==> final(self)@ == (VaultState {
                owner: Some(caller),
                emergency_mode: false,
                base_reward_rate,
                time_bonus_multiplier,
                ..old(self)@
            }),
    {
        if self.owner.is_some() {
            return Err(TimeLockedVaultError::Unauthorized { sender: caller });
        }
        self.owner = Some(caller);
        self.base_reward_rate = base_reward_rate;
        self.time_bonus_multiplier = time_bonus_multiplier;
        self.emergency_mode = false;
        Ok(())
    }

    /// Whether `caller` is the administrator.
    pub fn is_owner(&self, caller: &Account) -> (r: bool)
        ensures
            r == self@.is_owner(*caller),
    {
        match &self.owner {
            Some(o) => o.same(caller),
            None => false,
        }
    }

    /// Turns emergency mode on, for good. Only the administrator may, and only
    /// once.
    pub fn activate_emergency_mode(&mut self, caller: Account) -> (r: Result<(), TimeLockedVaultError>)
        requires
            old(self).wf(),
        ensures
            final(self).wf(),
            old(self)@.emergency_mode ==> r == Err::<(), _>(
                (TimeLockedVaultError::EmergencyModeActive { sender: caller }),
            ),
            !old(self)@.emergency_mode && !old(self)@.is_owner(caller) ==> r == Err::<(), _>(
                (TimeLockedVaultError::Unauthorized { sender: caller }),
            ),
            !old(self)@.emergency_mode && old(self)@.is_owner(caller) ==> r is Ok,
            r is Err ==> final(self)@ == old(self)@,
            r is Ok ==> final(self)@ == (VaultState { emergency_mode: true, ..old(self)@ }),
    {
        if self.emergency_mode {
            return Err(TimeLockedVaultError::EmergencyModeActive { sender: caller });
        }
        if !self.is_owner(&caller) {
            return Err(TimeLockedVaultError::Unauthorized { sender: caller });
        }
        self.emergency_mode = true;
        Ok(())
    }

    /// Replaces the base reward rate. Only the administrator may; any value is
    /// accepted.
    pub fn update_reward_rate(&mut self, caller: Account, new_rate: u128) -> (r: Result<(), TimeLockedVaultError>)
        requires
            old(self).wf(),
        ensures
            final(self).wf(),
            old(self)@.is_owner(caller) <==> r is Ok,
            !old(self)@.is_owner(caller) ==> r == Err::<(), _>(
                (TimeLockedVaultError::Unauthorized { sender: caller }),
            ),
            r is Err ==> final(self)@ == old(self)@,
            r is Ok ==> final(self)@ == (VaultState { base_reward_rate: new_rate, ..old(self)@ }),
    {
        if !self.is_owner(&caller) {
            return Err(TimeLockedVaultError::Unauthorized { sender: caller });
        }
        self.base_reward_rate = new_rate;
        Ok(())
    }

    /// Unsettled interest of `user` at `now`.
    pub fn calculate_pending_rewards(&self, user: Account, now: u64) -> (r: Result<u128, TimeLockedVaultError>)
        requires
            self.wf(),
            self@.record(user).last_reward_claim <= now,
        ensures
            self@.pending_computable(user, now) ==> r == Ok::<u128, TimeLockedVaultError>(
                self@.pending(user, now) as u128,
            ),
            !self@.pending_computable(user, now) ==> r == Err::<u128, _>(
                TimeLockedVaultError::ArithmeticOverflow,
            ),
    {
        let rec = self.deposit_record(&user);
        match pending_interest(&rec, self.base_reward_rate, self.time_bonus_multiplier, now) {
            Some(v) => Ok(v),
            None => Err(TimeLockedVaultError::ArithmeticOverflow),
        }
    }

    /// Principal, unlock time, interest owed (settled and unsettled, live at
    /// `now`) and lock start of `user`; all zero where `user` holds no deposit.
    pub fn get_deposit_info(&self, user: Account, now: u64) -> (r: (u128, u64, u128, u64))
        requires
            self.wf(),
            self@.record(user).last_reward_claim <= now,
        ensures
            r == self@.deposit_info(user, now),
    {
        let rec = self.deposit_record(&user);
        let pending = match pending_interest(&rec, self.base_reward_rate, self.time_bonus_multiplier, now) {
            Some(v) => v,
            None => 0,
        };
        (rec.amount, rec.unlock_time, rec.accrued_rewards.saturating_add(pending), rec.lock_start)
    }

    /// Aggregate locked principal.
    pub fn get_total_locked(&self) -> (r: u128)
        ensures
            r == self@.total_locked,
    {
        self.total_locked
    }

    /// The administrator, if initialized.
    pub fn owner(&self) -> (r: Option<Account>)
        ensures
            r == self@.owner,
    {
        self.owner
    }

    /// Whether emergency mode is on.
    pub fn emergency_mode(&self) -> (r: bool)
        ensures
            r == self@.emergency_mode,
    {
        self.emergency_mode
    }

    /// Interest per unit principal per second, scaled by 10^18.
    pub fn base_reward_rate(&self) -> (r: u128)
        ensures
            r == self@.base_reward_rate,
    {
        self.base_reward_rate
    }

    /// Duration bonus in basis points per day of lock.
    pub fn time_bonus_multiplier(&self) -> (r: u128)
        ensures
            r == self@.time_bonus_multiplier,
    {
        self.time_bonus_multiplier
    }
}

} // verus!
