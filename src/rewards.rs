use vstd::prelude::*;

use crate::wide::{add_small, div_small, lemma_halves, mul_full, mul_wide, mul_wides, two_256};

verus! {

/// Fixed-point denominator of the base reward rate (10^18).
pub const RATE_DENOMINATOR: u128 = 1_000_000_000_000_000_000;

/// The bonus multiplier is expressed in basis points.
pub const BASIS_POINTS: u128 = 10_000;

/// Length of a day in seconds; the duration bonus grows per day of lock.
pub const SECONDS_PER_DAY: u128 = 86_400;

/// Shortest accepted lock period (one day).
pub const MIN_LOCK_PERIOD: u64 = 86_400;

/// Longest accepted lock period (365 days).
pub const MAX_LOCK_PERIOD: u64 = 31_536_000;

/// Share of the principal, in percent, forfeited by an emergency exit.
pub const PENALTY_PERCENT: u128 = 15;

/// The deposit of one account.
#[derive(Clone, Copy, Debug, PartialEq, Eq, Structural)]
pub struct DepositRecord {
    /// Locked principal; zero means no active deposit.
    pub amount: u128,
    /// When the current lock began.
    pub lock_start: u64,
    /// When the principal becomes withdrawable.
    pub unlock_time: u64,
    /// Time up to which interest has been settled into `accrued_rewards`.
    pub last_reward_claim: u64,
    /// Interest settled but not yet paid out.
    pub accrued_rewards: u128,
}

impl DepositRecord {
    /// The canonical empty record.
    pub open spec fn empty_spec() -> DepositRecord {
        DepositRecord {
            amount: 0,
            lock_start: 0,
            unlock_time: 0,
            last_reward_claim: 0,
            accrued_rewards: 0,
        }
    }

    /// An empty record is all zeros, a lock never ends before it starts, and
    /// an active lock spans an accepted lock period.
    pub open spec fn wf(self) -> bool {
        &&& self.lock_start <= self.unlock_time
        &&& self.amount == 0 ==> self == DepositRecord::empty_spec()
        &&& self.amount > 0 ==> MIN_LOCK_PERIOD <= self.unlock_time - self.lock_start <= MAX_LOCK_PERIOD
    }

    pub fn empty() -> (r: DepositRecord)
        ensures
            r == DepositRecord::empty_spec(),
    {
        DepositRecord {
            amount: 0,
            lock_start: 0,
            unlock_time: 0,
            last_reward_claim: 0,
            accrued_rewards: 0,
        }
    }
}

/// Linear interest on `amount` over `elapsed` seconds at `rate` per 10^18.
pub open spec fn base_reward(amount: int, rate: int, elapsed: int) -> int {
    amount * rate * elapsed / RATE_DENOMINATOR as int
}

/// Bonus multiplier, in basis points, for a lock of `duration` seconds.
pub open spec fn bonus_multiplier(bonus: int, duration: int) -> int {
    BASIS_POINTS as int + bonus * duration / SECONDS_PER_DAY as int
}

/// Interest earned by `r` since its last settlement, at time `now`.
pub open spec fn pending_spec(r: DepositRecord, rate: u128, bonus: u128, now: u64) -> int {
    if r.amount == 0 {
        0
    } else {
        let base = base_reward(r.amount as int, rate as int, now - r.last_reward_claim);
        let mult = bonus_multiplier(bonus as int, r.unlock_time - r.lock_start);
        base * mult / BASIS_POINTS as int
    }
}

/// Every step of `pending_spec` stays below 2^256, and the interest itself
/// fits in a `u128`.
pub open spec fn pending_fits(r: DepositRecord, rate: u128, bonus: u128, now: u64) -> bool {
    r.amount == 0 || {
        let elapsed = now - r.last_reward_claim;
        let duration = r.unlock_time - r.lock_start;
        let base = base_reward(r.amount as int, rate as int, elapsed);
        let mult = bonus_multiplier(bonus as int, duration);
        &&& r.amount * rate * elapsed < two_256()
        &&& mult < two_256()
        &&& base * mult < two_256()
        &&& base * mult / BASIS_POINTS as int <= u128::MAX
    }
}

/// Interest settled and unsettled: what a claim at `now` would pay.
pub open spec fn owed_rewards(r: DepositRecord, rate: u128, bonus: u128, now: u64) -> int {
    r.accrued_rewards + pending_spec(r, rate, bonus, now)
}

/// What an emergency exit pays out of a principal of `amount`.
pub open spec fn emergency_payout_spec(amount: int) -> int {
    amount - amount * PENALTY_PERCENT as int / 100
}

/// The interest that `r` has earned since its last settlement, computed
/// with 256-bit intermediates. `None` when a step reaches 2^256 or the
/// interest does not fit in a `u128`.
pub fn pending_interest(r: &DepositRecord, rate: u128, bonus: u128, now: u64) -> (res: Option<
    u128,
>)
    requires
        r.lock_start <= r.unlock_time,
        r.last_reward_claim <= now,
    ensures
        res is Some <==> pending_fits(*r, rate, bonus, now),
        res matches Some(v) ==> v == pending_spec(*r, rate, bonus, now),
{
    if r.amount == 0 {
        return Some(0);
    }
    let elapsed = (now - r.last_reward_claim) as u128;
    let duration = (r.unlock_time - r.lock_start) as u128;
    let scaled = mul_full(r.amount, rate);
    let product = match mul_wide(scaled, elapsed) {
        Some(v) => v,
        None => return None,
    };
    let base = div_small(product, RATE_DENOMINATOR);
    let bonus_days = div_small(mul_full(bonus, duration), SECONDS_PER_DAY);
    let mult = match add_small(bonus_days, BASIS_POINTS) {
        Some(v) => v,
        None => return None,
    };
    let total = match mul_wides(base, mult) {
        Some(v) => v,
        None => return None,
    };
    let interest = div_small(total, BASIS_POINTS);
    proof {
        lemma_halves(interest);
    }
    if interest.hi != 0 {
        return None;
    }
    Some(interest.lo)
}

/// What an emergency exit pays out of a principal of `amount`: the principal
/// less `floor(amount * 15 / 100)`, computed without overflow for any amount.
pub fn emergency_payout(amount: u128) -> (r: u128)
    ensures
        r == emergency_payout_spec(amount as int),
{
    let q = amount / 100;
    let rem = amount % 100;
    let penalty = q * PENALTY_PERCENT + rem * PENALTY_PERCENT / 100;
    proof {
        let a = amount as int;
        assert(a == 100 * (q as int) + rem as int) by (nonlinear_arith)
            requires
                q as int == a / 100,
                rem as int == a % 100,
        {
            vstd::arithmetic::div_mod::lemma_fundamental_div_mod(a, 100);
        }
        lemma_penalty_split(a, q as int, rem as int);
    }
    amount - penalty
}

proof fn lemma_penalty_split(a: int, q: int, rem: int)
    requires
        a == 100 * q + rem,
        0 <= rem < 100,
        0 <= q,
    ensures
        q * 15 + rem * 15 / 100 == a * 15 / 100,
        q * 15 + rem * 15 / 100 <= a,
{
    assert(a * 15 == rem * 15 + (q * 15) * 100) by (nonlinear_arith)
        requires
            a == 100 * q + rem,
    ;
    vstd::arithmetic::div_mod::lemma_hoist_over_denominator(rem * 15, q * 15, 100);
    assert(rem * 15 / 100 <= rem) by (nonlinear_arith)
        requires
            0 <= rem < 100,
    ;
}

} // verus!
