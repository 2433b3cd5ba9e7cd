use vstd::prelude::*;

use crate::account::Account;
use crate::rewards::{base_reward, pending_spec, DepositRecord};
use crate::state::{claimed_record, VaultState};

verus! {

/// Claiming twice in a row at the same instant: the second claim pays nothing.
pub proof fn claim_twice_pays_nothing(
    s1: VaultState,
    s2: VaultState,
    s3: VaultState,
    a: Account,
    now: u64,
    first: u128,
    second: u128,
)
    requires
        s1.claim_result(a, now, first, s2),
        s2.claim_result(a, now, second, s3),
    ensures
        second == 0,
{
    if first > 0 {
        let r = claimed_record(s1.record(a), now);
        assert(s2.record(a) == r);
        assert(base_reward(r.amount as int, s2.base_reward_rate as int, 0) == 0) by (nonlinear_arith);
        assert(pending_spec(r, s2.base_reward_rate, s2.time_bonus_multiplier, now) == 0) by (
        nonlinear_arith)
            requires
                r.last_reward_claim == now,
                base_reward(r.amount as int, s2.base_reward_rate as int, 0) == 0,
        ;
    }
}

/// After a withdrawal or an emergency exit, the account reports all zeros at
/// any later time.
pub proof fn cleared_account_reports_zeros(
    s: VaultState,
    t: VaultState,
    a: Account,
    now: u64,
    paid: u128,
    later: u64,
)
    requires
        s.withdraw_result(a, now, paid, t) || s.emergency_result(a, paid, t),
    ensures
        t.deposit_info(a, later) == (0u128, 0u64, 0u128, 0u64),
{
    assert(t.record(a) == DepositRecord::empty_spec());
}

} // verus!
