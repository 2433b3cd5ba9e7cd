use time_locked_vault::account::Account;
use time_locked_vault::error::TimeLockedVaultError;
use time_locked_vault::rewards::{emergency_payout, pending_interest, DepositRecord};
use time_locked_vault::vault::TimeLockedVault;

const ONE_ETH: u128 = 1_000_000_000_000_000_000;
const DAY: u64 = 86_400;
const START: u64 = 1_700_000_000;

fn user(b: u8) -> Account {
    Account::new([b; 20])
}

fn ok(_: Account, _: u128) -> bool {
    true
}

fn refuse(_: Account, _: u128) -> bool {
    false
}

fn vault_with(owner: Account, rate: u128, bonus: u128) -> TimeLockedVault {
    let mut v = TimeLockedVault::new();
    assert!(v.initialize(owner, rate, bonus).is_ok());
    v
}

#[test]
fn test_contract_initialization() {
    let owner = user(9);
    let mut v = TimeLockedVault::new();
    let result = v.initialize(owner, 100, 200);
    assert!(result.is_ok());
    let result = v.initialize(owner, 150, 250);
    assert!(result.is_err());
    assert_eq!(result, Err(TimeLockedVaultError::Unauthorized { sender: owner }));
    assert_eq!(v.base_reward_rate(), 100);
    assert_eq!(v.time_bonus_multiplier(), 200);
    assert_eq!(v.owner(), Some(owner));
}

#[test]
fn test_invalid_lock_periods() {
    let a = user(1);
    let mut v = vault_with(a, 100, 200);
    // a zero value is refused before the lock period is looked at
    assert!(v.deposit(a, 0, 3600, START).is_err());
    assert!(v.deposit(a, 0, 32_000_000, START).is_err());
    match v.deposit(a, 0, 86_400, START) {
        Err(TimeLockedVaultError::InsufficientBalance { .. }) => {}
        _ => panic!("Expected InsufficientBalance error due to 0 msg.value"),
    }
}

#[test]
fn lock_period_bounds() {
    let a = user(1);
    let mut v = vault_with(a, 100, 200);
    assert_eq!(
        v.deposit(a, 5, 3600, START),
        Err(TimeLockedVaultError::InvalidLockPeriod { lock_period: 3600 })
    );
    assert_eq!(
        v.deposit(a, 5, 31_536_001, START),
        Err(TimeLockedVaultError::InvalidLockPeriod { lock_period: 31_536_001 })
    );
    assert_eq!(v.get_total_locked(), 0);
    assert!(v.deposit(a, 5, 86_400, START).is_ok());
    assert!(v.deposit(user(2), 5, 31_536_000, START).is_ok());
    assert_eq!(v.get_total_locked(), 10);
}

#[test]
fn test_reward_rate_calculations() {
    let v = vault_with(user(1), 1_000_000_000, 100);
    assert_eq!(v.base_reward_rate(), 1_000_000_000);
    assert_eq!(v.time_bonus_multiplier(), 100);
}

#[test]
fn test_owner_functions() {
    let owner = user(1);
    let mut v = vault_with(owner, 100, 200);
    assert!(v.update_reward_rate(owner, 150).is_ok());
    assert_eq!(v.base_reward_rate(), 150);
    assert!(v.activate_emergency_mode(owner).is_ok());
    assert!(v.emergency_mode());
    let result = v.activate_emergency_mode(owner);
    assert!(result.is_err());
}

#[test]
fn non_owner_is_refused() {
    let owner = user(1);
    let other = user(2);
    let mut v = vault_with(owner, 100, 200);
    assert_eq!(
        v.update_reward_rate(other, 7),
        Err(TimeLockedVaultError::Unauthorized { sender: other })
    );
    assert_eq!(v.base_reward_rate(), 100);
    assert_eq!(
        v.activate_emergency_mode(other),
        Err(TimeLockedVaultError::Unauthorized { sender: other })
    );
    assert!(!v.emergency_mode());
    let mut fresh = TimeLockedVault::new();
    assert_eq!(
        fresh.activate_emergency_mode(owner),
        Err(TimeLockedVaultError::Unauthorized { sender: owner })
    );
}

#[test]
fn test_emergency_mode_restrictions() {
    let a = user(1);
    let mut v = vault_with(a, 100, 200);
    let _ = v.activate_emergency_mode(a);
    let result = v.deposit(a, ONE_ETH, 86_400, START);
    assert!(result.is_err());
    match result {
        Err(TimeLockedVaultError::EmergencyModeActive { .. }) => {}
        _ => panic!("Expected EmergencyModeActive error"),
    }
}

#[test]
fn test_no_deposit_error_cases() {
    let a = user(1);
    let mut v = vault_with(a, 100, 200);
    match v.withdraw(a, START, ok) {
        Err(TimeLockedVaultError::NoDeposit { .. }) => {}
        _ => panic!("Expected NoDeposit error"),
    }
    match v.claim_rewards(a, START, ok) {
        Err(TimeLockedVaultError::NoDeposit { .. }) => {}
        _ => panic!("Expected NoDeposit error"),
    }
    let _ = v.activate_emergency_mode(a);
    match v.emergency_withdraw(a, ok) {
        Err(TimeLockedVaultError::NoDeposit { .. }) => {}
        _ => panic!("Expected NoDeposit error"),
    }
}

#[test]
fn test_emergency_withdraw_requires_emergency_mode() {
    let a = user(1);
    let mut v = vault_with(a, 100, 200);
    match v.emergency_withdraw(a, ok) {
        Err(TimeLockedVaultError::EmergencyModeNotActive { .. }) => {}
        _ => panic!("Expected EmergencyModeNotActive error"),
    }
}

#[test]
fn test_get_deposit_info_empty() {
    let v = vault_with(user(9), 100, 200);
    assert_eq!(v.get_deposit_info(user(1), START), (0, 0, 0, 0));
}

#[test]
fn test_total_locked_initial() {
    let v = vault_with(user(9), 100, 200);
    assert_eq!(v.get_total_locked(), 0);
}

#[test]
fn test_reward_calculation_with_zero_deposit() {
    let v = TimeLockedVault::new();
    let result = v.calculate_pending_rewards(user(1), START);
    assert!(result.is_ok());
    assert_eq!(result.unwrap(), 0);
}

#[test]
fn test_withdrawal_time_validation() {
    let a = user(1);
    let mut v = vault_with(a, 1_000_000_000, 100);
    assert!(v.deposit(a, ONE_ETH, DAY, START).is_ok());
    let result = v.withdraw(a, START, ok);
    assert_eq!(
        result,
        Err(TimeLockedVaultError::FundsStillLocked { sender: a, unlock_time: START + DAY })
    );
    let result = v.withdraw(a, START + DAY - 1, ok);
    assert!(matches!(result, Err(TimeLockedVaultError::FundsStillLocked { .. })));
    let (amount, unlock_time, rewards, lock_time) = v.get_deposit_info(a, START);
    assert_eq!(amount, ONE_ETH);
    assert_eq!(unlock_time, START + DAY);
    assert_eq!(lock_time, START);
    assert_eq!(rewards, 0);
}

#[test]
fn test_emergency_withdraw_penalty_calculation() {
    let owner = user(9);
    let a = user(1);
    let mut v = vault_with(owner, 1_000_000_000, 100);
    assert!(v.deposit(a, ONE_ETH, DAY, START).is_ok());
    assert!(v.activate_emergency_mode(owner).is_ok());
    let expected_penalty = ONE_ETH * 15 / 100;
    let expected_payout = ONE_ETH - expected_penalty;
    // a failed transfer leaves the ledger as it was
    assert_eq!(
        v.emergency_withdraw(a, refuse),
        Err(TimeLockedVaultError::TransferFailed { sender: a })
    );
    assert_eq!(v.get_total_locked(), ONE_ETH);
    assert_eq!(v.deposit_record(&a).amount, ONE_ETH);
    let mut sent = 0u128;
    let result = v.emergency_withdraw(a, |to, amount| {
        assert_eq!(to, a);
        sent = amount;
        true
    });
    assert_eq!(result, Ok(expected_payout));
    assert_eq!(sent, 850_000_000_000_000_000);
    assert_eq!(v.get_total_locked(), 0);
    assert_eq!(v.get_deposit_info(a, START + 10), (0, 0, 0, 0));
}

#[test]
fn claim_pays_interest_owed() {
    let a = user(1);
    let mut v = vault_with(a, 1_000_000_000, 100);
    assert!(v.deposit(a, ONE_ETH, DAY, START).is_ok());
    // base = 1e18 * 1e9 * 86400 / 1e18 = 86_400_000_000_000;
    // multiplier = 10000 + 100 * 86400 / 86400 = 10100
    let owed = 86_400_000_000_000u128 * 10_100 / 10_000;
    assert_eq!(owed, 87_264_000_000_000);
    let (amount, _, rewards, _) = v.get_deposit_info(a, START + DAY);
    assert_eq!(amount, ONE_ETH);
    assert_eq!(rewards, owed);
    assert_eq!(
        v.claim_rewards(a, START + DAY, refuse),
        Err(TimeLockedVaultError::TransferFailed { sender: a })
    );
    assert_eq!(v.get_deposit_info(a, START + DAY).2, owed);
    assert_eq!(v.claim_rewards(a, START + DAY, ok), Ok(owed));
    let record = v.deposit_record(&a);
    assert_eq!(record.last_reward_claim, START + DAY);
    assert_eq!(record.accrued_rewards, 0);
    assert_eq!(record.amount, ONE_ETH);
    assert_eq!(record.lock_start, START);
    assert_eq!(record.unlock_time, START + DAY);
}

#[test]
fn test_claim_rewards_with_accumulated_rewards() {
    let a = user(1);
    let deposit_amount = ONE_ETH;
    let accumulated_rewards = 100_000_000_000_000_000u128;
    // one second on half the principal at this rate, times the one-day bonus
    // of 10100 basis points, banks exactly 0.1 ETH when the rest is deposited
    let mut v = vault_with(a, 198_019_801_980_198_020, 100);
    assert!(v.deposit(a, ONE_ETH / 2, DAY, START).is_ok());
    assert!(v.deposit(a, ONE_ETH / 2, DAY, START + 1).is_ok());
    assert!(v.update_reward_rate(a, 1_000_000_000).is_ok());
    assert_eq!(v.deposit_record(&a).accrued_rewards, accumulated_rewards);
    let (amount, _, rewards, _) = v.get_deposit_info(a, START + 1);
    assert_eq!(amount, deposit_amount);
    assert_eq!(rewards, accumulated_rewards);
    let result = v.claim_rewards(a, START + 1, refuse);
    assert!(result.is_err());
    assert_eq!(result, Err(TimeLockedVaultError::TransferFailed { sender: a }));
    assert_eq!(v.claim_rewards(a, START + 1, ok), Ok(accumulated_rewards));
    assert_eq!(v.get_deposit_info(a, START + 1), (ONE_ETH, START + 1 + DAY, 0, START + 1));
}

#[test]
fn test_multiple_user_deposits() {
    let u1 = user(1);
    let u2 = user(2);
    let mut v = vault_with(user(9), 1_000_000_000, 100);
    let amount1 = ONE_ETH;
    let amount2 = 2 * ONE_ETH;
    assert!(v.deposit(u1, amount1, 86_400, START).is_ok());
    assert!(v.deposit(u2, amount2, 172_800, START).is_ok());
    let (amt1, unlock1, _, lock1) = v.get_deposit_info(u1, START);
    assert_eq!(amt1, amount1);
    assert_eq!(lock1, START);
    assert_eq!(unlock1, START + 86_400);
    let (amt2, unlock2, _, lock2) = v.get_deposit_info(u2, START);
    assert_eq!(amt2, amount2);
    assert_eq!(lock2, START);
    assert_eq!(unlock2, START + 172_800);
    assert_eq!(v.get_total_locked(), amount1 + amount2);
}

#[test]
fn total_tracks_sum_over_operations() {
    let owner = user(9);
    let (a, b, c) = (user(1), user(2), user(3));
    let mut v = vault_with(owner, 1_000_000_000, 100);
    assert!(v.deposit(a, 100, DAY, START).is_ok());
    assert!(v.deposit(b, 250, 2 * DAY, START + 5).is_ok());
    assert!(v.deposit(c, 40, DAY, START + 9).is_ok());
    assert_eq!(v.get_total_locked(), 390);
    assert!(v.withdraw(a, START + DAY, ok).is_ok());
    assert_eq!(v.get_total_locked(), 290);
    assert!(v.claim_rewards(b, START + DAY, ok).is_ok());
    assert_eq!(v.get_total_locked(), 290);
    assert!(v.deposit(a, 7, DAY, START + DAY + 1).is_ok());
    assert_eq!(v.get_total_locked(), 297);
    assert!(v.activate_emergency_mode(owner).is_ok());
    assert!(v.emergency_withdraw(c, ok).is_ok());
    assert_eq!(v.get_total_locked(), 257);
    let sum: u128 = [a, b, c].iter().map(|x| v.deposit_record(x).amount).sum();
    assert_eq!(sum, v.get_total_locked());
}

#[test]
fn redeposit_tops_up_principal_and_restarts_lock() {
    let a = user(1);
    let mut v = vault_with(a, 1_000_000_000, 100);
    assert!(v.deposit(a, ONE_ETH, DAY, START).is_ok());
    assert!(v.deposit(a, 5, 2 * DAY, START + DAY).is_ok());
    let record = v.deposit_record(&a);
    assert_eq!(record.amount, ONE_ETH + 5);
    assert_eq!(record.lock_start, START + DAY);
    assert_eq!(record.unlock_time, START + 3 * DAY);
    assert_eq!(record.last_reward_claim, START + DAY);
    // interest of the first lock is settled and carried forward
    assert_eq!(record.accrued_rewards, 87_264_000_000_000);
    assert_eq!(v.get_total_locked(), ONE_ETH + 5);
    assert_eq!(v.withdraw(a, START + 3 * DAY, ok).map(|p| p >= ONE_ETH + 5), Ok(true));
    assert_eq!(v.get_total_locked(), 0);
}

#[test]
fn second_claim_pays_nothing() {
    let a = user(1);
    let mut v = vault_with(a, 1_000_000_000, 100);
    assert!(v.deposit(a, ONE_ETH, DAY, START).is_ok());
    assert_eq!(v.claim_rewards(a, START + 100, ok), Ok(101_000_000_000));
    let mut called = false;
    let second = v.claim_rewards(a, START + 100, |_, _| {
        called = true;
        true
    });
    assert_eq!(second, Ok(0));
    assert!(!called);
}

#[test]
fn withdraw_at_unlock_time_pays_principal_and_interest() {
    let a = user(1);
    let mut v = vault_with(a, 1_000_000_000, 100);
    assert!(v.deposit(a, ONE_ETH, DAY, START).is_ok());
    assert_eq!(
        v.withdraw(a, START + DAY, refuse),
        Err(TimeLockedVaultError::TransferFailed { sender: a })
    );
    assert_eq!(v.get_total_locked(), ONE_ETH);
    assert_eq!(v.withdraw(a, START + DAY, ok), Ok(ONE_ETH + 87_264_000_000_000));
    assert_eq!(v.get_deposit_info(a, START + 2 * DAY), (0, 0, 0, 0));
    assert_eq!(v.get_total_locked(), 0);
    assert_eq!(
        v.withdraw(a, START + 2 * DAY, ok),
        Err(TimeLockedVaultError::NoDeposit { sender: a })
    );
}

#[test]
fn scenario_one_day_lock_without_interest() {
    let a = user(1);
    let mut v = vault_with(a, 0, 0);
    assert!(v.deposit(a, ONE_ETH, DAY, START).is_ok());
    let (amount, _, rewards, _) = v.get_deposit_info(a, START);
    assert_eq!(amount, ONE_ETH);
    assert_eq!(rewards, 0);
    assert_eq!(v.withdraw(a, START + DAY, ok), Ok(ONE_ETH));
    assert_eq!(v.get_deposit_info(a, START + DAY), (0, 0, 0, 0));
}

#[test]
fn scenario_emergency_exit_forfeits_interest() {
    let a = user(1);
    let mut v = vault_with(a, 1_000_000_000, 100);
    assert!(v.deposit(a, ONE_ETH, DAY, START).is_ok());
    assert_eq!(v.get_deposit_info(a, START + DAY).2, 87_264_000_000_000);
    assert_eq!(
        v.emergency_withdraw(a, ok),
        Err(TimeLockedVaultError::EmergencyModeNotActive { sender: a })
    );
    assert!(v.activate_emergency_mode(a).is_ok());
    assert_eq!(
        v.activate_emergency_mode(a),
        Err(TimeLockedVaultError::EmergencyModeActive { sender: a })
    );
    assert_eq!(v.emergency_withdraw(a, ok), Ok(850_000_000_000_000_000));
    assert_eq!(v.get_total_locked(), 0);
    assert_eq!(v.get_deposit_info(a, START + DAY), (0, 0, 0, 0));
}

#[test]
fn penalty_is_exact_for_any_amount() {
    assert_eq!(emergency_payout(0), 0);
    assert_eq!(emergency_payout(1), 1);
    assert_eq!(emergency_payout(7), 6);
    assert_eq!(emergency_payout(100), 85);
    assert_eq!(emergency_payout(199), 170);
    let max = u128::MAX;
    let penalty = (max / 100) * 15 + (max % 100) * 15 / 100;
    assert_eq!(emergency_payout(max), max - penalty);
}

#[test]
fn pending_interest_formula() {
    let r = DepositRecord {
        amount: 2 * ONE_ETH,
        lock_start: 10,
        unlock_time: 10 + 30 * DAY,
        last_reward_claim: 10,
        accrued_rewards: 5,
    };
    // base = 2e18 * 3 * 1000 / 1e18 = 6000; multiplier = 10000 + 50 * 30 = 11500
    assert_eq!(pending_interest(&r, 3, 50, 1010), Some(6000 * 11_500 / 10_000));
    assert_eq!(pending_interest(&r, 3, 50, 10), Some(0));
    assert_eq!(pending_interest(&r, u128::MAX, 50, 1010), None);
    assert_eq!(pending_interest(&r, 1u128 << 100, 50, 1010), Some(2300 * (1u128 << 100)));
    assert_eq!(pending_interest(&DepositRecord::empty(), u128::MAX, u128::MAX, 99), Some(0));
}

#[test]
fn wide_intermediates_do_not_overflow() {
    // 10,000 ETH for a year at about 10% a year: amount * rate * elapsed is
    // about 1.0e39, beyond 128 bits
    let a = user(1);
    let year = 31_536_000u64;
    let amount = 10_000 * ONE_ETH;
    let rate = 3_170_979_198u128;
    let mut v = vault_with(a, rate, 0);
    assert!(v.deposit(a, amount, year, START).is_ok());
    let base = 10_000u128 * rate * year as u128;
    assert_eq!(v.calculate_pending_rewards(a, START + year), Ok(base));
    assert_eq!(v.get_deposit_info(a, START + year).2, base);
    assert_eq!(v.withdraw(a, START + year, refuse), Err(TimeLockedVaultError::TransferFailed { sender: a }));
    assert_eq!(v.withdraw(a, START + year, ok), Ok(amount + base));
}

#[test]
fn zero_interest_with_huge_factors() {
    let a = user(1);
    let mut v = vault_with(a, 0, u128::MAX);
    assert!(v.deposit(a, u128::MAX / 2, DAY, START).is_ok());
    assert_eq!(v.calculate_pending_rewards(a, START + 1000), Ok(0));
    let mut w = vault_with(a, u128::MAX, u128::MAX);
    assert!(w.deposit(a, u128::MAX / 2, DAY, START).is_ok());
    assert_eq!(w.calculate_pending_rewards(a, START), Ok(0));
}

#[test]
fn overflow_is_reported() {
    let a = user(1);
    let mut v = vault_with(a, u128::MAX, 0);
    assert!(v.deposit(a, u128::MAX / 2, DAY, START).is_ok());
    // amount * rate * elapsed reaches 2^256
    assert_eq!(
        v.calculate_pending_rewards(a, START + 4),
        Err(TimeLockedVaultError::ArithmeticOverflow)
    );
    assert_eq!(
        v.withdraw(a, START + DAY, ok),
        Err(TimeLockedVaultError::ArithmeticOverflow)
    );
    assert_eq!(
        v.claim_rewards(a, START + 4, ok),
        Err(TimeLockedVaultError::ArithmeticOverflow)
    );
    // the live projection counts an uncomputable figure as zero
    assert_eq!(v.get_deposit_info(a, START + 4).2, 0);
    assert_eq!(
        v.deposit(a, 3, DAY, START + 4),
        Err(TimeLockedVaultError::ArithmeticOverflow)
    );
    // interest below 2^256 that does not fit in a u128
    let mut w = vault_with(a, u128::MAX, 0);
    assert!(w.deposit(a, 1u128 << 100, DAY, START).is_ok());
    assert_eq!(
        w.calculate_pending_rewards(a, START + 1),
        Err(TimeLockedVaultError::ArithmeticOverflow)
    );
    assert_eq!(
        w.deposit(user(2), 3, DAY, u64::MAX - 10),
        Err(TimeLockedVaultError::ArithmeticOverflow)
    );
    assert_eq!(w.get_total_locked(), 1u128 << 100);
    assert_eq!(
        w.deposit(a, u128::MAX, DAY, START),
        Err(TimeLockedVaultError::ArithmeticOverflow)
    );
}

#[test]
fn accounts_compare_by_bytes() {
    let mut bytes = [0u8; 20];
    bytes[19] = 1;
    assert!(Account::new(bytes).same(&Account::new(bytes)));
    assert!(!Account::new(bytes).same(&Account::new([0u8; 20])));
}
