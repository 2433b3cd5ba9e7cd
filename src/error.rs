use vstd::prelude::*;

use crate::account::Account;

verus! {

/// Why a ledger operation failed. Each variant carries what is needed to
/// reconstruct the failing condition.
#[derive(Clone, Copy, Debug, PartialEq, Eq)]
pub enum TimeLockedVaultError {
    /// The caller is not the administrator.
    Unauthorized { sender: Account },
    /// The operation is closed while emergency mode is on.
    EmergencyModeActive { sender: Account },
    /// The operation needs emergency mode to be on.
    EmergencyModeNotActive { sender: Account },
    /// The value transfer to the caller did not succeed.
    TransferFailed { sender: Account },
    /// The requested lock period lies outside the accepted range.
    InvalidLockPeriod { lock_period: u64 },
    /// The deposited value is zero.
    InsufficientBalance { sender: Account, balance: u128, needed: u128 },
    /// The caller holds no active deposit.
    NoDeposit { sender: Account },
    /// The caller's lock has not expired yet.
    FundsStillLocked { sender: Account, unlock_time: u64 },
    /// An intermediate value of the accounting does not fit its integer type.
    ArithmeticOverflow,
}

} // verus!
