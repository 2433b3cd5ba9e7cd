//! A time-locked savings ledger: accounts lock a principal for a chosen
//! period, earn time-proportional interest with a duration bonus, and are paid
//! principal plus interest once the lock expires.

pub mod account;
pub mod error;
pub mod laws;
pub mod rewards;
pub mod state;
pub mod vault;
pub mod wide;
