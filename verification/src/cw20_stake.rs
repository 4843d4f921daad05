//! The staking and reward-accrual engine.
//!
//! One engine instance manages one principal currency and one reward
//! currency. Accounts deposit principal, earn time-weighted reward at the
//! current global rate, withdraw principal through a two-phase
//! unstake/cooldown/claim state machine, and claim their banked reward.
//! Operators may change the global rate, which settles every open position
//! at the old rate before the new one takes effect.
pub mod contract;
pub mod error;
pub mod helper;
pub mod laws;
pub mod msg;
pub mod state;
