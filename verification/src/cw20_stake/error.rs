//! The failure modes of the staking engine. Every operation either applies
//! its whole state transition or returns one of these and leaves the engine
//! untouched.
use vstd::prelude::*;

verus! {

/// Why a staking operation was refused.
#[derive(Debug, PartialEq)]
pub enum ContractError {
    /// The caller is not allowed to perform the operation.
    Unauthorized { msg: String },
    /// The cooldown after beginning an unstake has not elapsed yet.
    MinUnstakingTimeRequired {},
    /// A deposit arrived through a token contract the engine does not manage.
    InvalidToken {},
    /// Principal can be claimed only after an unstake was begun.
    UnstakingProcessIsNotStarted {},
    /// The requested unstake exceeds the staked balance.
    MoreThanStakeAmount {},
    /// An unstake is already pending.
    OngoingUnstakingProcess {},
    /// The requested claim exceeds the pending-unstake balance.
    AmountLargerThanUnstaked { unstaked: u128, amount: u128 },
    /// The requested claim exceeds the banked reward.
    AmountLargerThanReward { reward: u128, amount: u128 },
    /// An intermediate amount does not fit the arithmetic width.
    Overflow {},
    /// A rate denominator of zero was supplied.
    DivideByZero {},
    /// A rate numerator of zero was supplied; both rate inputs must be
    /// positive.
    InvalidRateInput {},
    /// The caller has no staking record.
    PositionNotFound {},
}

} // verus!
