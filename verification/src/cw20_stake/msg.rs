//! The staking engine's operation and query messages, and the answers the
//! queries return. Wire decoding and encoding happen outside the engine;
//! these types carry the already-decoded plain values.
use vstd::prelude::*;

verus! {

use crate::cw20_stake::state::StakeInfo;

/// Everything an engine instance is created with.
pub struct InstantiateMsg {
    pub allowed_operators: Vec<String>,
    pub unstaking_duration: u128,
    pub apr: u128,
    pub bdog_ratio: u128,
    pub gdog_ratio: u128,
    pub token_address: String,
    pub token_source: String,
    pub reward_token_address: String,
}

/// A deposit notification from the principal token contract: `sender` has
/// already paid `amount` in, and asks for the operation in `msg`.
pub struct Cw20Receive {
    pub sender: String,
    pub amount: u128,
    pub msg: ReceiveMsg,
}

/// What a token deposit asks the engine to do with the funds.
pub enum ReceiveMsg {
    Stake {},
}

/// The mutating operations.
pub enum ExecuteMsg {
    Receive(Cw20Receive),
    StartUnstake { amount: u128 },
    ClaimUnstaked { amount: u128 },
    ClaimReward { amount: u128 },
    EditState {
        allowed_operators: Option<Vec<String>>,
        token_address: Option<String>,
        unstaking_duration: Option<u128>,
        apr: Option<u128>,
        bdog_ratio: Option<u128>,
        gdog_ratio: Option<u128>,
        token_source: Option<String>,
        reward_token_address: Option<String>,
    },
}

/// The read-only queries.
pub enum QueryMsg {
    GetUserReward { addr: String },
    GetUserStakeInfo { addr: String },
    GetState {},
    RangeStakeList { start_after: Option<String>, limit: Option<u32> },
}

/// Live reward preview for one account.
pub struct GetUserRewardResponse {
    pub amount: u128,
}

/// The global parameters and aggregate totals.
pub struct GetStateResponse {
    pub allowed_operators: Vec<String>,
    pub token_address: String,
    pub unstaking_duration: u128,
    pub apr: u128,
    pub token_source: String,
    pub total_staked: u128,
    pub total_reward: u128,
    pub reward_token_address: String,
}

/// One page of staking records, ascending by owner.
pub struct StakeListResponse {
    pub stake_list: Vec<StakeInfo>,
}

/// One account's staking record.
pub struct GetStakeResponse {
    pub info: StakeInfo,
}

/// The answer to a query, one variant per `QueryMsg` variant.
pub enum QueryAnswer {
    UserReward(GetUserRewardResponse),
    UserStakeInfo(GetStakeResponse),
    GlobalState(GetStateResponse),
    StakeList(StakeListResponse),
}

} // verus!
