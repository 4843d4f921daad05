//! Fixed-point reward math: the per-second rate derived from an annual
//! rate, and the reward accrued over an elapsed interval.
//!
//! The annual rate is scaled by `RATE_DECIMALS * RATE_PERCENT` before the
//! two truncating divisions so the stored per-second rate keeps enough
//! precision; every division truncates toward zero, so the engine never
//! over-pays. Accrued amounts carry the same scale factor as the rate and
//! are descaled once, by the full factor, at the point of payout.
use vstd::prelude::*;

verus! {

use crate::cw20_stake::error::ContractError;
use crate::cw20_stake::state::{StakeInfo, StakeInfoV};

/// Decimal scaling applied to the annual rate.
pub const RATE_DECIMALS: u128 = 100000;

/// Percentage scaling applied to the annual rate.
pub const RATE_PERCENT: u128 = 100;

/// The full scale factor accrued amounts carry: what a payout divides out,
/// exactly once.
pub const RATE_SCALE: u128 = RATE_DECIMALS * RATE_PERCENT;

/// Days per year used by the rate conversion.
pub const DAYS_PER_YEAR: u128 = 365;

/// Seconds per day used by the rate conversion.
pub const SECONDS_PER_DAY: u128 = 86400;

/// The scaled reward one staked token earns each second at annual rate
/// `apr`: `floor(floor(apr * RATE_DECIMALS * RATE_PERCENT) / 365) / 86400`.
pub open spec fn per_second_rate(apr: int) -> int {
    apr * RATE_DECIMALS * RATE_PERCENT / (DAYS_PER_YEAR as int) / (SECONDS_PER_DAY as int)
}

/// Whether the scaled annual rate fits the arithmetic width.
pub open spec fn rate_fits(apr: int) -> bool {
    apr * RATE_DECIMALS * RATE_PERCENT <= u128::MAX
}

/// The scaled reward accrued on `principal` from `start` to `now` at
/// per-second rate `rate`; zero when nothing is staked.
pub open spec fn accrued_reward(rate: int, principal: int, start: int, now: int) -> int {
    if principal > 0 {
        (now - start) * rate * principal
    } else {
        0
    }
}

/// The reward one token earns each second, scaled by
/// `RATE_DECIMALS * RATE_PERCENT`.
pub fn get_reward_for_each_second(apr: u128) -> (r: Result<u128, ContractError>)
    ensures
        rate_fits(apr as int) ==> r == Ok::<u128, ContractError>(
            per_second_rate(apr as int) as u128),
        !rate_fits(apr as int) ==> (r matches Err(e) && e is Overflow),
{
    let scaled = match apr.checked_mul(RATE_DECIMALS) {
        Some(v) => v,
        None => {
            return Err(ContractError::Overflow {});
        },
    };
    let annual = match scaled.checked_mul(RATE_PERCENT) {
        Some(v) => v,
        None => {
            return Err(ContractError::Overflow {});
        },
    };
    let daily_reward = annual / DAYS_PER_YEAR;
    let second_reward = daily_reward / SECONDS_PER_DAY;
    Ok(second_reward)
}

/// Whether the accrual for `stake_info` at annual rate `apr` and time `now`
/// stays within the arithmetic width.
pub open spec fn calc_ok(apr: int, p: StakeInfoV, now: int) -> bool {
    &&& rate_fits(apr)
    &&& (p.stake_amount > 0 ==> accrued_reward(
        per_second_rate(apr), p.stake_amount as int, p.stake_start_time as int, now,
    ) <= u128::MAX)
}

/// The scaled reward `stake_info` has accrued up to `seconds` at annual
/// rate `apr`; zero when nothing is staked.
pub fn calculate_stake_reward(apr: u128, stake_info: &StakeInfo, seconds: u128) -> (r: Result<
    u128,
    ContractError,
>)
    requires
        stake_info.stake_start_time <= seconds,
    ensures
        calc_ok(apr as int, stake_info@, seconds as int) ==> r == Ok::<u128, ContractError>(
            accrued_reward(
                per_second_rate(apr as int),
                stake_info.stake_amount as int,
                stake_info.stake_start_time as int,
                seconds as int,
            ) as u128),
        !calc_ok(apr as int, stake_info@, seconds as int) ==> (r matches Err(e) && e is Overflow),
{
    let each_second_reward = match get_reward_for_each_second(apr) {
        Ok(v) => v,
        Err(e) => {
            return Err(e);
        },
    };
    if stake_info.stake_amount > 0 {
        let second_difference = seconds - stake_info.stake_start_time;
        let ghost rate = per_second_rate(apr as int);
        let ghost diff = second_difference as int;
        let ghost principal = stake_info.stake_amount as int;
        let one_token_reward = match second_difference.checked_mul(each_second_reward) {
            Some(v) => v,
            None => {
                proof {
                    assert(diff * rate * principal >= diff * rate * 1) by (nonlinear_arith)
                        requires diff >= 0, rate >= 0, principal >= 1;
                }
                return Err(ContractError::Overflow {});
            },
        };
        let reward = match one_token_reward.checked_mul(stake_info.stake_amount) {
            Some(v) => v,
            None => {
                return Err(ContractError::Overflow {});
            },
        };
        Ok(reward)
    } else {
        Ok(0)
    }
}

} // verus!
