use fortis_ledgers::cw20_stake::contract::{DEFAULT_LIMIT, MAX_LIMIT};
use fortis_ledgers::cw20_stake::error::ContractError;
use fortis_ledgers::cw20_stake::msg::{Cw20Receive, ExecuteMsg, InstantiateMsg, QueryAnswer,
    QueryMsg, ReceiveMsg};
use fortis_ledgers::cw20_stake::state::StakeEngine;

fn s(x: &str) -> String {
    x.to_string()
}

fn fresh_engine(apr: u128) -> StakeEngine {
    StakeEngine::instantiate(InstantiateMsg {
        allowed_operators: vec![s("operator")],
        unstaking_duration: 100,
        apr,
        bdog_ratio: 1,
        gdog_ratio: 1,
        token_address: s("token"),
        token_source: s("source"),
        reward_token_address: s("rtoken"),
    })
    .unwrap()
}

fn stake_for(engine: &mut StakeEngine, who: &str, amount: u128, now: u128) {
    engine
        .execute_receive(
            s("token"),
            Cw20Receive { sender: s(who), amount, msg: ReceiveMsg::Stake {} },
            now,
        )
        .unwrap();
}

#[test]
fn stake_test() {
    let apr = "20";

    let decimal: u128 = 100000;
    let for_decimal_values: u128 = 1000;
    let mut annual: u128 = apr.parse::<u128>().unwrap();
    annual = annual * decimal * for_decimal_values;
    println!("annual reward is: {}", annual);

    let days: u128 = 365;
    let daily_reward = annual / days;
    println!("daily reward is: {}", daily_reward);

    let seconds: u128 = 86400;
    let second_reward = daily_reward / seconds;
    println!("each second token reward is: {}", second_reward);

    let seconds = cosmwasm_std::testing::mock_env().block.time.seconds() as u128;
    println!("time of now seconds : {}", seconds);
    let now = seconds;
    println!("time of now : {}", now);

    let reward_start_time: u128 = 1571797408;
    let staked_amount: u128 = 10000000;

    let reward;

    let second_difference_from_start = now - reward_start_time;
    println!("seconds pass from start : {}", second_difference_from_start);
    reward = second_difference_from_start * second_reward;
    println!("reward for 1 token : {}", reward);
    let output = reward * staked_amount;
    println!("output : {}", output);
}

#[test]
fn preview_matches_fixed_point_fixture() {
    // Stake 1,000,000 units at apr 20 with rate inputs 1/1, advance one day:
    // the scaled per-second rate is floor(floor(20 * 100000 * 100 / 365) / 86400) = 6,
    // so the preview is 86400 * 6 * 1000000.
    let mut engine = fresh_engine(20);
    stake_for(&mut engine, "alice", 1_000_000, 1_000);
    let preview = engine.user_reward("alice", 1_000 + 86_400).unwrap();
    assert_eq!(preview.amount, 518_400_000_000);
}

#[test]
fn preview_is_read_only_and_exact() {
    // Depositing D at time T and previewing at T + S yields S * rate * D,
    // however many previews happen in between.
    let mut engine = fresh_engine(20);
    stake_for(&mut engine, "alice", 5_000, 2_000);
    let rate: u128 = 20 * 100000 * 100 / 365 / 86400;
    assert_eq!(rate, 6);
    let expected = 300 * rate * 5_000;
    for _ in 0..3 {
        let preview = engine.user_reward("alice", 2_300).unwrap();
        assert_eq!(preview.amount, expected);
    }
}

#[test]
fn claim_reward_then_preview_is_zero() {
    let mut engine = fresh_engine(20);
    stake_for(&mut engine, "alice", 1_000_000, 1_000);
    let now = 1_000 + 86_400;
    let transfer = engine.claim_reward(s("alice"), 0, now).unwrap();
    assert_eq!(transfer.token, s("rtoken"));
    assert_eq!(transfer.recipient, s("alice"));
    // The banked reward is zero, so the payout is the accrual descaled by
    // the full scale factor of 100000 * 100.
    assert_eq!(transfer.amount, 518_400_000_000 / 10_000_000);
    let preview = engine.user_reward("alice", now).unwrap();
    assert_eq!(preview.amount, 0);
}

#[test]
fn claim_reward_updates_lifetime_total() {
    let mut engine = fresh_engine(20);
    stake_for(&mut engine, "alice", 1_000_000, 1_000);
    let transfer = engine.claim_reward(s("alice"), 0, 1_000 + 86_400).unwrap();
    let state = engine.state();
    assert_eq!(state.total_reward, transfer.amount);
}

#[test]
fn unstake_before_cooldown_fails_after_cooldown_succeeds() {
    let mut engine = fresh_engine(20);
    stake_for(&mut engine, "alice", 1_000, 1_000);
    engine.start_unstake(s("alice"), 400, 2_000).unwrap();
    let early = engine.claim_unstaked(s("alice"), 400, 2_050);
    assert!(matches!(early, Err(ContractError::MinUnstakingTimeRequired {})));
    // Exactly at the cooldown boundary the claim goes through.
    let transfer = engine.claim_unstaked(s("alice"), 400, 2_100).unwrap();
    assert_eq!(transfer.token, s("token"));
    assert_eq!(transfer.amount, 400);
    let info = engine.user_stake_info("alice").unwrap();
    assert_eq!(info.info.unstaking_amount, 0);
    assert!(!info.info.unstaking_process);
    assert_eq!(info.info.stake_amount, 600);
}

#[test]
fn repeated_unstake_resets_cooldown() {
    let mut engine = fresh_engine(20);
    stake_for(&mut engine, "alice", 1_000, 1_000);
    engine.start_unstake(s("alice"), 300, 2_000).unwrap();
    engine.start_unstake(s("alice"), 200, 2_080).unwrap();
    // The first tranche would be claimable at 2100, but the second
    // begin-unstake re-anchored the whole pending amount at 2080.
    let early = engine.claim_unstaked(s("alice"), 500, 2_100);
    assert!(matches!(early, Err(ContractError::MinUnstakingTimeRequired {})));
    let transfer = engine.claim_unstaked(s("alice"), 500, 2_180).unwrap();
    assert_eq!(transfer.amount, 500);
}

#[test]
fn unstake_more_than_staked_is_refused() {
    let mut engine = fresh_engine(20);
    stake_for(&mut engine, "alice", 1_000, 1_000);
    let r = engine.start_unstake(s("alice"), 1_001, 2_000);
    assert!(matches!(r, Err(ContractError::MoreThanStakeAmount {})));
}

#[test]
fn claim_without_unstake_is_refused() {
    let mut engine = fresh_engine(20);
    stake_for(&mut engine, "alice", 1_000, 1_000);
    let r = engine.claim_unstaked(s("alice"), 100, 2_000);
    assert!(matches!(r, Err(ContractError::UnstakingProcessIsNotStarted {})));
}

#[test]
fn claim_more_than_unstaked_is_refused() {
    let mut engine = fresh_engine(20);
    stake_for(&mut engine, "alice", 1_000, 1_000);
    engine.start_unstake(s("alice"), 100, 2_000).unwrap();
    let r = engine.claim_unstaked(s("alice"), 200, 3_000);
    assert!(matches!(
        r,
        Err(ContractError::AmountLargerThanUnstaked { unstaked: 100, amount: 200 })
    ));
}

#[test]
fn unknown_position_is_refused() {
    let mut engine = fresh_engine(20);
    assert!(matches!(
        engine.start_unstake(s("nobody"), 1, 1_000),
        Err(ContractError::PositionNotFound {})
    ));
    assert!(matches!(engine.user_reward("nobody", 1_000), Err(ContractError::PositionNotFound {})));
    assert!(matches!(engine.user_stake_info("nobody"), Err(ContractError::PositionNotFound {})));
}

#[test]
fn deposit_through_wrong_token_is_refused() {
    let mut engine = fresh_engine(20);
    let r = engine.execute_receive(
        s("impostor"),
        Cw20Receive { sender: s("alice"), amount: 10, msg: ReceiveMsg::Stake {} },
        1_000,
    );
    assert!(matches!(r, Err(ContractError::InvalidToken {})));
}

#[test]
fn deposit_settles_running_accrual() {
    let mut engine = fresh_engine(20);
    stake_for(&mut engine, "alice", 1_000, 1_000);
    // A second deposit folds the live accrual into the banked reward and
    // restarts the clock.
    stake_for(&mut engine, "alice", 500, 1_100);
    let info = engine.user_stake_info("alice").unwrap().info;
    assert_eq!(info.stake_amount, 1_500);
    assert_eq!(info.reward_amount, 100 * 6 * 1_000);
    assert_eq!(info.stake_start_time, 1_100);
    assert_eq!(info.reward_start_time, 1_100);
    let state = engine.state();
    assert_eq!(state.total_staked, 1_500);
}

#[test]
fn zero_rate_numerator_is_refused() {
    // Both rate inputs must be positive.
    let r = StakeEngine::instantiate(InstantiateMsg {
        allowed_operators: vec![s("operator")],
        unstaking_duration: 100,
        apr: 20,
        bdog_ratio: 1,
        gdog_ratio: 0,
        token_address: s("token"),
        token_source: s("source"),
        reward_token_address: s("rtoken"),
    });
    assert!(matches!(r, Err(ContractError::InvalidRateInput {})));
    let mut engine = fresh_engine(20);
    let r = engine.edit_state(
        s("operator"),
        None,
        None,
        None,
        None,
        None,
        Some(0),
        None,
        None,
        1_000,
    );
    assert!(matches!(r, Err(ContractError::InvalidRateInput {})));
    assert_eq!(engine.state().apr, 20);
}

#[test]
fn zero_rate_denominator_is_refused() {
    let r = StakeEngine::instantiate(InstantiateMsg {
        allowed_operators: vec![s("operator")],
        unstaking_duration: 100,
        apr: 20,
        bdog_ratio: 0,
        gdog_ratio: 1,
        token_address: s("token"),
        token_source: s("source"),
        reward_token_address: s("rtoken"),
    });
    assert!(matches!(r, Err(ContractError::DivideByZero {})));
}

#[test]
fn oversized_rate_overflows() {
    // A first deposit stores the position without computing the per-second
    // rate, but any accrual on it overflows the scaled rate.
    let mut engine = fresh_engine(u128::MAX / 2);
    stake_for(&mut engine, "alice", 10, 1_000);
    let r = engine.user_reward("alice", 1_001);
    assert!(matches!(r, Err(ContractError::Overflow {})));
    let r = engine.start_unstake(s("alice"), 5, 1_001);
    assert!(matches!(r, Err(ContractError::Overflow {})));
}

#[test]
fn edit_state_requires_operator() {
    let mut engine = fresh_engine(20);
    let r = engine.edit_state(
        s("mallory"),
        None,
        None,
        None,
        Some(40),
        None,
        None,
        None,
        None,
        1_000,
    );
    assert!(matches!(r, Err(ContractError::Unauthorized { .. })));
}

#[test]
fn rate_change_settles_every_open_position() {
    let mut engine = fresh_engine(20);
    stake_for(&mut engine, "alice", 1_000, 1_000);
    stake_for(&mut engine, "bob", 2_000, 1_000);
    let before_alice = engine.user_stake_info("alice").unwrap().info.reward_amount;
    let before_bob = engine.user_stake_info("bob").unwrap().info.reward_amount;
    assert_eq!(before_alice + before_bob, 0);
    engine
        .edit_state(
            s("operator"),
            None,
            None,
            None,
            Some(40),
            None,
            None,
            None,
            None,
            1_100,
        )
        .unwrap();
    // Both positions were settled at the old rate (6 per second per token),
    // with their clocks reset to the settlement time.
    let alice = engine.user_stake_info("alice").unwrap().info;
    let bob = engine.user_stake_info("bob").unwrap().info;
    assert_eq!(alice.reward_amount, 100 * 6 * 1_000);
    assert_eq!(bob.reward_amount, 100 * 6 * 2_000);
    assert_eq!(alice.stake_start_time, 1_100);
    assert_eq!(bob.stake_start_time, 1_100);
    assert_eq!(alice.reward_start_time, 1_100);
    assert_eq!(bob.reward_start_time, 1_100);
    assert_eq!(
        alice.reward_amount + bob.reward_amount,
        (before_alice + before_bob) + 100 * 6 * 1_000 + 100 * 6 * 2_000
    );
    // The new rate is in force afterwards.
    assert_eq!(engine.state().apr, 40);
    let preview = engine.user_reward("alice", 1_200).unwrap();
    let new_rate: u128 = 40 * 100000 * 100 / 365 / 86400;
    assert_eq!(preview.amount, 100 * 6 * 1_000 + 100 * new_rate * 1_000);
}

#[test]
fn list_clamps_oversized_limits() {
    let mut engine = fresh_engine(20);
    for i in 0..40u32 {
        let name = format!("user{:02}", i);
        stake_for(&mut engine, &name, 10, 1_000);
    }
    // A limit above the server maximum returns exactly the maximum.
    let page = engine.list(None, Some(1_000));
    assert_eq!(page.stake_list.len(), MAX_LIMIT as usize);
    // A missing limit returns the default page size.
    let page = engine.list(None, None);
    assert_eq!(page.stake_list.len(), DEFAULT_LIMIT as usize);
}

#[test]
fn list_pages_ascending_with_cursor() {
    let mut engine = fresh_engine(20);
    stake_for(&mut engine, "carol", 1, 1_000);
    stake_for(&mut engine, "alice", 2, 1_000);
    stake_for(&mut engine, "bob", 3, 1_000);
    let page = engine.list(None, Some(10));
    let owners: Vec<String> = page.stake_list.iter().map(|p| p.owner.clone()).collect();
    assert_eq!(owners, vec![s("alice"), s("bob"), s("carol")]);
    let page = engine.list(Some(s("alice")), Some(10));
    let owners: Vec<String> = page.stake_list.iter().map(|p| p.owner.clone()).collect();
    assert_eq!(owners, vec![s("bob"), s("carol")]);
}

#[test]
fn execute_dispatches_and_emits_transfers() {
    let mut engine = fresh_engine(20);
    let emitted = engine
        .execute(
            s("token"),
            ExecuteMsg::Receive(Cw20Receive {
                sender: s("alice"),
                amount: 1_000,
                msg: ReceiveMsg::Stake {},
            }),
            1_000,
        )
        .unwrap();
    assert!(emitted.is_empty());
    let emitted = engine
        .execute(s("alice"), ExecuteMsg::StartUnstake { amount: 400 }, 2_000)
        .unwrap();
    assert!(emitted.is_empty());
    let emitted = engine
        .execute(s("alice"), ExecuteMsg::ClaimUnstaked { amount: 400 }, 2_100)
        .unwrap();
    assert_eq!(emitted.len(), 1);
    assert_eq!(emitted[0].token, s("token"));
    assert_eq!(emitted[0].recipient, s("alice"));
    assert_eq!(emitted[0].amount, 400);
}

#[test]
fn query_answers_match_direct_calls() {
    let mut engine = fresh_engine(20);
    stake_for(&mut engine, "alice", 1_000, 1_000);
    match engine.query(QueryMsg::GetUserReward { addr: s("alice") }, 1_100).unwrap() {
        QueryAnswer::UserReward(resp) => assert_eq!(resp.amount, 100 * 6 * 1_000),
        _ => panic!("wrong answer variant"),
    }
    match engine.query(QueryMsg::GetState {}, 1_100).unwrap() {
        QueryAnswer::GlobalState(resp) => {
            assert_eq!(resp.total_staked, 1_000);
            assert_eq!(resp.apr, 20);
            assert_eq!(resp.token_address, s("token"));
        },
        _ => panic!("wrong answer variant"),
    }
}

#[test]
fn execute_handles_rate_edits_and_reward_claims() {
    let mut engine = fresh_engine(20);
    stake_for(&mut engine, "alice", 1_000_000, 1_000);
    let emitted = engine
        .execute(
            s("operator"),
            ExecuteMsg::EditState {
                allowed_operators: None,
                token_address: None,
                unstaking_duration: None,
                apr: Some(40),
                bdog_ratio: None,
                gdog_ratio: None,
                token_source: None,
                reward_token_address: None,
            },
            1_100,
        )
        .unwrap();
    assert!(emitted.is_empty());
    // The position was settled at the old rate before the new one took
    // effect; the settled accrual sits scaled in the banked reward, and the
    // claim descales the whole payout once.
    let emitted = engine
        .execute(s("alice"), ExecuteMsg::ClaimReward { amount: 0 }, 1_100)
        .unwrap();
    assert_eq!(emitted.len(), 1);
    assert_eq!(emitted[0].token, s("rtoken"));
    assert_eq!(emitted[0].amount, 100 * 6 * 1_000_000 / 10_000_000);
}
