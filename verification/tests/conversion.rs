use fortis_ledgers::dog_burn;
use fortis_ledgers::gdog;

fn s(x: &str) -> String {
    x.to_string()
}

fn dog_cfg() -> dog_burn::Config {
    dog_burn::instantiate(
        s("owner"),
        dog_burn::InstantiateMsg {
            owner: None,
            dog_token_address: s("dog"),
            bdog_token_address: s("bdog"),
        },
    )
}

fn gdog_cfg() -> gdog::Config {
    gdog::instantiate(
        s("owner"),
        gdog::InstantiateMsg {
            owner: None,
            bdog_token_address: s("bdog"),
            gdog_token_address: s("gdog"),
        },
    )
}

#[test]
fn ratio_stays_below_the_threshold() {
    // Less than a million whole tokens burnt keeps the current ratio.
    assert_eq!(dog_burn::calculate_ratio(999_999_999_999, 7), 7);
}

#[test]
fn ratio_grows_with_the_lifetime_burn() {
    assert_eq!(dog_burn::calculate_ratio(1_000_000_000_000, 7), 11);
    assert_eq!(dog_burn::calculate_ratio(5_000_000_000_000, 7), 15);
}

#[test]
fn dog_deposit_burns_and_sends_bdog() {
    let mut cfg = dog_cfg();
    let outcome = dog_burn::try_receive(&mut cfg, s("dog"), s("alice"), 100).unwrap();
    match outcome {
        dog_burn::ReceiveOutcome::BurnAndSend { send, burn_token, burn_amount } => {
            assert_eq!(send.token, s("bdog"));
            assert_eq!(send.recipient, s("alice"));
            assert_eq!(send.amount, 1_000);
            assert_eq!(burn_token, s("dog"));
            assert_eq!(burn_amount, 100);
        },
        _ => panic!("expected a burn-and-send outcome"),
    }
    assert_eq!(cfg.dog_burn_amount, 100);
    assert_eq!(cfg.bdog_sent_amount, 1_000);
    assert_eq!(cfg.ratio, 10);
}

#[test]
fn bdog_deposit_is_banked_and_withdrawable() {
    let mut cfg = dog_cfg();
    let outcome = dog_burn::try_receive(&mut cfg, s("bdog"), s("alice"), 77).unwrap();
    assert!(matches!(outcome, dog_burn::ReceiveOutcome::Banked {}));
    assert_eq!(cfg.bdog_current_amount, 77);
    let refused = dog_burn::try_withdraw_all(&mut cfg, s("mallory"));
    assert!(matches!(refused, Err(dog_burn::ContractError::Unauthorized {})));
    let transfer = dog_burn::try_withdraw_all(&mut cfg, s("owner")).unwrap();
    assert_eq!(transfer.token, s("bdog"));
    assert_eq!(transfer.recipient, s("owner"));
    assert_eq!(transfer.amount, 77);
    assert_eq!(cfg.bdog_current_amount, 0);
}

#[test]
fn unknown_token_is_refused() {
    let mut cfg = dog_cfg();
    let r = dog_burn::try_receive(&mut cfg, s("impostor"), s("alice"), 1);
    assert!(matches!(r, Err(dog_burn::ContractError::UnacceptableToken {})));
}

#[test]
fn oversized_dog_deposit_overflows() {
    let mut cfg = dog_cfg();
    let r = dog_burn::try_receive(&mut cfg, s("dog"), s("alice"), u128::MAX / 2);
    assert!(matches!(r, Err(dog_burn::ContractError::Overflow {})));
    assert_eq!(cfg.dog_burn_amount, 0);
}

#[test]
fn missing_new_owner_freezes_the_engine() {
    let mut cfg = dog_cfg();
    dog_burn::execute_update_config(&mut cfg, s("owner"), None).unwrap();
    let r = dog_burn::try_withdraw_all(&mut cfg, s("owner"));
    assert!(matches!(r, Err(dog_burn::ContractError::Unauthorized {})));
}

#[test]
fn step_covers_the_lifetime_burn() {
    // Up to a thousand whole tokens the first step suffices.
    assert_eq!(gdog::calculate_step(0, 1), 1);
    assert_eq!(gdog::calculate_step(1_000 * 1_000_000, 1), 1);
    // The next whole token needs a second step (its width is 1001).
    assert_eq!(gdog::calculate_step(1_001 * 1_000_000, 1), 2);
    assert_eq!(gdog::calculate_step(2_001 * 1_000_000, 1), 2);
    assert_eq!(gdog::calculate_step(2_002 * 1_000_000, 1), 3);
}

#[test]
fn bdog_deposit_burns_and_sends_gdog() {
    let mut cfg = gdog_cfg();
    let outcome = gdog::try_receive(&mut cfg, s("bdog"), s("alice"), 2_000_000).unwrap();
    match outcome {
        gdog::ReceiveOutcome::BurnAndSend { send, burn_token, burn_amount } => {
            assert_eq!(send.token, s("gdog"));
            assert_eq!(send.recipient, s("alice"));
            assert_eq!(send.amount, 2_000_000 / 1_000);
            assert_eq!(burn_token, s("bdog"));
            assert_eq!(burn_amount, 2_000_000);
        },
    }
    assert_eq!(cfg.bdog_burn_amount, 2_000_000);
    assert_eq!(cfg.gdog_sent_amount, 2_000);
    assert_eq!(cfg.ratio, 1_000);
    assert_eq!(cfg.step, 1);
}

#[test]
fn gdog_divisor_grows_with_the_step() {
    let mut cfg = gdog_cfg();
    // Burn 1001 whole tokens in one deposit: the step moves to 2 and the
    // divisor to 1001.
    let outcome = gdog::try_receive(&mut cfg, s("bdog"), s("alice"), 1_001 * 1_000_000).unwrap();
    match outcome {
        gdog::ReceiveOutcome::BurnAndSend { send, .. } => {
            assert_eq!(send.amount, 1_001 * 1_000_000 / 1_001);
        },
    }
    assert_eq!(cfg.step, 2);
    assert_eq!(cfg.ratio, 1_001);
}

#[test]
fn gdog_refuses_unknown_tokens() {
    let mut cfg = gdog_cfg();
    let r = gdog::try_receive(&mut cfg, s("impostor"), s("alice"), 1);
    assert!(matches!(r, Err(gdog::ContractError::UnacceptableToken {})));
}

#[test]
fn gdog_update_config_replaces_addresses() {
    let mut cfg = gdog_cfg();
    gdog::execute_update_config(
        &mut cfg,
        s("owner"),
        Some(s("new_owner")),
        Some(s("gdog2")),
        Some(s("bdog2")),
    )
    .unwrap();
    assert_eq!(cfg.owner, Some(s("new_owner")));
    assert_eq!(cfg.gdog_token_address, s("gdog2"));
    assert_eq!(cfg.bdog_token_address, s("bdog2"));
    let refused = gdog::execute_update_config(&mut cfg, s("owner"), None, None, None);
    assert!(matches!(refused, Err(gdog::ContractError::Unauthorized {})));
}

#[test]
fn migration_accepts_only_the_same_contract_type() {
    assert!(gdog::migrate(s("bdogburn")).is_ok());
    let r = gdog::migrate(s("something-else"));
    match r {
        Err(gdog::ContractError::CannotMigrate { previous_contract }) => {
            assert_eq!(previous_contract, s("something-else"));
        },
        _ => panic!("expected the migration to be refused"),
    }
}

#[test]
fn query_config_reports_the_state() {
    let mut cfg = dog_cfg();
    dog_burn::try_receive(&mut cfg, s("dog"), s("alice"), 100).unwrap();
    let resp = dog_burn::query_config(&cfg);
    assert_eq!(resp.owner, Some(s("owner")));
    assert_eq!(resp.dog_burn_amount, 100);
    assert_eq!(resp.bdog_sent_amount, 1_000);
    let gresp = gdog::query_config(&gdog_cfg());
    assert_eq!(gresp.ratio, 1_000);
    assert_eq!(gresp.step, 1);
}

#[test]
fn dog_burn_execute_dispatches() {
    let mut cfg = dog_cfg();
    let outcome =
        dog_burn::execute(&mut cfg, s("dog"), dog_burn::ExecuteMsg::Receive {
            sender: s("alice"),
            amount: 100,
        })
        .unwrap();
    assert!(matches!(outcome, dog_burn::ExecuteOutcome::Received(_)));
    dog_burn::execute(&mut cfg, s("bdog"), dog_burn::ExecuteMsg::Receive {
        sender: s("alice"),
        amount: 9,
    })
    .unwrap();
    let outcome = dog_burn::execute(&mut cfg, s("owner"), dog_burn::ExecuteMsg::WithdrawAll {})
        .unwrap();
    match outcome {
        dog_burn::ExecuteOutcome::Withdrawn(t) => assert_eq!(t.amount, 9),
        _ => panic!("expected a withdrawal"),
    }
    let outcome = dog_burn::execute(&mut cfg, s("owner"), dog_burn::ExecuteMsg::UpdateConfig {
        new_owner: Some(s("owner2")),
    })
    .unwrap();
    assert!(matches!(outcome, dog_burn::ExecuteOutcome::Updated {}));
    assert_eq!(cfg.owner, Some(s("owner2")));
}

#[test]
fn gdog_execute_dispatches() {
    let mut cfg = gdog_cfg();
    let outcome = gdog::execute(&mut cfg, s("bdog"), gdog::ExecuteMsg::Receive {
        sender: s("alice"),
        amount: 5_000,
    })
    .unwrap();
    assert!(outcome.is_some());
    let refused = gdog::execute(&mut cfg, s("impostor"), gdog::ExecuteMsg::Receive {
        sender: s("alice"),
        amount: 5,
    });
    assert!(matches!(refused, Err(gdog::ContractError::UnacceptableToken {})));
}
