use fortis_ledgers::ash_house;
use fortis_ledgers::ash_house::{AshHouse, Coin};
use fortis_ledgers::dog_drop;
use fortis_ledgers::dog_drop::DogDrop;

fn s(x: &str) -> String {
    x.to_string()
}

fn coin(denom: &str, amount: u128) -> Coin {
    Coin { denom: s(denom), amount }
}

fn fresh_house() -> AshHouse {
    ash_house::instantiate(ash_house::InstantiateMsg {
        allowed_operators: vec![s("operator")],
        allowed_native: vec![s("unative")],
        allowed_cw20: vec![s("cw20good")],
        ash_cw20: s("ash"),
    })
}

fn fresh_drop() -> DogDrop {
    dog_drop::instantiate(
        vec![(s("alice"), 100), (s("bob"), 200)],
        s("drop20"),
        vec![s("operator")],
    )
}

#[test]
fn mint_ash_burns_and_mints_for_a_plain_account() {
    let mut house = fresh_house();
    let outcome = house
        .mint_ash(
            s("alice"),
            vec![coin("unative", 100)],
            vec![coin("unative", 500)],
            s("unative"),
            100,
        )
        .unwrap();
    let burn = outcome.burn.unwrap();
    assert_eq!(burn.denom, s("unative"));
    assert_eq!(burn.amount, 100);
    assert_eq!(outcome.transfer.token, s("ash"));
    assert_eq!(outcome.transfer.recipient, s("alice"));
    assert_eq!(outcome.transfer.amount, 100);
    assert_eq!(house.native_deposited, 100);
    assert_eq!(house.ash_minted, 100);
    assert_eq!(house.deposit_list, vec![(s("alice"), 100)]);
}

#[test]
fn mint_ash_by_an_operator_burns_nothing() {
    let mut house = fresh_house();
    let outcome = house
        .mint_ash(s("operator"), vec![], vec![], s("unative"), 50)
        .unwrap();
    assert!(outcome.burn.is_none());
    assert_eq!(outcome.transfer.amount, 50);
    assert_eq!(house.native_deposited, 50);
}

#[test]
fn mint_ash_validates_the_deposit() {
    let mut house = fresh_house();
    let r = house.mint_ash(s("alice"), vec![], vec![], s("unative"), 100);
    assert!(matches!(r, Err(ash_house::ContractError::SendSingleNativeToken {})));
    let r = house.mint_ash(
        s("alice"),
        vec![coin("ubad", 100)],
        vec![coin("unative", 500)],
        s("ubad"),
        100,
    );
    match r {
        Err(ash_house::ContractError::DenomNotAllowed { denom }) => assert_eq!(denom, s("ubad")),
        _ => panic!("expected the denomination to be refused"),
    }
    let r = house.mint_ash(
        s("alice"),
        vec![coin("unative", 99)],
        vec![coin("unative", 500)],
        s("uother"),
        100,
    );
    assert!(matches!(r, Err(ash_house::ContractError::InputMismatch {})));
    let r = house.mint_ash(s("alice"), vec![coin("unative", 100)], vec![], s("unative"), 100);
    assert!(matches!(r, Err(ash_house::ContractError::InsufficientBalance {})));
    assert_eq!(house.ash_minted, 0);
}

#[test]
fn mint_ash_burn_is_clamped_to_the_holdings() {
    let mut house = fresh_house();
    let outcome = house
        .mint_ash(
            s("alice"),
            vec![coin("unative", 100)],
            vec![coin("uother", 7), coin("unative", 60)],
            s("unative"),
            100,
        )
        .unwrap();
    // The first spendable held coin covers only 60, so only 60 is burnt.
    let burn = outcome.burn.unwrap();
    assert_eq!(burn.amount, 60);
    assert_eq!(outcome.transfer.amount, 100);
}

#[test]
fn mint_from_huahua_requires_the_huahua_coin() {
    let mut house = fresh_house();
    let r = house.mint_from_huahua(s("alice"), vec![coin("unative", 10)], vec![]);
    match r {
        Err(ash_house::ContractError::DenomNotAllowed { denom }) => {
            assert_eq!(denom, s("unative"));
        },
        _ => panic!("expected the denomination to be refused"),
    }
    let outcome = house
        .mint_from_huahua(s("alice"), vec![coin("uhuahua", 40)], vec![coin("unative", 500)])
        .unwrap();
    assert_eq!(outcome.burn.unwrap().amount, 40);
    assert_eq!(outcome.transfer.amount, 40);
    assert_eq!(house.huahua_deposited, 40);
    assert_eq!(house.ash_minted, 40);
    assert!(house.deposit_list.is_empty());
}

#[test]
fn mint_ash_cw20_burns_on_the_token_contract() {
    let mut house = fresh_house();
    let outcome = house
        .mint_ash_cw20(s("alice"), s("cw20good"), s("carol"), 30)
        .unwrap();
    assert_eq!(outcome.burn, Some((s("cw20good"), 30)));
    assert_eq!(outcome.transfer.recipient, s("carol"));
    assert_eq!(house.cw20_deposited, 30);
    // The deposit record is kept under the token contract.
    assert_eq!(house.deposit_list, vec![(s("cw20good"), 30)]);
    let r = house.mint_ash_cw20(s("mallory"), s("cw20bad"), s("carol"), 30);
    match r {
        Err(ash_house::ContractError::DenomNotAllowed { denom }) => {
            assert_eq!(denom, s("mallory"));
        },
        _ => panic!("expected the token to be refused"),
    }
    let outcome = house
        .mint_ash_cw20(s("operator"), s("cw20bad"), s("carol"), 5)
        .unwrap();
    assert!(outcome.burn.is_none());
}

#[test]
fn deposit_records_accumulate_and_page() {
    let mut house = fresh_house();
    for i in 0..35u32 {
        let who = format!("user{:02}", i);
        house
            .mint_ash(s("operator"), vec![], vec![], s("unative"), 1)
            .unwrap();
        house
            .mint_ash_cw20(s("operator"), who, s("carol"), 1)
            .unwrap();
    }
    // A limit above the server maximum returns exactly the maximum.
    let page = house.details_list(None, Some(99));
    assert_eq!(page.details.len(), 30);
    // A missing limit returns the default page size, ascending by account.
    let page = house.details_list(None, None);
    assert_eq!(page.details.len(), 10);
    assert_eq!(page.details[0].addr, s("operator"));
    let page = house.details_list(Some(s("user30")), Some(10));
    let names: Vec<String> = page.details.iter().map(|d| d.addr.clone()).collect();
    assert_eq!(names, vec![s("user31"), s("user32"), s("user33"), s("user34")]);
}

#[test]
fn ash_edit_state_requires_an_operator() {
    let mut house = fresh_house();
    let r = house.edit_state(s("mallory"), vec![], vec![], vec![], s("ash2"));
    assert!(matches!(r, Err(ash_house::ContractError::Unauthorized {})));
    house
        .edit_state(s("operator"), vec![s("op2")], vec![s("un2")], vec![s("cw2")], s("ash2"))
        .unwrap();
    let state = house.state();
    assert_eq!(state.ash_cw20, s("ash2"));
    assert_eq!(state.allowed_operators, vec![s("op2")]);
}

#[test]
fn claim_pays_once() {
    let mut whitelist = fresh_drop();
    let transfer = whitelist.execute_claim(s("alice")).unwrap();
    assert_eq!(transfer.token, s("drop20"));
    assert_eq!(transfer.recipient, s("alice"));
    assert_eq!(transfer.amount, 100);
    assert_eq!(whitelist.claimed, 1);
    let again = whitelist.execute_claim(s("alice"));
    match again {
        Err(dog_drop::ContractError::AlreadyClaimed(a)) => assert_eq!(a, s("alice")),
        _ => panic!("expected the second claim to be refused"),
    }
    let unknown = whitelist.execute_claim(s("mallory"));
    assert!(matches!(unknown, Err(dog_drop::ContractError::NoMemberFound(_))));
}

#[test]
fn add_members_is_all_or_nothing() {
    let mut whitelist = fresh_drop();
    whitelist
        .add_members(s("operator"), vec![(s("carol"), 10), (s("dave"), 20)])
        .unwrap();
    assert_eq!(whitelist.size, 2);
    assert!(whitelist.is_member("carol").is_member);
    // A member already whitelisted refuses the whole batch.
    let r = whitelist.add_members(s("operator"), vec![(s("erin"), 1), (s("alice"), 1)]);
    assert!(matches!(r, Err(dog_drop::ContractError::DuplicateMember(_))));
    assert!(!whitelist.is_member("erin").is_member);
    assert_eq!(whitelist.size, 2);
    // The same member twice with two different amounts refuses the batch;
    // with the same amount it is stored once.
    let r = whitelist.add_members(s("operator"), vec![(s("erin"), 1), (s("erin"), 2)]);
    assert!(matches!(r, Err(dog_drop::ContractError::DuplicateMember(_))));
    whitelist
        .add_members(s("operator"), vec![(s("erin"), 1), (s("erin"), 1)])
        .unwrap();
    assert_eq!(whitelist.size, 3);
    let r = whitelist.add_members(s("mallory"), vec![(s("frank"), 1)]);
    assert!(matches!(r, Err(dog_drop::ContractError::Unauthorized {})));
}

#[test]
fn remove_members_is_all_or_nothing() {
    let mut whitelist = fresh_drop();
    whitelist
        .add_members(s("operator"), vec![(s("carol"), 10)])
        .unwrap();
    assert_eq!(whitelist.size, 1);
    let r = whitelist.remove_members(s("operator"), vec![(s("carol"), 0), (s("nobody"), 0)]);
    assert!(matches!(r, Err(dog_drop::ContractError::NoMemberFound(_))));
    assert!(whitelist.is_member("carol").is_member);
    whitelist
        .remove_members(s("operator"), vec![(s("carol"), 0)])
        .unwrap();
    assert!(!whitelist.is_member("carol").is_member);
    assert_eq!(whitelist.size, 0);
    // The counter starts at zero even with initial members, so removing an
    // initial member underflows it and the batch is refused.
    let r = whitelist.remove_members(s("operator"), vec![(s("alice"), 0)]);
    assert!(matches!(r, Err(dog_drop::ContractError::Overflow {})));
    assert!(whitelist.is_member("alice").is_member);
}

#[test]
fn members_page_ascending_with_clamped_limits() {
    let mut whitelist = dog_drop::instantiate(vec![], s("drop20"), vec![s("operator")]);
    let mut batch: Vec<(String, u128)> = Vec::new();
    for i in 0..120u32 {
        batch.push((format!("m{:03}", i), 1));
    }
    whitelist.add_members(s("operator"), batch).unwrap();
    // A limit above the server maximum returns exactly the maximum.
    let page = whitelist.query_members(None, Some(500));
    assert_eq!(page.members.len(), 100);
    // A missing limit returns the default page size.
    let page = whitelist.query_members(None, None);
    assert_eq!(page.members.len(), 25);
    assert_eq!(page.members[0], s("m000"));
    let page = whitelist.query_members(Some(s("m117")), Some(10));
    assert_eq!(page.members, vec![s("m118"), s("m119")]);
}

#[test]
fn drop_state_reports_the_counters() {
    let mut whitelist = fresh_drop();
    whitelist.execute_claim(s("alice")).unwrap();
    let state = whitelist.state();
    assert_eq!(state.cw20, s("drop20"));
    assert_eq!(state.allowed_operators, vec![s("operator")]);
    assert_eq!(state.size, 0);
    assert_eq!(state.claimed, 1);
}

#[test]
fn drop_edit_state_requires_an_operator() {
    let mut whitelist = fresh_drop();
    let r = whitelist.edit_state(s("mallory"), s("drop21"), vec![s("op2")]);
    assert!(matches!(r, Err(dog_drop::ContractError::Unauthorized {})));
    whitelist
        .edit_state(s("operator"), s("drop21"), vec![s("op2")])
        .unwrap();
    assert_eq!(whitelist.state.cw20, s("drop21"));
}

#[test]
fn instantiate_overwrites_duplicate_members() {
    let whitelist = dog_drop::instantiate(
        vec![(s("alice"), 1), (s("alice"), 9)],
        s("drop20"),
        vec![s("operator")],
    );
    assert_eq!(whitelist.airdrop, vec![(s("alice"), 9)]);
}

#[test]
fn ash_execute_dispatches() {
    let mut house = fresh_house();
    let outcome = house
        .execute(
            s("cw20good"),
            vec![],
            vec![],
            ash_house::ExecuteMsg::Receive {
                sender: s("alice"),
                amount: 12,
                msg: ash_house::ReceiveMsg::MintCw20 { owner: s("carol") },
            },
        )
        .unwrap();
    assert!(matches!(outcome, ash_house::ExecuteOutcome::MintedCw20(_)));
    assert_eq!(house.cw20_deposited, 12);
    match house.query(ash_house::QueryMsg::GetState {}) {
        ash_house::QueryAnswer::GlobalState(resp) => assert_eq!(resp.ash, 12),
        _ => panic!("wrong answer variant"),
    }
}

#[test]
fn drop_execute_dispatches() {
    let mut whitelist = fresh_drop();
    let transfer = whitelist
        .execute(s("bob"), dog_drop::ExecuteMsg::Claim {})
        .unwrap();
    assert_eq!(transfer.unwrap().amount, 200);
    whitelist
        .execute(
            s("operator"),
            dog_drop::ExecuteMsg::AddMembers { members: vec![(s("erin"), 5)] },
        )
        .unwrap();
    match whitelist.query(dog_drop::QueryMsg::IsMember { address: s("erin") }) {
        dog_drop::QueryAnswer::Membership(resp) => assert!(resp.is_member),
        _ => panic!("wrong answer variant"),
    }
}
