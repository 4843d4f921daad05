//! The bdog-for-gdog conversion engine: it receives bdog tokens, burns
//! them, and sends gdog tokens back at a divisor that grows stepwise with
//! the lifetime amount burnt.
use vstd::prelude::*;

verus! {

use crate::TransferMsg;
use vstd::arithmetic::div_mod::lemma_div_is_ordered;

/// Why a conversion operation was refused.
#[derive(Debug, PartialEq)]
pub enum ContractError {
    /// The caller is not the owner, or the contract is frozen.
    Unauthorized {},
    /// Tokens arrived from a contract the engine does not manage.
    UnacceptableToken {},
    /// Migration from a different contract type was attempted.
    CannotMigrate { previous_contract: String },
}

/// The engine's whole persistent state.
pub struct Config {
    /// Owner; when `None` the configuration is frozen.
    pub owner: Option<String>,
    pub bdog_token_address: String,
    pub gdog_token_address: String,
    pub bdog_burn_amount: u128,
    pub gdog_sent_amount: u128,
    pub ratio: u128,
    pub step: u128,
}

/// Mathematical image of `Config`.
#[verifier::ext_equal]
pub struct ConfigV {
    pub owner: Option<Seq<char>>,
    pub bdog_token_address: Seq<char>,
    pub gdog_token_address: Seq<char>,
    pub bdog_burn_amount: u128,
    pub gdog_sent_amount: u128,
    pub ratio: u128,
    pub step: u128,
}

impl View for Config {
    type V = ConfigV;

    open spec fn view(&self) -> ConfigV {
        ConfigV {
            owner: match self.owner {
                Option::None => None,
                Option::Some(ref o) => Some(o@),
            },
            bdog_token_address: self.bdog_token_address@,
            gdog_token_address: self.gdog_token_address@,
            bdog_burn_amount: self.bdog_burn_amount,
            gdog_sent_amount: self.gdog_sent_amount,
            ratio: self.ratio,
            step: self.step,
        }
    }
}

/// Everything an engine instance is created with.
pub struct InstantiateMsg {
    /// Owner; defaults to the instantiating sender.
    pub owner: Option<String>,
    pub bdog_token_address: String,
    pub gdog_token_address: String,
}

/// What a token deposit asks the engine to do; the engine decides by the
/// sending token contract alone.
pub enum ReceiveMsg {
    Dog {},
    Bdog {},
}

/// The migration request; it carries nothing.
pub struct MigrateMsg {}

/// The mutating operations.
pub enum ExecuteMsg {
    UpdateConfig {
        new_owner: Option<String>,
        gdog_token_address: Option<String>,
        bdog_token_address: Option<String>,
    },
    Receive { sender: String, amount: u128 },
}

/// The engine's state as a query answer.
pub struct ConfigResponse {
    pub owner: Option<String>,
    pub bdog_token_address: String,
    pub gdog_token_address: String,
    pub bdog_burn_amount: u128,
    pub gdog_sent_amount: u128,
    pub ratio: u128,
    pub step: u128,
}

/// What receiving tokens leads to.
pub enum ReceiveOutcome {
    /// Send `send` to the depositor and burn `burn_amount` on the bdog
    /// token.
    BurnAndSend { send: TransferMsg, burn_token: String, burn_amount: u128 },
}

/// A saturating-to-old addition: the sum when it fits, the old value when
/// it does not. This mirrors how the lifetime counters absorb overflow.
pub open spec fn add_keep(a: u128, b: u128) -> u128 {
    if a + b <= u128::MAX {
        (a + b) as u128
    } else {
        a
    }
}

/// The whole-token amount the first `k` steps cover: step `j` covers
/// `999 + j` whole tokens.
pub open spec fn filled(k: nat) -> int
    decreases k,
{
    if k == 0 {
        0
    } else {
        filled((k - 1) as nat) + 999 + k
    }
}

/// Each step covers at least one token, so `k` steps cover at least `k`.
pub proof fn lemma_filled_ge(k: nat)
    ensures
        filled(k) >= k,
    decreases k,
{
    if k > 0 {
        lemma_filled_ge((k - 1) as nat);
    }
}

/// The conversion step for a lifetime burn of `total_amount` base units:
/// the smallest `k >= 1` whose first `k` steps cover the burnt whole
/// tokens. The result pins down one value because `filled` is strictly
/// increasing.
pub fn calculate_step(total_amount: u128, current_step: u128) -> (r: u128)
    ensures
        r >= 1,
        filled(r as nat) >= total_amount / 1000000,
        r > 1 ==> filled((r - 1) as nat) < total_amount / 1000000,
        r == 1 || r <= total_amount / 1000000,
{
    let no_decimal = total_amount / 1000000;
    proof {
        lemma_div_is_ordered(total_amount as int, u128::MAX as int, 1000000);
    }
    let mut step_count: u128 = 1;
    let mut current_amount: u128 = 0;
    loop
        invariant_except_break
            step_count >= 2 ==> current_amount < no_decimal,
        invariant
            1 <= step_count,
            no_decimal == total_amount / 1000000,
            no_decimal <= u128::MAX as int / 1000000,
            current_amount as int == filled((step_count - 1) as nat),
        ensures
            step_count >= 2,
            current_amount as int == filled((step_count - 1) as nat),
            current_amount >= no_decimal,
            step_count >= 3 ==> filled((step_count - 2) as nat) < no_decimal,
        decreases no_decimal - current_amount,
    {
        proof {
            lemma_filled_ge((step_count - 1) as nat);
        }
        current_amount = current_amount + 999 + step_count;
        step_count = step_count + 1;
        if current_amount >= no_decimal {
            break;
        }
    }
    proof {
        if step_count >= 3 {
            lemma_filled_ge((step_count - 2) as nat);
        }
    }
    step_count - 1
}

/// Whether `sender` owns the engine.
pub open spec fn owner_ok(cfg: ConfigV, sender: Seq<char>) -> bool {
    cfg.owner matches Some(o) && o == sender
}

/// Refuse everyone but the current owner; a frozen engine refuses everyone.
pub fn check_owner(cfg: &Config, sender: &String) -> (r: Result<(), ContractError>)
    ensures
        r is Ok <==> owner_ok(cfg@, sender@),
        r is Err ==> (r matches Err(e) && e is Unauthorized),
{
    match &cfg.owner {
        None => Err(ContractError::Unauthorized {}),
        Some(o) => {
            if sender.eq(o) {
                Ok(())
            } else {
                Err(ContractError::Unauthorized {})
            }
        },
    }
}

/// A fresh engine owned by `owner`, or by the instantiating sender when no
/// owner is named; counters start at zero, the divisor at one thousand and
/// the step at one.
pub fn instantiate(sender: String, msg: InstantiateMsg) -> (r: Config)
    ensures
        r@ == (ConfigV {
            owner: match msg.owner {
                Option::None => Some(sender@),
                Option::Some(o) => Some(o@),
            },
            bdog_token_address: msg.bdog_token_address@,
            gdog_token_address: msg.gdog_token_address@,
            bdog_burn_amount: 0,
            gdog_sent_amount: 0,
            ratio: 1000,
            step: 1,
        }),
{
    let owner = match msg.owner {
        Some(o) => o,
        None => sender,
    };
    Config {
        owner: Some(owner),
        bdog_token_address: msg.bdog_token_address,
        gdog_token_address: msg.gdog_token_address,
        bdog_burn_amount: 0,
        gdog_sent_amount: 0,
        ratio: 1000,
        step: 1,
    }
}

/// Receive `amount` tokens sent by `user` through the token contract
/// `token`. Bdog tokens are burnt and earn gdog at the current divisor;
/// anything else is refused. On success the new step is the smallest one
/// covering the grown lifetime burn, the divisor is `999` plus that step,
/// and the depositor receives the deposit divided by the divisor.
pub fn try_receive(cfg: &mut Config, token: String, user: String, amount: u128) -> (r: Result<
    ReceiveOutcome,
    ContractError,
>)
    ensures
        ({
            let c = old(cfg)@;
            let grown = add_keep(c.bdog_burn_amount, amount);
            &&& (token@ == c.bdog_token_address ==> r is Ok && {
                let c2 = final(cfg)@;
                &&& (amount > 0 ==> {
                    &&& c2.step >= 1
                    &&& filled(c2.step as nat) >= grown / 1000000
                    &&& (c2.step > 1 ==> filled((c2.step - 1) as nat) < grown as int / 1000000)
                    &&& c2.ratio == 999 + c2.step
                    &&& c2.bdog_burn_amount == grown
                    &&& c2.gdog_sent_amount == add_keep(
                        c.gdog_sent_amount, (amount as int / c2.ratio as int) as u128,
                    )
                    &&& (r matches Ok(o) && o matches ReceiveOutcome::BurnAndSend {
                        send,
                        burn_token,
                        burn_amount,
                    } && send@ == (crate::TransferMsgV {
                        token: c.gdog_token_address,
                        recipient: user@,
                        amount: (amount as int / c2.ratio as int) as u128,
                    }) && burn_token@ == c.bdog_token_address && burn_amount == amount)
                })
                &&& (amount == 0 ==> c2 == c && (r matches Ok(o)
                    && o matches ReceiveOutcome::BurnAndSend {
                        send,
                        burn_token,
                        burn_amount,
                    } && send@ == (crate::TransferMsgV {
                        token: c.gdog_token_address,
                        recipient: user@,
                        amount: 0,
                    }) && burn_token@ == c.bdog_token_address && burn_amount == 0))
                &&& c2.owner == c.owner
                &&& c2.bdog_token_address == c.bdog_token_address
                &&& c2.gdog_token_address == c.gdog_token_address
            })
            &&& (token@ != c.bdog_token_address ==> (r matches Err(e) && e is UnacceptableToken)
                && final(cfg)@ == c)
        }),
{
    let ghost c = cfg@;
    if token.eq(&cfg.bdog_token_address) {
        let mut gdog_send: u128 = 0;
        if amount > 0 {
            let grown = match cfg.bdog_burn_amount.checked_add(amount) {
                Some(v) => v,
                None => cfg.bdog_burn_amount,
            };
            let new_step = calculate_step(grown, cfg.step);
            proof {
                lemma_div_is_ordered(grown as int, u128::MAX as int, 1000000);
            }
            let new_ratio = 999 + new_step;
            gdog_send = amount / new_ratio;
            cfg.step = new_step;
            cfg.ratio = new_ratio;
            cfg.bdog_burn_amount = grown;
        }
        cfg.gdog_sent_amount = match cfg.gdog_sent_amount.checked_add(gdog_send) {
            Some(v) => v,
            None => cfg.gdog_sent_amount,
        };
        let send_msg = TransferMsg {
            token: cfg.gdog_token_address.clone(),
            recipient: user,
            amount: gdog_send,
        };
        proof {
            if amount == 0 {
                assert(final(cfg)@ =~= c);
            }
        }
        Ok(ReceiveOutcome::BurnAndSend {
            send: send_msg,
            burn_token: cfg.bdog_token_address.clone(),
            burn_amount: amount,
        })
    } else {
        Err(ContractError::UnacceptableToken {})
    }
}

/// Replace the owner (a missing new owner freezes the engine) and
/// optionally the two token addresses. Only the current owner may call
/// this.
pub fn execute_update_config(
    cfg: &mut Config,
    sender: String,
    new_owner: Option<String>,
    gdog_token_address: Option<String>,
    bdog_token_address: Option<String>,
) -> (r: Result<(), ContractError>)
    ensures
        ({
            let c = old(cfg)@;
            &&& (r is Ok <==> owner_ok(c, sender@))
            &&& (r is Err ==> (r matches Err(e) && e is Unauthorized) && final(cfg)@ == c)
            &&& (r is Ok ==> final(cfg)@ == (ConfigV {
                owner: match new_owner {
                    Option::None => None,
                    Option::Some(ref o) => Some(o@),
                },
                gdog_token_address: match gdog_token_address {
                    Option::None => c.gdog_token_address,
                    Option::Some(ref a) => a@,
                },
                bdog_token_address: match bdog_token_address {
                    Option::None => c.bdog_token_address,
                    Option::Some(ref a) => a@,
                },
                ..c
            }))
        }),
{
    match check_owner(cfg, &sender) {
        Ok(()) => {},
        Err(e) => {
            return Err(e);
        },
    }
    cfg.owner = new_owner;
    match gdog_token_address {
        Some(a) => {
            cfg.gdog_token_address = a;
        },
        None => {},
    }
    match bdog_token_address {
        Some(a) => {
            cfg.bdog_token_address = a;
        },
        None => {},
    }
    Ok(())
}

/// The read-only queries.
pub enum QueryMsg {
    Config {},
}

/// Answer one read-only query.
pub fn query(cfg: &Config, msg: QueryMsg) -> (r: ConfigResponse)
    ensures
        msg is Config ==> {
            &&& (match r.owner {
                Option::None => cfg@.owner is None,
                Option::Some(o) => cfg@.owner == Some(o@),
            })
            &&& r.bdog_token_address@ == cfg@.bdog_token_address
            &&& r.gdog_token_address@ == cfg@.gdog_token_address
            &&& r.bdog_burn_amount == cfg@.bdog_burn_amount
            &&& r.gdog_sent_amount == cfg@.gdog_sent_amount
            &&& r.ratio == cfg@.ratio
            &&& r.step == cfg@.step
        },
{
    match msg {
        QueryMsg::Config {} => query_config(cfg),
    }
}

/// The engine's state as a query answer. Read-only.
pub fn query_config(cfg: &Config) -> (r: ConfigResponse)
    ensures
        (match r.owner {
            Option::None => cfg@.owner is None,
            Option::Some(o) => cfg@.owner == Some(o@),
        }),
        r.bdog_token_address@ == cfg@.bdog_token_address,
        r.gdog_token_address@ == cfg@.gdog_token_address,
        r.bdog_burn_amount == cfg@.bdog_burn_amount,
        r.gdog_sent_amount == cfg@.gdog_sent_amount,
        r.ratio == cfg@.ratio,
        r.step == cfg@.step,
{
    ConfigResponse {
        owner: match &cfg.owner {
            Some(o) => Some(o.clone()),
            None => None,
        },
        bdog_token_address: cfg.bdog_token_address.clone(),
        gdog_token_address: cfg.gdog_token_address.clone(),
        bdog_burn_amount: cfg.bdog_burn_amount,
        gdog_sent_amount: cfg.gdog_sent_amount,
        ratio: cfg.ratio,
        step: cfg.step,
    }
}

/// Whether a migration may proceed: only from the same contract type, whose
/// stored name is `bdogburn`.
pub fn migrate(version_contract: String) -> (r: Result<(), ContractError>)
    ensures
        r is Ok <==> version_contract@ == "bdogburn"@,
        r is Err ==> (r matches Err(e) && e matches ContractError::CannotMigrate {
            previous_contract,
        } && previous_contract@ == version_contract@),
{
    let expected = "bdogburn".to_owned();
    if version_contract.eq(&expected) {
        Ok(())
    } else {
        Err(ContractError::CannotMigrate { previous_contract: version_contract })
    }
}

/// Apply one mutating operation and return what it emits.
pub fn execute(cfg: &mut Config, sender: String, msg: ExecuteMsg) -> (r: Result<
    Option<ReceiveOutcome>,
    ContractError,
>)
    ensures
        ({
            let c = old(cfg)@;
            &&& (msg matches ExecuteMsg::UpdateConfig {
                new_owner,
                gdog_token_address,
                bdog_token_address,
            } ==> {
                &&& (r is Ok <==> owner_ok(c, sender@))
                &&& (r is Err ==> final(cfg)@ == c)
                &&& (r is Ok ==> final(cfg)@ == (ConfigV {
                    owner: match new_owner {
                        Option::None => None,
                        Option::Some(ref o) => Some(o@),
                    },
                    gdog_token_address: match gdog_token_address {
                        Option::None => c.gdog_token_address,
                        Option::Some(ref a) => a@,
                    },
                    bdog_token_address: match bdog_token_address {
                        Option::None => c.bdog_token_address,
                        Option::Some(ref a) => a@,
                    },
                    ..c
                }) && (r matches Ok(o) && o is None))
            })
            &&& (msg matches ExecuteMsg::Receive { sender: user, amount } ==> {
                &&& (r is Ok <==> sender@ == c.bdog_token_address)
                &&& (r is Err ==> (r matches Err(e) && e is UnacceptableToken)
                    && final(cfg)@ == c)
                &&& (r is Ok ==> (r matches Ok(o) && o is Some))
            })
        }),
{
    match msg {
        ExecuteMsg::UpdateConfig { new_owner, gdog_token_address, bdog_token_address } => {
            match execute_update_config(
                cfg, sender, new_owner, gdog_token_address, bdog_token_address,
            ) {
                Ok(()) => Ok(None),
                Err(e) => Err(e),
            }
        },
        ExecuteMsg::Receive { sender: user, amount } => {
            match try_receive(cfg, sender, user, amount) {
                Ok(o) => Ok(Some(o)),
                Err(e) => Err(e),
            }
        },
    }
}

} // verus!
