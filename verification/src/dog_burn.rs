//! The dog-for-bdog conversion engine: it receives dog tokens, burns them,
//! and sends bdog tokens back at a ratio that grows with the lifetime
//! amount burnt. It also banks bdog deposits that the owner can withdraw.
use vstd::prelude::*;

verus! {

use crate::TransferMsg;

/// Why a conversion operation was refused.
#[derive(Debug, PartialEq)]
pub enum ContractError {
    /// The caller is not the owner, or the contract is frozen.
    Unauthorized {},
    /// Tokens arrived from a contract the engine does not manage.
    UnacceptableToken {},
    /// An intermediate amount does not fit the arithmetic width.
    Overflow {},
}

/// The engine's whole persistent state.
pub struct Config {
    /// Owner; when `None` the configuration is frozen.
    pub owner: Option<String>,
    pub dog_token_address: String,
    pub bdog_token_address: String,
    pub dog_burn_amount: u128,
    pub bdog_sent_amount: u128,
    pub bdog_current_amount: u128,
    pub ratio: u128,
}

/// Mathematical image of `Config`.
#[verifier::ext_equal]
pub struct ConfigV {
    pub owner: Option<Seq<char>>,
    pub dog_token_address: Seq<char>,
    pub bdog_token_address: Seq<char>,
    pub dog_burn_amount: u128,
    pub bdog_sent_amount: u128,
    pub bdog_current_amount: u128,
    pub ratio: u128,
}

impl View for Config {
    type V = ConfigV;

    open spec fn view(&self) -> ConfigV {
        ConfigV {
            owner: match self.owner {
                Option::None => None,
                Option::Some(ref o) => Some(o@),
            },
            dog_token_address: self.dog_token_address@,
            bdog_token_address: self.bdog_token_address@,
            dog_burn_amount: self.dog_burn_amount,
            bdog_sent_amount: self.bdog_sent_amount,
            bdog_current_amount: self.bdog_current_amount,
            ratio: self.ratio,
        }
    }
}

/// Everything an engine instance is created with.
pub struct InstantiateMsg {
    /// Owner; defaults to the instantiating sender.
    pub owner: Option<String>,
    pub dog_token_address: String,
    pub bdog_token_address: String,
}

/// What a token deposit asks the engine to do; the engine decides by the
/// sending token contract alone.
pub enum ReceiveMsg {
    Dog {},
    Bdog {},
}

/// The mutating operations.
pub enum ExecuteMsg {
    UpdateConfig { new_owner: Option<String> },
    Receive { sender: String, amount: u128 },
    WithdrawAll {},
}

/// The engine's state as a query answer.
pub struct ConfigResponse {
    pub owner: Option<String>,
    pub dog_token_address: String,
    pub bdog_token_address: String,
    pub dog_burn_amount: u128,
    pub bdog_sent_amount: u128,
    pub bdog_current_amount: u128,
    pub ratio: u128,
}

/// What receiving tokens leads to: dog tokens are burnt and bdog sent back;
/// bdog tokens are simply banked.
pub enum ReceiveOutcome {
    /// Send `send` to the depositor and burn `burn` on the dog token.
    BurnAndSend { send: TransferMsg, burn_token: String, burn_amount: u128 },
    /// The deposit was banked; nothing leaves the engine.
    Banked {},
}

/// A saturating-to-old addition: the sum when it fits, the old value when
/// it does not. This mirrors how the lifetime counters absorb overflow.
pub open spec fn add_keep(a: u128, b: u128) -> u128 {
    if a + b <= u128::MAX {
        (a + b) as u128
    } else {
        a
    }
}

/// The conversion ratio for a lifetime burn amount: ten plus one for every
/// further trillion base units burnt, in force once a million whole tokens
/// were burnt; before that the current ratio stays.
pub open spec fn calc_ratio_spec(burn_amount: u128, current_ratio: u128) -> int {
    let no_decimal = burn_amount as int / 1000000;
    if no_decimal < 1000000 {
        current_ratio as int
    } else {
        10 + no_decimal / 1000000
    }
}

/// The conversion ratio as a machine integer.
pub fn calculate_ratio(burn_amount: u128, current_ratio: u128) -> (r: u128)
    ensures
        r as int == calc_ratio_spec(burn_amount, current_ratio),
{
    let no_decimal = burn_amount / 1000000;
    if no_decimal < 1000000 {
        current_ratio
    } else {
        proof {
            assert(burn_amount as int / 1000000 / 1000000 <= u128::MAX as int / 1000000)
                by (nonlinear_arith);
        }
        10 + no_decimal / 1000000
    }
}

/// Whether `sender` owns the engine.
pub open spec fn owner_ok(cfg: ConfigV, sender: Seq<char>) -> bool {
    cfg.owner matches Some(o) && o == sender
}

/// Refuse everyone but the current owner; a frozen engine refuses everyone.
pub fn check_owner(cfg: &Config, sender: &String) -> (r: Result<(), ContractError>)
    ensures
        r is Ok <==> owner_ok(cfg@, sender@),
        r is Err ==> (r matches Err(e) && e is Unauthorized),
{
    match &cfg.owner {
        None => Err(ContractError::Unauthorized {}),
        Some(o) => {
            if sender.eq(o) {
                Ok(())
            } else {
                Err(ContractError::Unauthorized {})
            }
        },
    }
}

/// A fresh engine owned by `owner`, or by the instantiating sender when no
/// owner is named; counters start at zero and the ratio at ten.
pub fn instantiate(sender: String, msg: InstantiateMsg) -> (r: Config)
    ensures
        r@ == (ConfigV {
            owner: match msg.owner {
                Option::None => Some(sender@),
                Option::Some(o) => Some(o@),
            },
            dog_token_address: msg.dog_token_address@,
            bdog_token_address: msg.bdog_token_address@,
            dog_burn_amount: 0,
            bdog_sent_amount: 0,
            bdog_current_amount: 0,
            ratio: 10,
        }),
{
    let owner = match msg.owner {
        Some(o) => o,
        None => sender,
    };
    Config {
        owner: Some(owner),
        dog_token_address: msg.dog_token_address,
        bdog_token_address: msg.bdog_token_address,
        dog_burn_amount: 0,
        bdog_sent_amount: 0,
        bdog_current_amount: 0,
        ratio: 10,
    }
}

/// The configuration after a dog deposit of `amount`: the ratio is
/// recomputed from the grown lifetime burn, and the lifetime counters
/// absorb the deposit and the bdog sent out.
pub open spec fn dog_receive_next(cfg: ConfigV, amount: u128, send: u128) -> ConfigV {
    let new_ratio = if amount > 0 {
        calc_ratio_spec(add_keep(cfg.dog_burn_amount, amount), cfg.ratio) as u128
    } else {
        cfg.ratio
    };
    ConfigV {
        ratio: new_ratio,
        dog_burn_amount: add_keep(cfg.dog_burn_amount, amount),
        bdog_sent_amount: add_keep(cfg.bdog_sent_amount, send),
        ..cfg
    }
}

/// The bdog amount a dog deposit earns: the new ratio times the deposit.
pub open spec fn dog_send_amount(cfg: ConfigV, amount: u128) -> int {
    if amount > 0 {
        calc_ratio_spec(add_keep(cfg.dog_burn_amount, amount), cfg.ratio) * amount
    } else {
        0
    }
}

/// Receive `amount` tokens sent by `user` through the token contract
/// `token`. Dog tokens are burnt and earn bdog at the current ratio; bdog
/// tokens are banked; anything else is refused.
pub fn try_receive(cfg: &mut Config, token: String, user: String, amount: u128) -> (r: Result<
    ReceiveOutcome,
    ContractError,
>)
    ensures
        ({
            let c = old(cfg)@;
            &&& (token@ == c.dog_token_address ==> {
                &&& (r is Ok <==> (amount == 0 || dog_send_amount(c, amount) <= u128::MAX))
                &&& (r is Err ==> (r matches Err(e) && e is Overflow) && final(cfg)@ == c)
                &&& (r is Ok ==> final(cfg)@ == dog_receive_next(
                    c, amount, dog_send_amount(c, amount) as u128,
                ) && (r matches Ok(o) && o matches ReceiveOutcome::BurnAndSend {
                    send,
                    burn_token,
                    burn_amount,
                } && send@ == (crate::TransferMsgV {
                    token: c.bdog_token_address,
                    recipient: user@,
                    amount: dog_send_amount(c, amount) as u128,
                }) && burn_token@ == c.dog_token_address && burn_amount == amount))
            })
            &&& (token@ != c.dog_token_address && token@ == c.bdog_token_address ==> {
                &&& (r is Ok <==> c.bdog_current_amount + amount <= u128::MAX)
                &&& (r is Err ==> (r matches Err(e) && e is Overflow) && final(cfg)@ == c)
                &&& (r is Ok ==> final(cfg)@ == (ConfigV {
                    bdog_current_amount: (c.bdog_current_amount + amount) as u128,
                    ..c
                }) && (r matches Ok(o) && o is Banked))
            })
            &&& (token@ != c.dog_token_address && token@ != c.bdog_token_address ==> (
                r matches Err(e) && e is UnacceptableToken) && final(cfg)@ == c)
        }),
{
    let ghost c = cfg@;
    if token.eq(&cfg.dog_token_address) {
        let mut send: u128 = 0;
        let mut new_ratio = cfg.ratio;
        if amount > 0 {
            let grown = match cfg.dog_burn_amount.checked_add(amount) {
                Some(v) => v,
                None => cfg.dog_burn_amount,
            };
            new_ratio = calculate_ratio(grown, cfg.ratio);
            send = match new_ratio.checked_mul(amount) {
                Some(v) => v,
                None => {
                    return Err(ContractError::Overflow {});
                },
            };
        }
        cfg.ratio = new_ratio;
        cfg.dog_burn_amount = match cfg.dog_burn_amount.checked_add(amount) {
            Some(v) => v,
            None => cfg.dog_burn_amount,
        };
        cfg.bdog_sent_amount = match cfg.bdog_sent_amount.checked_add(send) {
            Some(v) => v,
            None => cfg.bdog_sent_amount,
        };
        let send_msg = TransferMsg {
            token: cfg.bdog_token_address.clone(),
            recipient: user,
            amount: send,
        };
        proof {
            assert(final(cfg)@ =~= dog_receive_next(c, amount, send));
        }
        Ok(ReceiveOutcome::BurnAndSend {
            send: send_msg,
            burn_token: cfg.dog_token_address.clone(),
            burn_amount: amount,
        })
    } else if token.eq(&cfg.bdog_token_address) {
        let new_amount = match cfg.bdog_current_amount.checked_add(amount) {
            Some(v) => v,
            None => {
                return Err(ContractError::Overflow {});
            },
        };
        cfg.bdog_current_amount = new_amount;
        Ok(ReceiveOutcome::Banked {})
    } else {
        Err(ContractError::UnacceptableToken {})
    }
}

/// Replace the owner with the given one; a missing new owner freezes the
/// engine. Only the current owner may call this.
pub fn execute_update_config(cfg: &mut Config, sender: String, new_owner: Option<String>) -> (r:
    Result<(), ContractError>)
    ensures
        ({
            let c = old(cfg)@;
            &&& (r is Ok <==> owner_ok(c, sender@))
            &&& (r is Err ==> (r matches Err(e) && e is Unauthorized) && final(cfg)@ == c)
            &&& (r is Ok ==> final(cfg)@ == (ConfigV {
                owner: match new_owner {
                    Option::None => None,
                    Option::Some(o) => Some(o@),
                },
                ..c
            }))
        }),
{
    match check_owner(cfg, &sender) {
        Ok(()) => {},
        Err(e) => {
            return Err(e);
        },
    }
    cfg.owner = new_owner;
    Ok(())
}

/// Pay the whole banked bdog amount back to the owner and zero it.
pub fn try_withdraw_all(cfg: &mut Config, sender: String) -> (r: Result<
    TransferMsg,
    ContractError,
>)
    ensures
        ({
            let c = old(cfg)@;
            &&& (r is Ok <==> owner_ok(c, sender@))
            &&& (r is Err ==> (r matches Err(e) && e is Unauthorized) && final(cfg)@ == c)
            &&& (r is Ok ==> final(cfg)@ == (ConfigV { bdog_current_amount: 0, ..c }) && (
                r matches Ok(t) && t@ == (crate::TransferMsgV {
                    token: c.bdog_token_address,
                    recipient: sender@,
                    amount: c.bdog_current_amount,
                })))
        }),
{
    match check_owner(cfg, &sender) {
        Ok(()) => {},
        Err(e) => {
            return Err(e);
        },
    }
    let amount = cfg.bdog_current_amount;
    cfg.bdog_current_amount = 0;
    Ok(TransferMsg { token: cfg.bdog_token_address.clone(), recipient: sender, amount })
}

/// The read-only queries.
pub enum QueryMsg {
    Config {},
}

/// Answer one read-only query.
pub fn query(cfg: &Config, msg: QueryMsg) -> (r: ConfigResponse)
    ensures
        msg is Config ==> {
            &&& (match r.owner {
                Option::None => cfg@.owner is None,
                Option::Some(o) => cfg@.owner == Some(o@),
            })
            &&& r.dog_token_address@ == cfg@.dog_token_address
            &&& r.bdog_token_address@ == cfg@.bdog_token_address
            &&& r.dog_burn_amount == cfg@.dog_burn_amount
            &&& r.bdog_sent_amount == cfg@.bdog_sent_amount
            &&& r.bdog_current_amount == cfg@.bdog_current_amount
            &&& r.ratio == cfg@.ratio
        },
{
    match msg {
        QueryMsg::Config {} => query_config(cfg),
    }
}

/// The engine's state as a query answer. Read-only.
pub fn query_config(cfg: &Config) -> (r: ConfigResponse)
    ensures
        (match r.owner {
            Option::None => cfg@.owner is None,
            Option::Some(o) => cfg@.owner == Some(o@),
        }),
        r.dog_token_address@ == cfg@.dog_token_address,
        r.bdog_token_address@ == cfg@.bdog_token_address,
        r.dog_burn_amount == cfg@.dog_burn_amount,
        r.bdog_sent_amount == cfg@.bdog_sent_amount,
        r.bdog_current_amount == cfg@.bdog_current_amount,
        r.ratio == cfg@.ratio,
{
    ConfigResponse {
        owner: match &cfg.owner {
            Some(o) => Some(o.clone()),
            None => None,
        },
        dog_token_address: cfg.dog_token_address.clone(),
        bdog_token_address: cfg.bdog_token_address.clone(),
        dog_burn_amount: cfg.dog_burn_amount,
        bdog_sent_amount: cfg.bdog_sent_amount,
        bdog_current_amount: cfg.bdog_current_amount,
        ratio: cfg.ratio,
    }
}

/// What one mutating operation led to.
pub enum ExecuteOutcome {
    /// A deposit was handled.
    Received(ReceiveOutcome),
    /// The banked bdog amount was paid out.
    Withdrawn(TransferMsg),
    /// The configuration changed; nothing leaves the engine.
    Updated {},
}

/// Apply one mutating operation and return what it emits.
pub fn execute(cfg: &mut Config, sender: String, msg: ExecuteMsg) -> (r: Result<
    ExecuteOutcome,
    ContractError,
>)
    ensures
        ({
            let c = old(cfg)@;
            &&& (msg matches ExecuteMsg::UpdateConfig { new_owner } ==> {
                &&& (r is Ok <==> owner_ok(c, sender@))
                &&& (r is Err ==> final(cfg)@ == c)
                &&& (r is Ok ==> final(cfg)@ == (ConfigV {
                    owner: match new_owner {
                        Option::None => None,
                        Option::Some(o) => Some(o@),
                    },
                    ..c
                }) && (r matches Ok(o) && o is Updated))
            })
            &&& (msg matches ExecuteMsg::WithdrawAll {} ==> {
                &&& (r is Ok <==> owner_ok(c, sender@))
                &&& (r is Err ==> final(cfg)@ == c)
                &&& (r is Ok ==> final(cfg)@ == (ConfigV { bdog_current_amount: 0, ..c }) && (
                    r matches Ok(o) && o matches ExecuteOutcome::Withdrawn(t) && t@ == (
                        crate::TransferMsgV {
                            token: c.bdog_token_address,
                            recipient: sender@,
                            amount: c.bdog_current_amount,
                        })))
            })
            &&& (msg matches ExecuteMsg::Receive { sender: user, amount } ==> {
                &&& (token_known(c, sender@) ==> (r is Ok <==> receive_fits(c, sender@, amount)))
                &&& (!token_known(c, sender@) ==> (r matches Err(e) && e is UnacceptableToken)
                    && final(cfg)@ == c)
                &&& (r is Err ==> final(cfg)@ == c)
                &&& (r is Ok ==> (r matches Ok(o) && o is Received))
            })
        }),
{
    match msg {
        ExecuteMsg::UpdateConfig { new_owner } => {
            match execute_update_config(cfg, sender, new_owner) {
                Ok(()) => Ok(ExecuteOutcome::Updated {}),
                Err(e) => Err(e),
            }
        },
        ExecuteMsg::Receive { sender: user, amount } => {
            match try_receive(cfg, sender, user, amount) {
                Ok(o) => Ok(ExecuteOutcome::Received(o)),
                Err(e) => Err(e),
            }
        },
        ExecuteMsg::WithdrawAll {} => {
            match try_withdraw_all(cfg, sender) {
                Ok(t) => Ok(ExecuteOutcome::Withdrawn(t)),
                Err(e) => Err(e),
            }
        },
    }
}

/// Whether the engine manages the token contract that sent a deposit.
pub open spec fn token_known(c: ConfigV, token: Seq<char>) -> bool {
    token == c.dog_token_address || token == c.bdog_token_address
}

/// Whether a deposit through a managed token stays within the arithmetic
/// width.
pub open spec fn receive_fits(c: ConfigV, token: Seq<char>, amount: u128) -> bool {
    if token == c.dog_token_address {
        amount == 0 || dog_send_amount(c, amount) <= u128::MAX
    } else {
        c.bdog_current_amount + amount <= u128::MAX
    }
}

} // verus!
