//! The ash mint house: it takes deposits of allowed native coins, of the
//! `uhuahua` coin, or of allowed cw20 tokens, burns what was deposited, and
//! sends the depositor the same amount of the ash token. It tracks lifetime
//! deposits per source and per account.
use vstd::prelude::*;

verus! {

use crate::TransferMsg;
use crate::addr_bytes::{key_of, lex_lt};
use crate::kvlist::{entry_key, kv_find, kv_has, kv_ins, kv_locate, kv_page_from,
    kv_page_start_pos, kv_sorted, kv_upsert, lemma_kv_upsert_sorted};
use crate::{contains_string, is_listed};

/// Why a mint operation was refused.
#[derive(Debug, PartialEq)]
pub enum ContractError {
    /// The caller is not an allowed operator.
    Unauthorized {},
    /// The house does not hold enough burnable coins.
    InsufficientBalance {},
    /// A deposit must consist of exactly one native coin.
    SendSingleNativeToken {},
    /// The deposited denomination is not accepted.
    DenomNotAllowed { denom: String },
    /// The sent funds do not match the requested amount and denomination.
    InputMismatch {},
    /// An intermediate amount does not fit the arithmetic width.
    Overflow {},
}

/// One native coin: a denomination and an amount.
pub struct Coin {
    pub denom: String,
    pub amount: u128,
}

/// The house's parameters: who may operate it and what it accepts.
pub struct State {
    pub allowed_operators: Vec<String>,
    pub allowed_native: Vec<String>,
    pub allowed_cw20: Vec<String>,
    pub ash_cw20: String,
}

/// One account's lifetime deposit record.
pub struct DepositInfo {
    pub addr: String,
    pub amount: u128,
}

/// The mint house: parameters, the lifetime counters per deposit source,
/// and the per-account deposit records sorted by account key.
pub struct AshHouse {
    pub state: State,
    pub cw20_deposited: u128,
    pub huahua_deposited: u128,
    pub native_deposited: u128,
    pub ash_minted: u128,
    pub deposit_list: Vec<(String, u128)>,
}

impl AshHouse {
    /// The deposit records are kept sorted by account key.
    pub open spec fn well_formed(self) -> bool {
        kv_sorted(self.deposit_list@)
    }
}

/// Everything a house instance is created with.
pub struct InstantiateMsg {
    pub allowed_operators: Vec<String>,
    pub allowed_native: Vec<String>,
    pub allowed_cw20: Vec<String>,
    pub ash_cw20: String,
}

/// What a cw20 deposit asks the house to do with the funds.
pub enum ReceiveMsg {
    MintCw20 { owner: String },
}

/// The mutating operations.
pub enum ExecuteMsg {
    MintAsh { native: String, amount: u128 },
    MintFromHuahua {},
    Receive { sender: String, amount: u128, msg: ReceiveMsg },
    EditState {
        allowed_operators: Vec<String>,
        allowed_native: Vec<String>,
        allowed_cw20: Vec<String>,
        ash_cw20: String,
    },
}

/// The read-only queries the house answers itself; its token balance is a
/// question for the external ledger.
pub enum QueryMsg {
    GetState {},
    GetDepositDetails { start_after: Option<String>, limit: Option<u32> },
}

/// The parameters and lifetime counters as a query answer.
pub struct GetStateResponse {
    pub allowed_operators: Vec<String>,
    pub allowed_native: Vec<String>,
    pub allowed_cw20: Vec<String>,
    pub ash_cw20: String,
    pub ash: u128,
    pub cw20: u128,
    pub huahua: u128,
    pub native: u128,
}

/// One page of deposit records, ascending by account.
pub struct DepositDetailedInfoResponse {
    pub details: Vec<DepositInfo>,
}

/// The house's balance of the ash token, as the external ledger reports it.
pub struct BalanceResponse {
    pub balance: u128,
}

/// What a native-coin mint leads to: the burnt coin, if any, and the ash
/// transfer to the depositor.
pub struct MintOutcome {
    /// The native coin to burn; an operator's mint burns nothing.
    pub burn: Option<Coin>,
    /// The ash transfer to the depositor.
    pub transfer: TransferMsg,
}

/// What a cw20 mint leads to: the cw20 burn, if any, and the ash transfer.
pub struct MintCw20Outcome {
    /// The token contract to burn on and the amount; an operator's mint
    /// burns nothing.
    pub burn: Option<(String, u128)>,
    /// The ash transfer to the new owner.
    pub transfer: TransferMsg,
}

/// Index of the first held coin that is an accepted denomination with a
/// non-zero amount, or `-1` if none is.
pub open spec fn first_spendable(balances: Seq<Coin>, allowed: Seq<String>) -> int
    decreases balances.len(),
{
    if balances.len() == 0 {
        -1
    } else if is_listed(allowed, balances[0].denom@) && balances[0].amount != 0 {
        0
    } else {
        let r = first_spendable(balances.skip(1), allowed);
        if r == -1 {
            -1
        } else {
            r + 1
        }
    }
}

/// `first_spendable` finds the first spendable coin.
proof fn lemma_first_spendable_at(balances: Seq<Coin>, allowed: Seq<String>, i: int)
    requires
        0 <= i < balances.len(),
        is_listed(allowed, balances[i].denom@),
        balances[i].amount != 0,
        forall|j: int| 0 <= j < i ==> !(is_listed(allowed, (#[trigger] balances[j]).denom@)
            && balances[j].amount != 0),
    ensures
        first_spendable(balances, allowed) == i,
    decreases balances.len(),
{
    if i > 0 {
        lemma_first_spendable_at(balances.skip(1), allowed, i - 1);
    }
}

/// No coin is spendable.
proof fn lemma_first_spendable_none(balances: Seq<Coin>, allowed: Seq<String>)
    requires
        forall|j: int| 0 <= j < balances.len() ==> !(is_listed(
            allowed, (#[trigger] balances[j]).denom@) && balances[j].amount != 0),
    ensures
        first_spendable(balances, allowed) == -1,
    decreases balances.len(),
{
    if balances.len() > 0 {
        lemma_first_spendable_none(balances.skip(1), allowed);
    }
}

/// The first spendable coin held by the house.
fn find_spendable(balances: &Vec<Coin>, allowed: &Vec<String>) -> (r: Option<usize>)
    ensures
        (r matches Some(i) ==> i < balances@.len() && i as int == first_spendable(
            balances@, allowed@,
        )),
        r is None ==> first_spendable(balances@, allowed@) == -1,
{
    let ghost s = balances@;
    let n = balances.len();
    let mut i: usize = 0;
    while i < n
        invariant
            s == balances@,
            n == balances.len(),
            i <= n,
            forall|j: int| 0 <= j < i ==> !(is_listed(allowed@, (#[trigger] s[j]).denom@)
                && s[j].amount != 0),
        decreases n - i,
    {
        if balances[i].amount != 0 && contains_string(allowed, &balances[i].denom) {
            proof {
                lemma_first_spendable_at(s, allowed@, i as int);
            }
            return Some(i);
        }
        i = i + 1;
    }
    proof {
        lemma_first_spendable_none(s, allowed@);
    }
    None
}

/// The coin a mint burns: the requested amount when the found coin covers
/// it, else the whole found coin.
pub open spec fn burn_coin(balances: Seq<Coin>, allowed: Seq<String>, amount: u128)
    -> (Seq<char>, u128) {
    let c = balances[first_spendable(balances, allowed)];
    if c.amount >= amount {
        (c.denom@, amount)
    } else {
        (c.denom@, c.amount)
    }
}

/// The deposit records after account `addr` deposits `amount` more.
pub open spec fn deposit_next(s: Seq<(String, u128)>, addr: String, amount: u128)
    -> Seq<(String, u128)> {
    let k = key_of(addr@);
    if kv_has(s, k) {
        s.update(kv_find(s, k), (s[kv_find(s, k)].0, (s[kv_find(s, k)].1 + amount) as u128))
    } else {
        s.insert(kv_ins(s, k), (addr, amount))
    }
}

/// Whether growing `addr`'s deposit record by `amount` stays within the
/// arithmetic width.
pub open spec fn deposit_fits(s: Seq<(String, u128)>, k: Seq<u8>, amount: u128) -> bool {
    kv_has(s, k) ==> s[kv_find(s, k)].1 + amount <= u128::MAX
}

/// Grow `addr`'s deposit record by `amount`, filing a fresh record when
/// none exists.
fn deposit_store(entries: &mut Vec<(String, u128)>, addr: String, amount: u128) -> (r: Result<
    (),
    ContractError,
>)
    requires
        kv_sorted(old(entries)@),
    ensures
        kv_sorted(final(entries)@),
        r is Ok <==> deposit_fits(old(entries)@, key_of(addr@), amount),
        r is Err ==> final(entries)@ == old(entries)@ && (r matches Err(e) && e is Overflow),
        r is Ok ==> final(entries)@ == deposit_next(old(entries)@, addr, amount),
{
    let ghost s = entries@;
    let ghost k = key_of(addr@);
    let (found, idx) = kv_locate(entries, addr.as_str());
    if found {
        let grown = match entries[idx].1.checked_add(amount) {
            Some(v) => v,
            None => {
                return Err(ContractError::Overflow {});
            },
        };
        let kept = entries[idx].0.clone();
        proof {
            assert(kept == s[idx as int].0);
        }
        entries.set(idx, (kept, grown));
        proof {
            assert(final(entries)@ =~= deposit_next(s, addr, amount));
            assert forall|x: int, y: int| 0 <= x < y < final(entries)@.len() implies lex_lt(
                entry_key(final(entries)@[x]), entry_key(final(entries)@[y])) by {
                assert(entry_key(final(entries)@[x]) == entry_key(s[x]));
                assert(entry_key(final(entries)@[y]) == entry_key(s[y]));
            }
        }
        Ok(())
    } else {
        let ghost e = (addr, amount);
        proof {
            lemma_kv_upsert_sorted(s, e);
            assert(kv_upsert(s, e) == s.insert(kv_ins(s, k), e));
        }
        entries.insert(idx, (addr, amount));
        proof {
            assert(final(entries)@ =~= kv_upsert(s, e));
        }
        Ok(())
    }
}

/// A fresh house with the given parameters, zero counters and no deposit
/// records.
pub fn instantiate(msg: InstantiateMsg) -> (r: AshHouse)
    ensures
        r.well_formed(),
        r.state.allowed_operators@ == msg.allowed_operators@,
        r.state.allowed_native@ == msg.allowed_native@,
        r.state.allowed_cw20@ == msg.allowed_cw20@,
        r.state.ash_cw20@ == msg.ash_cw20@,
        r.cw20_deposited == 0,
        r.huahua_deposited == 0,
        r.native_deposited == 0,
        r.ash_minted == 0,
        r.deposit_list@.len() == 0,
{
    AshHouse {
        state: State {
            allowed_operators: msg.allowed_operators,
            allowed_native: msg.allowed_native,
            allowed_cw20: msg.allowed_cw20,
            ash_cw20: msg.ash_cw20,
        },
        cw20_deposited: 0,
        huahua_deposited: 0,
        native_deposited: 0,
        ash_minted: 0,
        deposit_list: Vec::new(),
    }
}

/// The house's parameters read the same in two snapshots.
pub open spec fn same_params(a: AshHouse, b: AshHouse) -> bool {
    &&& a.state.allowed_operators@ == b.state.allowed_operators@
    &&& a.state.allowed_native@ == b.state.allowed_native@
    &&& a.state.allowed_cw20@ == b.state.allowed_cw20@
    &&& a.state.ash_cw20@ == b.state.ash_cw20@
}

/// The house's counters and records read the same in two snapshots.
pub open spec fn same_funds(a: AshHouse, b: AshHouse) -> bool {
    &&& a.cw20_deposited == b.cw20_deposited
    &&& a.huahua_deposited == b.huahua_deposited
    &&& a.native_deposited == b.native_deposited
    &&& a.ash_minted == b.ash_minted
    &&& a.deposit_list@ == b.deposit_list@
}

impl AshHouse {
    /// Mint ash for a native-coin deposit: a plain account must send
    /// exactly one accepted coin matching its request, which the house
    /// burns from its holdings; an allowed operator mints without sending
    /// coins. The depositor receives `amount` of ash, and the lifetime
    /// native and ash counters and the sender's deposit record grow by it.
    pub fn mint_ash(
        &mut self,
        sender: String,
        funds: Vec<Coin>,
        contract_balances: Vec<Coin>,
        native: String,
        amount: u128,
    ) -> (r: Result<MintOutcome, ContractError>)
        requires
            old(self).well_formed(),
        ensures
            final(self).well_formed(),
            same_params(*final(self), *old(self)),
            final(self).cw20_deposited == old(self).cw20_deposited,
            final(self).huahua_deposited == old(self).huahua_deposited,
            ({
                let op = is_listed(old(self).state.allowed_operators@, sender@);
                let dep = old(self).deposit_list@;
                let k = key_of(sender@);
                let fits = old(self).native_deposited + amount <= u128::MAX
                    && old(self).ash_minted + amount <= u128::MAX && deposit_fits(dep, k, amount);
                let funds_ok = funds@.len() == 1 && is_listed(
                    old(self).state.allowed_native@, funds@[0].denom@,
                ) && !(funds@[0].amount != amount && funds@[0].denom@ != native@)
                    && first_spendable(contract_balances@, old(self).state.allowed_native@) >= 0;
                &&& (!op && funds@.len() != 1 ==> (r matches Err(e)
                    && e is SendSingleNativeToken))
                &&& (!op && funds@.len() == 1 && !is_listed(
                    old(self).state.allowed_native@, funds@[0].denom@,
                ) ==> (r matches Err(e) && e matches ContractError::DenomNotAllowed { denom }
                    && denom@ == funds@[0].denom@))
                &&& (!op && funds@.len() == 1 && is_listed(
                    old(self).state.allowed_native@, funds@[0].denom@,
                ) && funds@[0].amount != amount && funds@[0].denom@ != native@ ==> (
                    r matches Err(e) && e is InputMismatch))
                &&& (!op && funds@.len() == 1 && is_listed(
                    old(self).state.allowed_native@, funds@[0].denom@,
                ) && !(funds@[0].amount != amount && funds@[0].denom@ != native@)
                    && first_spendable(contract_balances@, old(self).state.allowed_native@) == -1
                    ==> (r matches Err(e) && e is InsufficientBalance))
                &&& ((op || funds_ok) && !fits ==> (r matches Err(e) && e is Overflow))
                &&& (r is Ok <==> (op || funds_ok) && fits)
                &&& (r is Err ==> same_funds(*final(self), *old(self)))
                &&& (r is Ok ==> {
                    &&& final(self).native_deposited == old(self).native_deposited + amount
                    &&& final(self).ash_minted == old(self).ash_minted + amount
                    &&& final(self).deposit_list@ == deposit_next(dep, sender, amount)
                    &&& (r matches Ok(o) && {
                        &&& o.transfer@ == (crate::TransferMsgV {
                            token: old(self).state.ash_cw20@,
                            recipient: sender@,
                            amount: amount,
                        })
                        &&& (op ==> o.burn is None)
                        &&& (!op ==> (o.burn matches Some(c) && (c.denom@, c.amount) == burn_coin(
                            contract_balances@, old(self).state.allowed_native@, amount,
                        )))
                    })
                })
            }),
    {
        let op = contains_string(&self.state.allowed_operators, &sender);
        let mut burn: Option<Coin> = None;
        if !op {
            if funds.len() != 1 {
                return Err(ContractError::SendSingleNativeToken {});
            }
            if !contains_string(&self.state.allowed_native, &funds[0].denom) {
                return Err(ContractError::DenomNotAllowed { denom: funds[0].denom.clone() });
            }
            if funds[0].amount != amount && !funds[0].denom.eq(&native) {
                return Err(ContractError::InputMismatch {});
            }
            let found = find_spendable(&contract_balances, &self.state.allowed_native);
            let fidx = match found {
                Some(i) => i,
                None => {
                    return Err(ContractError::InsufficientBalance {});
                },
            };
            let coin = if contract_balances[fidx].amount >= amount {
                Coin { denom: contract_balances[fidx].denom.clone(), amount }
            } else {
                Coin {
                    denom: contract_balances[fidx].denom.clone(),
                    amount: contract_balances[fidx].amount,
                }
            };
            burn = Some(coin);
        }
        let new_native = match self.native_deposited.checked_add(amount) {
            Some(v) => v,
            None => {
                return Err(ContractError::Overflow {});
            },
        };
        let new_minted = match self.ash_minted.checked_add(amount) {
            Some(v) => v,
            None => {
                return Err(ContractError::Overflow {});
            },
        };
        let transfer = TransferMsg {
            token: self.state.ash_cw20.clone(),
            recipient: sender.clone(),
            amount,
        };
        match deposit_store(&mut self.deposit_list, sender, amount) {
            Ok(()) => {},
            Err(e) => {
                return Err(e);
            },
        }
        self.native_deposited = new_native;
        self.ash_minted = new_minted;
        Ok(MintOutcome { burn, transfer })
    }

    /// Mint ash for a deposit of the `uhuahua` coin: the sender must send
    /// exactly one `uhuahua` coin, the house burns the same amount from its
    /// accepted holdings, and the depositor receives that amount of ash.
    /// The lifetime huahua and ash counters grow by it; per-account records
    /// are not kept for this path.
    pub fn mint_from_huahua(
        &mut self,
        sender: String,
        funds: Vec<Coin>,
        contract_balances: Vec<Coin>,
    ) -> (r: Result<MintOutcome, ContractError>)
        requires
            old(self).well_formed(),
        ensures
            final(self).well_formed(),
            same_params(*final(self), *old(self)),
            final(self).cw20_deposited == old(self).cw20_deposited,
            final(self).native_deposited == old(self).native_deposited,
            final(self).deposit_list@ == old(self).deposit_list@,
            ({
                let sent = funds@[0].amount;
                let fits = old(self).huahua_deposited + sent <= u128::MAX
                    && old(self).ash_minted + sent <= u128::MAX;
                &&& (funds@.len() != 1 ==> (r matches Err(e) && e is SendSingleNativeToken))
                &&& (funds@.len() == 1 && funds@[0].denom@ != "uhuahua"@ ==> (r matches Err(e)
                    && e matches ContractError::DenomNotAllowed { denom }
                    && denom@ == funds@[0].denom@))
                &&& (funds@.len() == 1 && funds@[0].denom@ == "uhuahua"@ && first_spendable(
                    contract_balances@, old(self).state.allowed_native@,
                ) == -1 ==> (r matches Err(e) && e is InsufficientBalance))
                &&& (funds@.len() == 1 && funds@[0].denom@ == "uhuahua"@ && first_spendable(
                    contract_balances@, old(self).state.allowed_native@,
                ) >= 0 && !fits ==> (r matches Err(e) && e is Overflow))
                &&& (r is Ok <==> funds@.len() == 1 && funds@[0].denom@ == "uhuahua"@
                    && first_spendable(contract_balances@, old(self).state.allowed_native@) >= 0
                    && fits)
                &&& (r is Err ==> same_funds(*final(self), *old(self)))
                &&& (r is Ok ==> {
                    &&& final(self).huahua_deposited == old(self).huahua_deposited + sent
                    &&& final(self).ash_minted == old(self).ash_minted + sent
                    &&& (r matches Ok(o) && {
                        &&& o.transfer@ == (crate::TransferMsgV {
                            token: old(self).state.ash_cw20@,
                            recipient: sender@,
                            amount: sent,
                        })
                        &&& (o.burn matches Some(c) && (c.denom@, c.amount) == burn_coin(
                            contract_balances@, old(self).state.allowed_native@, sent,
                        ))
                    })
                })
            }),
    {
        if funds.len() != 1 {
            return Err(ContractError::SendSingleNativeToken {});
        }
        let expected = "uhuahua".to_owned();
        if !funds[0].denom.eq(&expected) {
            return Err(ContractError::DenomNotAllowed { denom: funds[0].denom.clone() });
        }
        let sent_amount = funds[0].amount;
        let found = find_spendable(&contract_balances, &self.state.allowed_native);
        let fidx = match found {
            Some(i) => i,
            None => {
                return Err(ContractError::InsufficientBalance {});
            },
        };
        let coin = if contract_balances[fidx].amount >= sent_amount {
            Coin { denom: contract_balances[fidx].denom.clone(), amount: sent_amount }
        } else {
            Coin {
                denom: contract_balances[fidx].denom.clone(),
                amount: contract_balances[fidx].amount,
            }
        };
        let new_huahua = match self.huahua_deposited.checked_add(sent_amount) {
            Some(v) => v,
            None => {
                return Err(ContractError::Overflow {});
            },
        };
        let new_minted = match self.ash_minted.checked_add(sent_amount) {
            Some(v) => v,
            None => {
                return Err(ContractError::Overflow {});
            },
        };
        self.huahua_deposited = new_huahua;
        self.ash_minted = new_minted;
        let transfer = TransferMsg {
            token: self.state.ash_cw20.clone(),
            recipient: sender,
            amount: sent_amount,
        };
        Ok(MintOutcome { burn: Some(coin), transfer })
    }

    /// Mint ash for a cw20 deposit relayed by the token contract `token`:
    /// unless the depositing `sender` is an allowed operator, the token
    /// must be accepted and the deposit is burnt on it. `owner` receives
    /// `amount` of ash, and the lifetime cw20 and ash counters and the
    /// token's deposit record grow by it.
    pub fn mint_ash_cw20(
        &mut self,
        sender: String,
        token: String,
        owner: String,
        amount: u128,
    ) -> (r: Result<MintCw20Outcome, ContractError>)
        requires
            old(self).well_formed(),
        ensures
            final(self).well_formed(),
            same_params(*final(self), *old(self)),
            final(self).huahua_deposited == old(self).huahua_deposited,
            final(self).native_deposited == old(self).native_deposited,
            ({
                let op = is_listed(old(self).state.allowed_operators@, sender@);
                let dep = old(self).deposit_list@;
                let k = key_of(token@);
                let fits = old(self).cw20_deposited + amount <= u128::MAX
                    && old(self).ash_minted + amount <= u128::MAX && deposit_fits(dep, k, amount);
                &&& (!op && !is_listed(old(self).state.allowed_cw20@, token@) ==> (
                    r matches Err(e) && e matches ContractError::DenomNotAllowed { denom }
                    && denom@ == sender@))
                &&& ((op || is_listed(old(self).state.allowed_cw20@, token@)) && !fits ==> (
                    r matches Err(e) && e is Overflow))
                &&& (r is Ok <==> (op || is_listed(old(self).state.allowed_cw20@, token@))
                    && fits)
                &&& (r is Err ==> same_funds(*final(self), *old(self)))
                &&& (r is Ok ==> {
                    &&& final(self).cw20_deposited == old(self).cw20_deposited + amount
                    &&& final(self).ash_minted == old(self).ash_minted + amount
                    &&& final(self).deposit_list@ == deposit_next(dep, token, amount)
                    &&& (r matches Ok(o) && {
                        &&& o.transfer@ == (crate::TransferMsgV {
                            token: old(self).state.ash_cw20@,
                            recipient: owner@,
                            amount: amount,
                        })
                        &&& (op ==> o.burn is None)
                        &&& (!op ==> (o.burn matches Some(b) && b.0@ == token@
                            && b.1 == amount))
                    })
                })
            }),
    {
        let op = contains_string(&self.state.allowed_operators, &sender);
        let mut burn: Option<(String, u128)> = None;
        if !op {
            if !contains_string(&self.state.allowed_cw20, &token) {
                return Err(ContractError::DenomNotAllowed { denom: sender });
            }
            burn = Some((token.clone(), amount));
        }
        let new_cw20 = match self.cw20_deposited.checked_add(amount) {
            Some(v) => v,
            None => {
                return Err(ContractError::Overflow {});
            },
        };
        let new_minted = match self.ash_minted.checked_add(amount) {
            Some(v) => v,
            None => {
                return Err(ContractError::Overflow {});
            },
        };
        let transfer = TransferMsg {
            token: self.state.ash_cw20.clone(),
            recipient: owner,
            amount,
        };
        match deposit_store(&mut self.deposit_list, token, amount) {
            Ok(()) => {},
            Err(e) => {
                return Err(e);
            },
        }
        self.cw20_deposited = new_cw20;
        self.ash_minted = new_minted;
        Ok(MintCw20Outcome { burn, transfer })
    }

    /// Replace all four parameter fields. Only an allowed operator may call
    /// this.
    pub fn edit_state(
        &mut self,
        sender: String,
        allowed_operators: Vec<String>,
        allowed_native: Vec<String>,
        allowed_cw20: Vec<String>,
        ash_cw20: String,
    ) -> (r: Result<(), ContractError>)
        requires
            old(self).well_formed(),
        ensures
            final(self).well_formed(),
            same_funds(*final(self), *old(self)),
            r is Ok <==> is_listed(old(self).state.allowed_operators@, sender@),
            r is Err ==> (r matches Err(e) && e is Unauthorized) && same_params(
                *final(self), *old(self)),
            r is Ok ==> {
                &&& final(self).state.allowed_operators@ == allowed_operators@
                &&& final(self).state.allowed_native@ == allowed_native@
                &&& final(self).state.allowed_cw20@ == allowed_cw20@
                &&& final(self).state.ash_cw20@ == ash_cw20@
            },
    {
        if !contains_string(&self.state.allowed_operators, &sender) {
            return Err(ContractError::Unauthorized {});
        }
        self.state = State { allowed_operators, allowed_native, allowed_cw20, ash_cw20 };
        Ok(())
    }

    /// The parameters and lifetime counters as a query answer. Read-only.
    pub fn state(&self) -> (r: GetStateResponse)
        ensures
            r.allowed_operators@ == self.state.allowed_operators@,
            r.allowed_native@ == self.state.allowed_native@,
            r.allowed_cw20@ == self.state.allowed_cw20@,
            r.ash_cw20@ == self.state.ash_cw20@,
            r.ash == self.ash_minted,
            r.cw20 == self.cw20_deposited,
            r.huahua == self.huahua_deposited,
            r.native == self.native_deposited,
    {
        GetStateResponse {
            allowed_operators: crate::clone_string_vec(&self.state.allowed_operators),
            allowed_native: crate::clone_string_vec(&self.state.allowed_native),
            allowed_cw20: crate::clone_string_vec(&self.state.allowed_cw20),
            ash_cw20: self.state.ash_cw20.clone(),
            ash: self.ash_minted,
            cw20: self.cw20_deposited,
            huahua: self.huahua_deposited,
            native: self.native_deposited,
        }
    }

    /// One page of deposit records, ascending by account, beginning just
    /// after the exclusive `start_after` cursor. A missing page size
    /// defaults to `DETAILS_DEFAULT_LIMIT`; one above `DETAILS_MAX_LIMIT`
    /// is clamped to it, never rejected. Read-only.
    pub fn details_list(&self, start_after: Option<String>, limit: Option<u32>) -> (r:
        DepositDetailedInfoResponse)
        requires
            self.well_formed(),
        ensures
            ({
                let s = self.deposit_list@;
                let from = match start_after {
                    Option::None => 0int,
                    Option::Some(ref a) => kv_page_from(s, key_of(a@)),
                };
                let lim = details_page_limit(limit);
                let cnt = if s.len() - from < lim {
                    s.len() - from
                } else {
                    lim
                };
                &&& r.details@.len() == cnt
                &&& (forall|j: int| 0 <= j < cnt ==> {
                    &&& (#[trigger] r.details@[j]).addr@ == s[from + j].0@
                    &&& r.details@[j].amount == s[from + j].1
                })
                &&& r.details@.len() <= DETAILS_MAX_LIMIT
            }),
    {
        let lim_u32 = match limit {
            Some(l) => if l < DETAILS_MAX_LIMIT {
                l
            } else {
                DETAILS_MAX_LIMIT
            },
            None => DETAILS_DEFAULT_LIMIT,
        };
        let lim = lim_u32 as usize;
        let from = match &start_after {
            Some(a) => kv_page_start_pos(&self.deposit_list, a.as_str()),
            None => 0,
        };
        let ghost s = self.deposit_list@;
        let n = self.deposit_list.len();
        let mut out: Vec<DepositInfo> = Vec::new();
        let mut taken: usize = 0;
        let mut i = from;
        while i < n && taken < lim
            invariant
                s == self.deposit_list@,
                n == self.deposit_list.len(),
                from <= i <= n,
                taken == i - from,
                taken <= lim,
                out@.len() == taken,
                forall|j: int| 0 <= j < taken ==> {
                    &&& (#[trigger] out@[j]).addr@ == s[from + j].0@
                    &&& out@[j].amount == s[from + j].1
                },
            decreases n - i,
        {
            out.push(DepositInfo {
                addr: self.deposit_list[i].0.clone(),
                amount: self.deposit_list[i].1,
            });
            taken = taken + 1;
            i = i + 1;
        }
        DepositDetailedInfoResponse { details: out }
    }
}

/// The answer to a query the house computes itself.
pub enum QueryAnswer {
    GlobalState(GetStateResponse),
    DepositDetails(DepositDetailedInfoResponse),
}

/// What one mutating operation emits.
pub enum ExecuteOutcome {
    /// A native or huahua mint: a possible coin burn and an ash transfer.
    Minted(MintOutcome),
    /// A cw20 mint: a possible cw20 burn and an ash transfer.
    MintedCw20(MintCw20Outcome),
    /// The parameters changed; nothing leaves the house.
    Updated {},
}

impl AshHouse {
    /// A cw20 deposit notification relayed by the token contract `token`:
    /// the deposit is minted into ash for the named owner.
    pub fn execute_receive(
        &mut self,
        token: String,
        sender: String,
        amount: u128,
        msg: ReceiveMsg,
    ) -> (r: Result<MintCw20Outcome, ContractError>)
        requires
            old(self).well_formed(),
        ensures
            final(self).well_formed(),
            same_params(*final(self), *old(self)),
            ({
                let op = is_listed(old(self).state.allowed_operators@, sender@);
                let dep = old(self).deposit_list@;
                let fits = old(self).cw20_deposited + amount <= u128::MAX
                    && old(self).ash_minted + amount <= u128::MAX && deposit_fits(
                    dep, key_of(token@), amount,
                );
                &&& (r is Ok <==> (op || is_listed(old(self).state.allowed_cw20@, token@))
                    && fits)
                &&& (r is Err ==> same_funds(*final(self), *old(self)))
                &&& (r is Ok ==> (msg matches ReceiveMsg::MintCw20 { owner } ==> {
                    &&& final(self).cw20_deposited == old(self).cw20_deposited + amount
                    &&& final(self).ash_minted == old(self).ash_minted + amount
                    &&& final(self).deposit_list@ == deposit_next(dep, token, amount)
                    &&& (r matches Ok(o) && o.transfer@ == (crate::TransferMsgV {
                        token: old(self).state.ash_cw20@,
                        recipient: owner@,
                        amount: amount,
                    }))
                }))
            }),
    {
        match msg {
            ReceiveMsg::MintCw20 { owner } => self.mint_ash_cw20(sender, token, owner, amount),
        }
    }

    /// Apply one mutating operation and return what it emits. The house's
    /// current coin holdings are supplied by the surrounding runtime.
    pub fn execute(
        &mut self,
        sender: String,
        funds: Vec<Coin>,
        contract_balances: Vec<Coin>,
        msg: ExecuteMsg,
    ) -> (r: Result<ExecuteOutcome, ContractError>)
        requires
            old(self).well_formed(),
        ensures
            final(self).well_formed(),
            r is Err ==> same_funds(*final(self), *old(self)),
            ({
                let op = is_listed(old(self).state.allowed_operators@, sender@);
                &&& (msg matches ExecuteMsg::MintAsh { native, amount } ==> {
                    let funds_ok = funds@.len() == 1 && is_listed(
                        old(self).state.allowed_native@, funds@[0].denom@,
                    ) && !(funds@[0].amount != amount && funds@[0].denom@ != native@)
                        && first_spendable(
                        contract_balances@, old(self).state.allowed_native@,
                    ) >= 0;
                    let fits = old(self).native_deposited + amount <= u128::MAX
                        && old(self).ash_minted + amount <= u128::MAX && deposit_fits(
                        old(self).deposit_list@, key_of(sender@), amount,
                    );
                    &&& (r is Ok <==> (op || funds_ok) && fits)
                    &&& (r is Ok ==> (r matches Ok(o) && o is Minted)
                        && final(self).native_deposited == old(self).native_deposited + amount
                        && final(self).ash_minted == old(self).ash_minted + amount
                        && final(self).deposit_list@ == deposit_next(
                        old(self).deposit_list@, sender, amount,
                    ))
                    &&& same_params(*final(self), *old(self))
                })
                &&& (msg is MintFromHuahua ==> {
                    let sent = funds@[0].amount;
                    let fits = old(self).huahua_deposited + sent <= u128::MAX
                        && old(self).ash_minted + sent <= u128::MAX;
                    &&& (r is Ok <==> funds@.len() == 1 && funds@[0].denom@ == "uhuahua"@
                        && first_spendable(
                        contract_balances@, old(self).state.allowed_native@,
                    ) >= 0 && fits)
                    &&& (r is Ok ==> (r matches Ok(o) && o is Minted)
                        && final(self).huahua_deposited == old(self).huahua_deposited + sent
                        && final(self).ash_minted == old(self).ash_minted + sent)
                    &&& same_params(*final(self), *old(self))
                })
                &&& (msg matches ExecuteMsg::Receive { sender: from, amount, msg: rmsg } ==> {
                    let fits = old(self).cw20_deposited + amount <= u128::MAX
                        && old(self).ash_minted + amount <= u128::MAX && deposit_fits(
                        old(self).deposit_list@, key_of(sender@), amount,
                    );
                    &&& (r is Ok <==> (is_listed(old(self).state.allowed_operators@, from@)
                        || is_listed(old(self).state.allowed_cw20@, sender@)) && fits)
                    &&& (r is Ok ==> (r matches Ok(o) && o is MintedCw20)
                        && final(self).cw20_deposited == old(self).cw20_deposited + amount
                        && final(self).ash_minted == old(self).ash_minted + amount)
                    &&& same_params(*final(self), *old(self))
                })
                &&& (msg matches ExecuteMsg::EditState {
                    allowed_operators,
                    allowed_native,
                    allowed_cw20,
                    ash_cw20,
                } ==> {
                    &&& (r is Ok <==> op)
                    &&& same_funds(*final(self), *old(self))
                    &&& (r is Ok ==> (r matches Ok(o) && o is Updated) && {
                        &&& final(self).state.allowed_operators@ == allowed_operators@
                        &&& final(self).state.allowed_native@ == allowed_native@
                        &&& final(self).state.allowed_cw20@ == allowed_cw20@
                        &&& final(self).state.ash_cw20@ == ash_cw20@
                    })
                })
            }),
    {
        match msg {
            ExecuteMsg::MintAsh { native, amount } => {
                match self.mint_ash(sender, funds, contract_balances, native, amount) {
                    Ok(o) => Ok(ExecuteOutcome::Minted(o)),
                    Err(e) => Err(e),
                }
            },
            ExecuteMsg::MintFromHuahua {} => {
                match self.mint_from_huahua(sender, funds, contract_balances) {
                    Ok(o) => Ok(ExecuteOutcome::Minted(o)),
                    Err(e) => Err(e),
                }
            },
            ExecuteMsg::Receive { sender: from, amount, msg: rmsg } => {
                match self.execute_receive(sender, from, amount, rmsg) {
                    Ok(o) => Ok(ExecuteOutcome::MintedCw20(o)),
                    Err(e) => Err(e),
                }
            },
            ExecuteMsg::EditState { allowed_operators, allowed_native, allowed_cw20, ash_cw20 } => {
                match self.edit_state(
                    sender, allowed_operators, allowed_native, allowed_cw20, ash_cw20,
                ) {
                    Ok(()) => Ok(ExecuteOutcome::Updated {}),
                    Err(e) => Err(e),
                }
            },
        }
    }

    /// Answer one read-only query the house computes itself.
    pub fn query(&self, msg: QueryMsg) -> (r: QueryAnswer)
        requires
            self.well_formed(),
        ensures
            msg is GetState ==> (r matches QueryAnswer::GlobalState(resp) && {
                &&& resp.allowed_operators@ == self.state.allowed_operators@
                &&& resp.allowed_native@ == self.state.allowed_native@
                &&& resp.allowed_cw20@ == self.state.allowed_cw20@
                &&& resp.ash_cw20@ == self.state.ash_cw20@
                &&& resp.ash == self.ash_minted
                &&& resp.cw20 == self.cw20_deposited
                &&& resp.huahua == self.huahua_deposited
                &&& resp.native == self.native_deposited
            }),
            (msg matches QueryMsg::GetDepositDetails { start_after, limit } ==> (
                r matches QueryAnswer::DepositDetails(resp) && {
                let s = self.deposit_list@;
                let from = match start_after {
                    Option::None => 0int,
                    Option::Some(ref a) => kv_page_from(s, key_of(a@)),
                };
                let lim = details_page_limit(limit);
                let cnt = if s.len() - from < lim {
                    s.len() - from
                } else {
                    lim
                };
                &&& resp.details@.len() == cnt
                &&& (forall|j: int| 0 <= j < cnt ==> {
                    &&& (#[trigger] resp.details@[j]).addr@ == s[from + j].0@
                    &&& resp.details@[j].amount == s[from + j].1
                })
            })),
    {
        match msg {
            QueryMsg::GetState {} => QueryAnswer::GlobalState(self.state()),
            QueryMsg::GetDepositDetails { start_after, limit } => QueryAnswer::DepositDetails(
                self.details_list(start_after, limit),
            ),
        }
    }
}

/// Default page size of the deposit-record listing.
pub const DETAILS_DEFAULT_LIMIT: u32 = 10;

/// Largest page size the deposit-record listing serves, whatever was asked.
pub const DETAILS_MAX_LIMIT: u32 = 30;

/// The page size actually served: the requested one, defaulted and clamped
/// to the server maximum.
pub open spec fn details_page_limit(limit: Option<u32>) -> int {
    let l = match limit {
        Option::None => DETAILS_DEFAULT_LIMIT,
        Option::Some(v) => v,
    };
    if l < DETAILS_MAX_LIMIT {
        l as int
    } else {
        DETAILS_MAX_LIMIT as int
    }
}

} // verus!
