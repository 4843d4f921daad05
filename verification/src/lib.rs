//! Verified ledger engines for a small family of token programs: a
//! staking/reward engine with time-weighted accrual and a two-phase
//! withdrawal state machine, two burn-for-mint conversion engines, a
//! mint house for wrapped deposits, and an airdrop whitelist.
//!
//! Each engine is a pure state machine: operations take the caller's
//! identity, plain integer amounts and an operation-scoped clock value,
//! mutate the engine state, and return the transfer instructions that the
//! surrounding runtime must forward to the external token ledger.
use vstd::prelude::*;

pub mod addr_bytes;
pub mod ash_house;
pub mod cw20_stake;
pub mod dog_burn;
pub mod dog_drop;
pub mod gdog;
pub mod kvlist;

verus! {

/// The amounts a ledger engine asks the external token ledger to move.
pub struct TransferMsg {
    /// Token contract that performs the transfer.
    pub token: String,
    /// Account the tokens are sent to.
    pub recipient: String,
    /// Amount of tokens to move.
    pub amount: u128,
}

/// Mathematical image of `TransferMsg`.
#[verifier::ext_equal]
pub struct TransferMsgV {
    pub token: Seq<char>,
    pub recipient: Seq<char>,
    pub amount: u128,
}

impl View for TransferMsg {
    type V = TransferMsgV;

    open spec fn view(&self) -> TransferMsgV {
        TransferMsgV { token: self.token@, recipient: self.recipient@, amount: self.amount }
    }
}

/// Whether some string in the list reads the same as `x`.
pub open spec fn is_listed(list: Seq<String>, x: Seq<char>) -> bool {
    exists|i: int| 0 <= i < list.len() && (#[trigger] list[i])@ == x
}

/// Whether `s` occurs in `list`, compared by text.
pub fn contains_string(list: &Vec<String>, s: &String) -> (r: bool)
    ensures
        r == is_listed(list@, s@),
{
    let n = list.len();
    let mut i: usize = 0;
    while i < n
        invariant
            n == list.len(),
            i <= n,
            forall|j: int| 0 <= j < i ==> (#[trigger] list@[j])@ != s@,
        decreases n - i,
    {
        if s.eq(&list[i]) {
            return true;
        }
        i = i + 1;
    }
    false
}

/// An element-wise copy of a list of strings.
pub fn clone_string_vec(v: &Vec<String>) -> (r: Vec<String>)
    ensures
        r@ == v@,
{
    let n = v.len();
    let mut r: Vec<String> = Vec::new();
    let mut i: usize = 0;
    while i < n
        invariant
            n == v.len(),
            i <= n,
            r@ =~= v@.take(i as int),
        decreases n - i,
    {
        r.push(v[i].clone());
        proof {
            assert(v@.take(i + 1) =~= v@.take(i as int).push(v@[i as int]));
        }
        i = i + 1;
    }
    proof {
        assert(v@.take(n as int) =~= v@);
    }
    r
}

} // verus!
