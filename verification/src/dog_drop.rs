//! The airdrop whitelist engine: operators maintain a map from account to
//! claimable amount; a whitelisted account claims its amount once, after
//! which its entry stays at zero.
use vstd::prelude::*;

verus! {

use crate::TransferMsg;
use crate::addr_bytes::{key_of, lex_lt};
use crate::kvlist::{entry_key, kv_find, kv_fresh_count, kv_has, kv_locate, kv_delete,
    kv_page_from, kv_page_start_pos, kv_removed_prefix, kv_sorted, kv_store, kv_upsert_prefix,
    lemma_kv_fresh_count_mono, lemma_kv_removed_prefix, lemma_kv_upsert_prefix};
use crate::{contains_string, is_listed};

/// Why a whitelist operation was refused.
#[derive(Debug, PartialEq)]
pub enum ContractError {
    /// The caller is not an allowed operator.
    Unauthorized {},
    /// A member to add is already whitelisted, or occurs twice with two
    /// different amounts.
    DuplicateMember(String),
    /// The caller already claimed its airdrop.
    AlreadyClaimed(String),
    /// The account is not whitelisted.
    NoMemberFound(String),
    /// A membership counter does not fit its width.
    Overflow {},
}

/// The engine's parameters: the token paid out and who may edit the list.
pub struct State {
    pub allowed_operators: Vec<String>,
    pub cw20: String,
}

/// The whitelist engine: parameters, the member list sorted by account
/// key, and the lifetime counters.
pub struct DogDrop {
    pub state: State,
    pub airdrop: Vec<(String, u128)>,
    pub size: u32,
    pub claimed: u32,
}

impl DogDrop {
    /// The member list is kept sorted by account key.
    pub open spec fn well_formed(self) -> bool {
        kv_sorted(self.airdrop@)
    }
}

/// The mutating operations.
pub enum ExecuteMsg {
    Claim {},
    EditState { cw20: String, allowed_operators: Vec<String> },
    AddMembers { members: Vec<(String, u128)> },
    RemoveMembers { members: Vec<(String, u128)> },
}

/// The read-only queries.
pub enum QueryMsg {
    GetState {},
    Members { start_after: Option<String>, limit: Option<u32> },
    IsMember { address: String },
}

/// The parameters and counters as a query answer.
pub struct StateResponse {
    pub cw20: String,
    pub allowed_operators: Vec<String>,
    pub size: u32,
    pub claimed: u32,
}

/// One page of whitelisted accounts, ascending by key.
pub struct MembersResponse {
    pub members: Vec<String>,
}

/// Whether one account is whitelisted.
pub struct IsMemberResponse {
    pub is_member: bool,
}

/// Default page size of the member listing.
pub const PAGINATION_DEFAULT_LIMIT: u32 = 25;

/// Largest page size the member listing serves, whatever was asked.
pub const PAGINATION_MAX_LIMIT: u32 = 100;

/// Whether the first `i` input members name no key twice with two different
/// amounts.
pub open spec fn members_consistent(m: Seq<(String, u128)>, i: int) -> bool {
    forall|a: int, b: int| 0 <= a < b < i && entry_key(#[trigger] m[a]) == entry_key(
        #[trigger] m[b]) ==> m[a].1 == m[b].1
}

/// Whether none of the first `i` input members is already whitelisted.
pub open spec fn members_fresh(s: Seq<(String, u128)>, m: Seq<(String, u128)>, i: int) -> bool {
    forall|a: int| 0 <= a < i ==> !kv_has(s, entry_key(#[trigger] m[a]))
}

/// Whether the first `i` input members name pairwise distinct keys.
pub open spec fn members_distinct(m: Seq<(String, u128)>, i: int) -> bool {
    forall|a: int, b: int| 0 <= a < b < i ==> entry_key(#[trigger] m[a]) != entry_key(
        #[trigger] m[b])
}

/// Whether all of the first `i` input members are whitelisted.
pub open spec fn members_present(s: Seq<(String, u128)>, m: Seq<(String, u128)>, i: int) -> bool {
    forall|a: int| 0 <= a < i ==> kv_has(s, entry_key(#[trigger] m[a]))
}

/// Whether the engine's parts other than the member list read the same in
/// two snapshots, and the member lists too: nothing was changed yet.
pub open spec fn unchanged_engine(a: DogDrop, b: DogDrop) -> bool {
    &&& a.airdrop@ == b.airdrop@
    &&& a.state.cw20@ == b.state.cw20@
    &&& a.state.allowed_operators@ == b.state.allowed_operators@
    &&& a.size == b.size
    &&& a.claimed == b.claimed
}

/// A fresh whitelist holding the given members, each stored in input order
/// with a later occurrence of an account overwriting an earlier one. The
/// membership counters start at zero.
pub fn instantiate(members: Vec<(String, u128)>, cw20: String, allowed_operators: Vec<String>)
    -> (r: DogDrop)
    ensures
        r.well_formed(),
        r.airdrop@ == kv_upsert_prefix(Seq::<(String, u128)>::empty(), members@, members@.len()
            as int),
        r.state.cw20@ == cw20@,
        r.state.allowed_operators@ == allowed_operators@,
        r.size == 0,
        r.claimed == 0,
{
    let ghost m = members@;
    let n = members.len();
    let mut airdrop: Vec<(String, u128)> = Vec::new();
    let mut i: usize = 0;
    proof {
        assert(airdrop@ =~= kv_upsert_prefix(Seq::<(String, u128)>::empty(), m, 0));
    }
    while i < n
        invariant
            n == members.len(),
            m == members@,
            i <= n,
            kv_sorted(airdrop@),
            airdrop@ == kv_upsert_prefix(Seq::<(String, u128)>::empty(), m, i as int),
        decreases n - i,
    {
        let addr = members[i].0.clone();
        let amount = members[i].1;
        proof {
            assert((addr, amount) == m[i as int]);
        }
        kv_store(&mut airdrop, addr, amount);
        i = i + 1;
    }
    DogDrop { state: State { allowed_operators, cw20 }, airdrop, size: 0, claimed: 0 }
}

impl DogDrop {
    /// Pay the caller its claimable amount and mark it claimed by setting
    /// the stored amount to zero. An unknown account and an already claimed
    /// one are refused.
    pub fn execute_claim(&mut self, sender: String) -> (r: Result<TransferMsg, ContractError>)
        requires
            old(self).well_formed(),
        ensures
            final(self).well_formed(),
            ({
                let s = old(self).airdrop@;
                let k = key_of(sender@);
                let found = kv_has(s, k);
                let amount = s[kv_find(s, k)].1;
                &&& (!found ==> (r matches Err(e) && e matches ContractError::NoMemberFound(a)
                    && a@ == sender@))
                &&& (found && amount == 0 ==> (r matches Err(e)
                    && e matches ContractError::AlreadyClaimed(a) && a@ == sender@))
                &&& (found && amount > 0 && old(self).claimed == u32::MAX ==> (r matches Err(e)
                    && e is Overflow))
                &&& (r is Ok <==> found && amount > 0 && old(self).claimed < u32::MAX)
                &&& (r is Err ==> final(self).airdrop@ == s && final(self).claimed == old(
                    self).claimed)
                &&& (r is Ok ==> {
                    &&& final(self).airdrop@ == s.update(kv_find(s, k), (s[kv_find(s, k)].0, 0))
                    &&& final(self).claimed == old(self).claimed + 1
                    &&& (r matches Ok(t) && t@ == (crate::TransferMsgV {
                        token: old(self).state.cw20@,
                        recipient: sender@,
                        amount: amount,
                    }))
                })
                &&& final(self).state.cw20@ == old(self).state.cw20@
                &&& final(self).state.allowed_operators@ == old(self).state.allowed_operators@
                &&& final(self).size == old(self).size
            }),
    {
        let ghost s = self.airdrop@;
        let ghost k = key_of(sender@);
        let (found, idx) = kv_locate(&self.airdrop, sender.as_str());
        if !found {
            return Err(ContractError::NoMemberFound(sender));
        }
        let can_claim = self.airdrop[idx].1;
        if can_claim == 0 {
            return Err(ContractError::AlreadyClaimed(sender));
        }
        if self.claimed == u32::MAX {
            return Err(ContractError::Overflow {});
        }
        let kept = self.airdrop[idx].0.clone();
        proof {
            assert(kept == s[idx as int].0);
        }
        self.airdrop.set(idx, (kept, 0));
        self.claimed = self.claimed + 1;
        let transfer = TransferMsg {
            token: self.state.cw20.clone(),
            recipient: sender,
            amount: can_claim,
        };
        proof {
            assert(final(self).airdrop@ =~= s.update(idx as int, (s[idx as int].0, 0)));
            assert forall|x: int, y: int| 0 <= x < y < final(self).airdrop@.len() implies
                lex_lt(
                entry_key(final(self).airdrop@[x]), entry_key(final(self).airdrop@[y])) by {
                assert(entry_key(final(self).airdrop@[x]) == entry_key(s[x]));
                assert(entry_key(final(self).airdrop@[y]) == entry_key(s[y]));
            }
        }
        Ok(transfer)
    }

    /// Replace the token and the operator list. Only an allowed operator
    /// may call this.
    pub fn edit_state(&mut self, sender: String, cw20: String, allowed_operators: Vec<String>)
        -> (r: Result<(), ContractError>)
        requires
            old(self).well_formed(),
        ensures
            final(self).well_formed(),
            r is Ok <==> is_listed(old(self).state.allowed_operators@, sender@),
            r is Err ==> (r matches Err(e) && e is Unauthorized) && *final(self) == *old(self),
            r is Ok ==> {
                &&& final(self).state.cw20@ == cw20@
                &&& final(self).state.allowed_operators@ == allowed_operators@
                &&& final(self).airdrop@ == old(self).airdrop@
                &&& final(self).size == old(self).size
                &&& final(self).claimed == old(self).claimed
            },
    {
        if !contains_string(&self.state.allowed_operators, &sender) {
            return Err(ContractError::Unauthorized {});
        }
        self.state = State { allowed_operators, cw20 };
        Ok(())
    }

    /// Whitelist every given member. All-or-nothing: a member already
    /// whitelisted, or named twice with two different amounts, refuses the
    /// whole batch; naming the same member twice with the same amount is
    /// harmless. The size counter grows by the number of fresh entries.
    pub fn add_members(&mut self, sender: String, members: Vec<(String, u128)>) -> (r: Result<
        (),
        ContractError,
    >)
        requires
            old(self).well_formed(),
        ensures
            final(self).well_formed(),
            ({
                let s = old(self).airdrop@;
                let m = members@;
                let n = m.len() as int;
                let is_op = is_listed(old(self).state.allowed_operators@, sender@);
                &&& (!is_op ==> (r matches Err(e) && e is Unauthorized))
                &&& (is_op && !(members_fresh(s, m, n) && members_consistent(m, n)) ==> (
                    r matches Err(e) && e is DuplicateMember))
                &&& (is_op && members_fresh(s, m, n) && members_consistent(m, n)
                    && old(self).size + kv_fresh_count(s, m, n) > u32::MAX ==> (r matches Err(e)
                    && e is Overflow))
                &&& (r is Ok <==> is_op && members_fresh(s, m, n) && members_consistent(m, n)
                    && old(self).size + kv_fresh_count(s, m, n) <= u32::MAX)
                &&& (r is Err ==> final(self).airdrop@ == s && final(self).size == old(self).size)
                &&& (r is Ok ==> {
                    &&& final(self).airdrop@ == kv_upsert_prefix(s, m, n)
                    &&& final(self).size == old(self).size + kv_fresh_count(s, m, n)
                })
                &&& final(self).state.cw20@ == old(self).state.cw20@
                &&& final(self).state.allowed_operators@ == old(self).state.allowed_operators@
                &&& final(self).claimed == old(self).claimed
            }),
    {
        let ghost s = self.airdrop@;
        let ghost m = members@;
        if !contains_string(&self.state.allowed_operators, &sender) {
            return Err(ContractError::Unauthorized {});
        }
        let n = members.len();
        let mut fresh: usize = 0;
        let mut i: usize = 0;
        while i < n
            invariant
                n == members.len(),
                m == members@,
                s == self.airdrop@,
                self.well_formed(),
                unchanged_engine(*self, *old(self)),
                is_listed(old(self).state.allowed_operators@, sender@),
                i <= n,
                members_fresh(s, m, i as int),
                members_consistent(m, i as int),
                fresh as int == kv_fresh_count(s, m, i as int),
            decreases n - i,
        {
            let (found, _) = kv_locate(&self.airdrop, members[i].0.as_str());
            if found {
                let a = members[i].0.clone();
                proof {
                    assert(!members_fresh(s, m, n as int)) by {
                        assert(kv_has(s, entry_key(m[i as int])));
                    }
                }
                return Err(ContractError::DuplicateMember(a));
            }
            let mut seen = false;
            let mut j: usize = 0;
            while j < i
                invariant
                    n == members.len(),
                    m == members@,
                    s == self.airdrop@,
                    self.well_formed(),
                    unchanged_engine(*self, *old(self)),
                    is_listed(old(self).state.allowed_operators@, sender@),
                    i < n,
                    j <= i,
                    members_consistent(m, i as int),
                    seen == exists|b: int| 0 <= b < j && entry_key(#[trigger] m[b]) == entry_key(
                        m[i as int]),
                    forall|b: int| 0 <= b < j && entry_key(#[trigger] m[b]) == entry_key(
                        m[i as int]) ==> m[b].1 == m[i as int].1,
                decreases i - j,
            {
                let same = crate::addr_bytes::same_addr(
                    members[j].0.as_str(), members[i].0.as_str(),
                );
                if same {
                    if members[j].1 != members[i].1 {
                        let a = members[i].0.clone();
                        proof {
                            assert(!members_consistent(m, n as int)) by {
                                assert(entry_key(m[j as int]) == entry_key(m[i as int]));
                                assert(m[j as int].1 != m[i as int].1);
                            }
                        }
                        return Err(ContractError::DuplicateMember(a));
                    }
                    proof {
                        assert(entry_key(m[j as int]) == entry_key(m[i as int]));
                    }
                    seen = true;
                }
                j = j + 1;
            }
            proof {
                assert(members_consistent(m, i + 1)) by {
                    assert forall|a: int, b: int| 0 <= a < b < i + 1 && entry_key(
                        #[trigger] m[a]) == entry_key(#[trigger] m[b]) implies m[a].1 == m[b].1
                        by {}
                }
            }
            proof {
                lemma_kv_upsert_prefix(s, m, i as int);
                if !seen {
                    assert(kv_fresh_count(s, m, i + 1) == kv_fresh_count(s, m, i as int) + 1);
                } else {
                    assert(kv_has(kv_upsert_prefix(s, m, i as int), entry_key(m[i as int])));
                    assert(kv_fresh_count(s, m, i + 1) == kv_fresh_count(s, m, i as int));
                }
            }
            if !seen {
                fresh = fresh + 1;
            }
            i = i + 1;
        }
        let fresh_u64 = fresh as u64;
        let size_u64 = self.size as u64;
        if fresh_u64 > (u32::MAX as u64) - size_u64 {
            return Err(ContractError::Overflow {});
        }
        let mut i: usize = 0;
        proof {
            assert(self.airdrop@ =~= kv_upsert_prefix(s, m, 0));
        }
        while i < n
            invariant
                n == members.len(),
                m == members@,
                i <= n,
                kv_sorted(s),
                self.airdrop@ == kv_upsert_prefix(s, m, i as int),
                kv_sorted(self.airdrop@),
                self.size as int == old(self).size + kv_fresh_count(s, m, i as int),
                old(self).size + kv_fresh_count(s, m, n as int) <= u32::MAX,
                self.state.cw20@ == old(self).state.cw20@,
                self.state.allowed_operators@ == old(self).state.allowed_operators@,
                self.claimed == old(self).claimed,
            decreases n - i,
        {
            let addr = members[i].0.clone();
            let amount = members[i].1;
            proof {
                assert((addr, amount) == m[i as int]);
                lemma_kv_fresh_count_mono(s, m, i + 1, n as int);
            }
            let inserted = kv_store(&mut self.airdrop, addr, amount);
            if inserted {
                self.size = self.size + 1;
            }
            i = i + 1;
        }
        Ok(())
    }

    /// Remove every given member from the whitelist. All-or-nothing: a
    /// member not whitelisted, or named twice, refuses the whole batch, as
    /// does a size counter that cannot cover the removals.
    pub fn remove_members(&mut self, sender: String, members: Vec<(String, u128)>) -> (r: Result<
        (),
        ContractError,
    >)
        requires
            old(self).well_formed(),
        ensures
            final(self).well_formed(),
            ({
                let s = old(self).airdrop@;
                let m = members@;
                let n = m.len() as int;
                let is_op = is_listed(old(self).state.allowed_operators@, sender@);
                &&& (!is_op ==> (r matches Err(e) && e is Unauthorized))
                &&& (is_op && !(members_present(s, m, n) && members_distinct(m, n)) ==> (
                    r matches Err(e) && e is NoMemberFound))
                &&& (is_op && members_present(s, m, n) && members_distinct(m, n)
                    && old(self).size < n ==> (r matches Err(e) && e is Overflow))
                &&& (r is Ok <==> is_op && members_present(s, m, n) && members_distinct(m, n)
                    && old(self).size >= n)
                &&& (r is Err ==> final(self).airdrop@ == s && final(self).size == old(self).size)
                &&& (r is Ok ==> {
                    &&& final(self).airdrop@ == kv_removed_prefix(s, m, n)
                    &&& final(self).size == old(self).size - n
                })
                &&& final(self).state.cw20@ == old(self).state.cw20@
                &&& final(self).state.allowed_operators@ == old(self).state.allowed_operators@
                &&& final(self).claimed == old(self).claimed
            }),
    {
        let ghost s = self.airdrop@;
        let ghost m = members@;
        if !contains_string(&self.state.allowed_operators, &sender) {
            return Err(ContractError::Unauthorized {});
        }
        let n = members.len();
        let mut i: usize = 0;
        while i < n
            invariant
                n == members.len(),
                m == members@,
                s == self.airdrop@,
                self.well_formed(),
                unchanged_engine(*self, *old(self)),
                is_listed(old(self).state.allowed_operators@, sender@),
                i <= n,
                members_present(s, m, i as int),
                members_distinct(m, i as int),
            decreases n - i,
        {
            let (found, _) = kv_locate(&self.airdrop, members[i].0.as_str());
            if !found {
                let a = members[i].0.clone();
                proof {
                    assert(!members_present(s, m, n as int)) by {
                        assert(!kv_has(s, entry_key(m[i as int])));
                    }
                }
                return Err(ContractError::NoMemberFound(a));
            }
            let mut j: usize = 0;
            while j < i
                invariant
                    n == members.len(),
                    m == members@,
                    s == self.airdrop@,
                    self.well_formed(),
                    unchanged_engine(*self, *old(self)),
                    is_listed(old(self).state.allowed_operators@, sender@),
                    i < n,
                    j <= i,
                    members_present(s, m, i as int),
                    members_distinct(m, i as int),
                    forall|b: int| 0 <= b < j ==> entry_key(#[trigger] m[b]) != entry_key(
                        m[i as int]),
                decreases i - j,
            {
                let same = crate::addr_bytes::same_addr(
                    members[j].0.as_str(), members[i].0.as_str(),
                );
                if same {
                    let a = members[i].0.clone();
                    proof {
                        assert(!members_distinct(m, n as int)) by {
                            assert(entry_key(m[j as int]) == entry_key(m[i as int]));
                        }
                    }
                    return Err(ContractError::NoMemberFound(a));
                }
                j = j + 1;
            }
            i = i + 1;
        }
        if (self.size as u64) < (n as u64) {
            return Err(ContractError::Overflow {});
        }
        let mut i: usize = 0;
        proof {
            assert(self.airdrop@ =~= kv_removed_prefix(s, m, 0));
        }
        while i < n
            invariant
                n == members.len(),
                m == members@,
                i <= n,
                n <= u32::MAX,
                kv_sorted(s),
                members_present(s, m, n as int),
                members_distinct(m, n as int),
                self.airdrop@ == kv_removed_prefix(s, m, i as int),
                kv_sorted(self.airdrop@),
                old(self).size >= n,
                self.size as int == old(self).size - i,
                self.state.cw20@ == old(self).state.cw20@,
                self.state.allowed_operators@ == old(self).state.allowed_operators@,
                self.claimed == old(self).claimed,
            decreases n - i,
        {
            proof {
                lemma_kv_removed_prefix(s, m, i as int);
                assert(kv_has(kv_removed_prefix(s, m, i as int), entry_key(m[i as int]))) by {
                    assert(kv_has(s, entry_key(m[i as int])));
                    assert forall|j: int| 0 <= j < i implies entry_key(#[trigger] m[j])
                        != entry_key(m[i as int]) by {}
                }
            }
            let found = kv_delete(&mut self.airdrop, members[i].0.as_str());
            proof {
                assert(found);
            }
            self.size = self.size - 1;
            i = i + 1;
        }
        Ok(())
    }

    /// The parameters and counters as a query answer. Read-only.
    pub fn state(&self) -> (r: StateResponse)
        ensures
            r.cw20@ == self.state.cw20@,
            r.allowed_operators@ == self.state.allowed_operators@,
            r.size == self.size,
            r.claimed == self.claimed,
    {
        StateResponse {
            cw20: self.state.cw20.clone(),
            allowed_operators: crate::clone_string_vec(&self.state.allowed_operators),
            size: self.size,
            claimed: self.claimed,
        }
    }

    /// Whether `address` is whitelisted. Read-only.
    pub fn is_member(&self, address: &str) -> (r: IsMemberResponse)
        requires
            self.well_formed(),
        ensures
            r.is_member == kv_has(self.airdrop@, key_of(address@)),
    {
        let (found, _) = kv_locate(&self.airdrop, address);
        IsMemberResponse { is_member: found }
    }

    /// One page of whitelisted accounts, ascending by key, beginning just
    /// after the exclusive `start_after` cursor. A missing page size
    /// defaults to `PAGINATION_DEFAULT_LIMIT`; one above
    /// `PAGINATION_MAX_LIMIT` is clamped to it, never rejected. Read-only.
    pub fn query_members(&self, start_after: Option<String>, limit: Option<u32>) -> (r:
        MembersResponse)
        requires
            self.well_formed(),
        ensures
            ({
                let s = self.airdrop@;
                let from = member_page_start(s, match start_after {
                    Option::None => None,
                    Option::Some(ref a) => Some(a@),
                });
                let lim = member_page_limit(limit);
                let cnt = if s.len() - from < lim {
                    s.len() - from
                } else {
                    lim
                };
                &&& r.members@.len() == cnt
                &&& (forall|j: int| 0 <= j < cnt ==> r.members@[j]@ == s[from + j].0@)
                &&& r.members@.len() <= PAGINATION_MAX_LIMIT
            }),
    {
        let ghost s = self.airdrop@;
        let lim_u32 = match limit {
            Some(l) => if l < PAGINATION_MAX_LIMIT {
                l
            } else {
                PAGINATION_MAX_LIMIT
            },
            None => PAGINATION_DEFAULT_LIMIT,
        };
        let lim = lim_u32 as usize;
        let from = match &start_after {
            Some(a) => kv_page_start_pos(&self.airdrop, a.as_str()),
            None => 0,
        };
        let n = self.airdrop.len();
        let mut out: Vec<String> = Vec::new();
        let mut taken: usize = 0;
        let mut i = from;
        while i < n && taken < lim
            invariant
                s == self.airdrop@,
                n == self.airdrop.len(),
                from <= i <= n,
                taken == i - from,
                taken <= lim,
                out@.len() == taken,
                forall|j: int| 0 <= j < taken ==> out@[j]@ == s[from + j].0@,
            decreases n - i,
        {
            out.push(self.airdrop[i].0.clone());
            taken = taken + 1;
            i = i + 1;
        }
        MembersResponse { members: out }
    }
}

/// The answer to a query.
pub enum QueryAnswer {
    GlobalState(StateResponse),
    MemberList(MembersResponse),
    Membership(IsMemberResponse),
}

impl DogDrop {
    /// Apply one mutating operation and return the transfer it emits, if
    /// any.
    pub fn execute(&mut self, sender: String, msg: ExecuteMsg) -> (r: Result<
        Option<TransferMsg>,
        ContractError,
    >)
        requires
            old(self).well_formed(),
        ensures
            final(self).well_formed(),
            ({
                let s = old(self).airdrop@;
                let is_op = is_listed(old(self).state.allowed_operators@, sender@);
                &&& (msg is Claim ==> {
                    let k = key_of(sender@);
                    let found = kv_has(s, k);
                    let amount = s[kv_find(s, k)].1;
                    &&& (r is Ok <==> found && amount > 0 && old(self).claimed < u32::MAX)
                    &&& (r is Ok ==> {
                        &&& final(self).airdrop@ == s.update(
                            kv_find(s, k), (s[kv_find(s, k)].0, 0),
                        )
                        &&& final(self).claimed == old(self).claimed + 1
                        &&& (r matches Ok(t) && t matches Some(t) && t@ == (crate::TransferMsgV {
                            token: old(self).state.cw20@,
                            recipient: sender@,
                            amount: amount,
                        }))
                    })
                    &&& (r is Err ==> final(self).airdrop@ == s)
                })
                &&& (msg matches ExecuteMsg::EditState { cw20, allowed_operators } ==> {
                    &&& (r is Ok <==> is_op)
                    &&& (r is Ok ==> final(self).state.cw20@ == cw20@
                        && final(self).state.allowed_operators@ == allowed_operators@
                        && final(self).airdrop@ == s && (r matches Ok(t) && t is None))
                    &&& (r is Err ==> final(self).airdrop@ == s)
                })
                &&& (msg matches ExecuteMsg::AddMembers { members } ==> {
                    let m = members@;
                    let n = m.len() as int;
                    &&& (r is Ok <==> is_op && members_fresh(s, m, n) && members_consistent(m, n)
                        && old(self).size + kv_fresh_count(s, m, n) <= u32::MAX)
                    &&& (r is Ok ==> final(self).airdrop@ == kv_upsert_prefix(s, m, n)
                        && final(self).size == old(self).size + kv_fresh_count(s, m, n)
                        && (r matches Ok(t) && t is None))
                    &&& (r is Err ==> final(self).airdrop@ == s && final(self).size == old(
                        self).size)
                })
                &&& (msg matches ExecuteMsg::RemoveMembers { members } ==> {
                    let m = members@;
                    let n = m.len() as int;
                    &&& (r is Ok <==> is_op && members_present(s, m, n) && members_distinct(m, n)
                        && old(self).size >= n)
                    &&& (r is Ok ==> final(self).airdrop@ == kv_removed_prefix(s, m, n)
                        && final(self).size == old(self).size - n && (r matches Ok(t)
                        && t is None))
                    &&& (r is Err ==> final(self).airdrop@ == s && final(self).size == old(
                        self).size)
                })
            }),
    {
        match msg {
            ExecuteMsg::Claim {} => {
                match self.execute_claim(sender) {
                    Ok(t) => Ok(Some(t)),
                    Err(e) => Err(e),
                }
            },
            ExecuteMsg::EditState { cw20, allowed_operators } => {
                match self.edit_state(sender, cw20, allowed_operators) {
                    Ok(()) => Ok(None),
                    Err(e) => Err(e),
                }
            },
            ExecuteMsg::AddMembers { members } => {
                match self.add_members(sender, members) {
                    Ok(()) => Ok(None),
                    Err(e) => Err(e),
                }
            },
            ExecuteMsg::RemoveMembers { members } => {
                match self.remove_members(sender, members) {
                    Ok(()) => Ok(None),
                    Err(e) => Err(e),
                }
            },
        }
    }

    /// Answer one read-only query.
    pub fn query(&self, msg: QueryMsg) -> (r: QueryAnswer)
        requires
            self.well_formed(),
        ensures
            msg is GetState ==> (r matches QueryAnswer::GlobalState(resp) && {
                &&& resp.cw20@ == self.state.cw20@
                &&& resp.allowed_operators@ == self.state.allowed_operators@
                &&& resp.size == self.size
                &&& resp.claimed == self.claimed
            }),
            (msg matches QueryMsg::IsMember { address } ==> (r matches QueryAnswer::Membership(
                resp,
            ) && resp.is_member == kv_has(self.airdrop@, key_of(address@)))),
            (msg matches QueryMsg::Members { start_after, limit } ==> (
                r matches QueryAnswer::MemberList(resp) && {
                let s = self.airdrop@;
                let from = member_page_start(s, match start_after {
                    Option::None => None,
                    Option::Some(ref a) => Some(a@),
                });
                let lim = member_page_limit(limit);
                let cnt = if s.len() - from < lim {
                    s.len() - from
                } else {
                    lim
                };
                &&& resp.members@.len() == cnt
                &&& (forall|j: int| 0 <= j < cnt ==> resp.members@[j]@ == s[from + j].0@)
            })),
    {
        match msg {
            QueryMsg::GetState {} => QueryAnswer::GlobalState(self.state()),
            QueryMsg::Members { start_after, limit } => QueryAnswer::MemberList(
                self.query_members(start_after, limit),
            ),
            QueryMsg::IsMember { address } => QueryAnswer::Membership(
                self.is_member(address.as_str()),
            ),
        }
    }
}

/// Where a member page begins: at the first entry, or just after the
/// exclusive cursor.
pub open spec fn member_page_start(s: Seq<(String, u128)>, start_after: Option<Seq<char>>)
    -> int {
    match start_after {
        Option::None => 0,
        Option::Some(a) => kv_page_from(s, key_of(a)),
    }
}

/// The page size actually served: the requested one, defaulted and clamped
/// to the server maximum.
pub open spec fn member_page_limit(limit: Option<u32>) -> int {
    let l = match limit {
        Option::None => PAGINATION_DEFAULT_LIMIT,
        Option::Some(v) => v,
    };
    if l < PAGINATION_MAX_LIMIT {
        l as int
    } else {
        PAGINATION_MAX_LIMIT as int
    }
}

} // verus!
