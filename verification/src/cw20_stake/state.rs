//! Persistent state of the staking engine: the global parameters, the
//! per-account staking records, and the aggregate totals, together with the
//! well-formedness invariant every operation preserves.
//!
//! Staking records live in a list kept strictly ascending by the owner's
//! storage key (the UTF-8 bytes of the account text), which models the
//! ordered key-value collection a contract would keep them in and gives the
//! paginated range scan its meaning.
use vstd::prelude::*;

verus! {

use crate::addr_bytes::{key_of, lex_lt, ByteCmp, cmp_addr, lemma_lex_asymmetric,
    lemma_lex_transitive};

/// Global parameters of the staking engine.
///
/// The effective annual rate is `gdog_ratio / bdog_ratio * apr`; the two
/// ratio fields scale the base rate `apr` without redeploying. Both rate
/// inputs are validated to be positive on entry.
pub struct State {
    pub allowed_operators: Vec<String>,
    pub unstaking_duration: u128,
    pub apr: u128,
    pub bdog_ratio: u128,
    pub gdog_ratio: u128,
    pub token_address: String,
    pub token_source: String,
    pub reward_token_address: String,
}

/// Mathematical image of `State`.
#[verifier::ext_equal]
pub struct StateV {
    pub allowed_operators: Seq<Seq<char>>,
    pub unstaking_duration: u128,
    pub apr: u128,
    pub bdog_ratio: u128,
    pub gdog_ratio: u128,
    pub token_address: Seq<char>,
    pub token_source: Seq<char>,
    pub reward_token_address: Seq<char>,
}

impl View for State {
    type V = StateV;

    open spec fn view(&self) -> StateV {
        StateV {
            allowed_operators: self.allowed_operators@.map_values(|s: String| s@),
            unstaking_duration: self.unstaking_duration,
            apr: self.apr,
            bdog_ratio: self.bdog_ratio,
            gdog_ratio: self.gdog_ratio,
            token_address: self.token_address@,
            token_source: self.token_source@,
            reward_token_address: self.reward_token_address@,
        }
    }
}

/// One account's staking record.
pub struct StakeInfo {
    pub owner: String,
    pub stake_amount: u128,
    pub unstaking_amount: u128,
    pub reward_amount: u128,
    pub apr: u128,
    pub stake_start_time: u128,
    pub reward_start_time: u128,
    pub unstaking_start_time: u128,
    pub reward_end_time: u128,
    pub unstaking_process: bool,
    pub unstake_end_time: u128,
}

/// Mathematical image of `StakeInfo`.
#[verifier::ext_equal]
pub struct StakeInfoV {
    pub owner: Seq<char>,
    pub stake_amount: u128,
    pub unstaking_amount: u128,
    pub reward_amount: u128,
    pub apr: u128,
    pub stake_start_time: u128,
    pub reward_start_time: u128,
    pub unstaking_start_time: u128,
    pub reward_end_time: u128,
    pub unstaking_process: bool,
    pub unstake_end_time: u128,
}

impl View for StakeInfo {
    type V = StakeInfoV;

    open spec fn view(&self) -> StakeInfoV {
        StakeInfoV {
            owner: self.owner@,
            stake_amount: self.stake_amount,
            unstaking_amount: self.unstaking_amount,
            reward_amount: self.reward_amount,
            apr: self.apr,
            stake_start_time: self.stake_start_time,
            reward_start_time: self.reward_start_time,
            unstaking_start_time: self.unstaking_start_time,
            reward_end_time: self.reward_end_time,
            unstaking_process: self.unstaking_process,
            unstake_end_time: self.unstake_end_time,
        }
    }
}

impl StakeInfo {
    /// An identical copy of the record; records are handed out by value.
    pub fn duplicate(&self) -> (r: StakeInfo)
        ensures
            r@ == self@,
    {
        StakeInfo {
            owner: self.owner.clone(),
            stake_amount: self.stake_amount,
            unstaking_amount: self.unstaking_amount,
            reward_amount: self.reward_amount,
            apr: self.apr,
            stake_start_time: self.stake_start_time,
            reward_start_time: self.reward_start_time,
            unstaking_start_time: self.unstaking_start_time,
            reward_end_time: self.reward_end_time,
            unstaking_process: self.unstaking_process,
            unstake_end_time: self.unstake_end_time,
        }
    }
}

/// The storage key a record is filed under.
pub open spec fn pos_key(p: StakeInfoV) -> Seq<u8> {
    key_of(p.owner)
}

/// The views of the records in a list.
pub open spec fn pos_views(v: Seq<StakeInfo>) -> Seq<StakeInfoV> {
    v.map_values(|p: StakeInfo| p@)
}

/// Index of the first record filed under key `k`, or `-1` if there is none.
pub open spec fn find_idx(s: Seq<StakeInfoV>, k: Seq<u8>) -> int
    decreases s.len(),
{
    if s.len() == 0 {
        -1
    } else if pos_key(s[0]) == k {
        0
    } else {
        let r = find_idx(s.skip(1), k);
        if r == -1 {
            -1
        } else {
            r + 1
        }
    }
}

/// Whether some record is filed under key `k`.
pub open spec fn has_key(s: Seq<StakeInfoV>, k: Seq<u8>) -> bool {
    find_idx(s, k) >= 0
}

/// What `find_idx` finds: a valid index whose record carries the key, with
/// no earlier record carrying it; or `-1` when no record carries it.
pub proof fn lemma_find_idx(s: Seq<StakeInfoV>, k: Seq<u8>)
    ensures
        -1 <= find_idx(s, k) < s.len(),
        find_idx(s, k) >= 0 ==> pos_key(s[find_idx(s, k)]) == k,
        forall|i: int| 0 <= i < find_idx(s, k) ==> pos_key(s[i]) != k,
        find_idx(s, k) == -1 ==> forall|i: int| 0 <= i < s.len() ==> pos_key(s[i]) != k,
    decreases s.len(),
{
    if s.len() > 0 && pos_key(s[0]) != k {
        lemma_find_idx(s.skip(1), k);
        assert forall|i: int| 1 <= i < s.len() implies s.skip(1)[i - 1] == s[i] by {}
    }
}

/// `find_idx` returns the position of the first record carrying the key.
pub proof fn lemma_find_idx_at(s: Seq<StakeInfoV>, k: Seq<u8>, i: int)
    requires
        0 <= i < s.len(),
        pos_key(s[i]) == k,
        forall|j: int| 0 <= j < i ==> pos_key(s[j]) != k,
    ensures
        find_idx(s, k) == i,
    decreases s.len(),
{
    if i > 0 {
        lemma_find_idx_at(s.skip(1), k, i - 1);
    }
}

/// The records are strictly ascending by storage key.
pub open spec fn sorted_by_key(s: Seq<StakeInfoV>) -> bool {
    forall|i: int, j: int|
        0 <= i < j < s.len() ==> lex_lt(pos_key(s[i]), pos_key(s[j]))
}

/// A single record's invariant: a cleared unstake leaves no pending clock or
/// flag behind, and a fully closed position has both accrual clocks at zero.
pub open spec fn pos_wf(p: StakeInfoV) -> bool {
    &&& (p.unstaking_amount == 0 ==> !p.unstaking_process && p.unstaking_start_time == 0)
    &&& (p.unstaking_amount == 0 && p.stake_amount == 0 ==> p.stake_start_time == 0
        && p.reward_start_time == 0)
}

/// Sum of the staked principal over a list of records.
pub open spec fn sum_staked(s: Seq<StakeInfoV>) -> int
    decreases s.len(),
{
    if s.len() == 0 {
        0
    } else {
        s[0].stake_amount + sum_staked(s.skip(1))
    }
}

/// Sum of the banked reward over a list of records.
pub open spec fn sum_rewards(s: Seq<StakeInfoV>) -> int
    decreases s.len(),
{
    if s.len() == 0 {
        0
    } else {
        s[0].reward_amount + sum_rewards(s.skip(1))
    }
}

/// Replacing one record changes the staked sum by the difference at that
/// index, and the reward sum likewise.
pub proof fn lemma_sum_update(s: Seq<StakeInfoV>, i: int, p: StakeInfoV)
    requires
        0 <= i < s.len(),
    ensures
        sum_staked(s.update(i, p)) == sum_staked(s) - s[i].stake_amount + p.stake_amount,
        sum_rewards(s.update(i, p)) == sum_rewards(s) - s[i].reward_amount + p.reward_amount,
    decreases s.len(),
{
    if i == 0 {
        assert(s.update(0, p).skip(1) =~= s.skip(1));
    } else {
        assert(s.update(i, p).skip(1) =~= s.skip(1).update(i - 1, p));
        lemma_sum_update(s.skip(1), i - 1, p);
    }
}

/// Inserting a record adds its amounts to the sums.
pub proof fn lemma_sum_insert(s: Seq<StakeInfoV>, i: int, p: StakeInfoV)
    requires
        0 <= i <= s.len(),
    ensures
        sum_staked(s.insert(i, p)) == sum_staked(s) + p.stake_amount,
        sum_rewards(s.insert(i, p)) == sum_rewards(s) + p.reward_amount,
    decreases s.len(),
{
    if i == 0 {
        assert(s.insert(0, p)[0] == p);
        assert(s.insert(0, p).skip(1) =~= s);
    } else {
        assert(s.insert(i, p)[0] == s[0]);
        assert(s.insert(i, p).skip(1) =~= s.skip(1).insert(i - 1, p));
        lemma_sum_insert(s.skip(1), i - 1, p);
    }
}

/// Every record's stake is at most the staked sum.
pub proof fn lemma_sum_staked_ge_elem(s: Seq<StakeInfoV>, i: int)
    requires
        0 <= i < s.len(),
    ensures
        sum_staked(s) >= s[i].stake_amount,
        sum_staked(s) >= 0,
    decreases s.len(),
{
    lemma_sum_staked_nonneg(s.skip(1));
    if i > 0 {
        lemma_sum_staked_ge_elem(s.skip(1), i - 1);
    }
}

/// The staked sum is never negative.
pub proof fn lemma_sum_staked_nonneg(s: Seq<StakeInfoV>)
    ensures
        sum_staked(s) >= 0,
    decreases s.len(),
{
    if s.len() > 0 {
        lemma_sum_staked_nonneg(s.skip(1));
    }
}

/// Replacing a record with one filed under the same key keeps the list
/// sorted.
pub proof fn lemma_update_sorted(s: Seq<StakeInfoV>, i: int, p: StakeInfoV)
    requires
        sorted_by_key(s),
        0 <= i < s.len(),
        pos_key(p) == pos_key(s[i]),
    ensures
        sorted_by_key(s.update(i, p)),
{
}

/// Inserting a record between its byte-order neighbours keeps the list
/// sorted.
pub proof fn lemma_insert_sorted(s: Seq<StakeInfoV>, i: int, p: StakeInfoV)
    requires
        sorted_by_key(s),
        0 <= i <= s.len(),
        forall|j: int| 0 <= j < i ==> lex_lt(pos_key(s[j]), pos_key(p)),
        forall|j: int| i <= j < s.len() ==> lex_lt(pos_key(p), pos_key(s[j])),
    ensures
        sorted_by_key(s.insert(i, p)),
{
    let t = s.insert(i, p);
    assert forall|x: int, y: int| 0 <= x < y < t.len() implies
        lex_lt(pos_key(t[x]), pos_key(t[y])) by {
        assert(forall|j: int| 0 <= j < i ==> t[j] == s[j]);
        assert(t[i] == p);
        assert(forall|j: int| i < j < t.len() ==> t[j] == s[j - 1]);
    }
}

/// The list invariant: sorted and each record well formed.
pub open spec fn positions_wf(s: Seq<StakeInfoV>) -> bool {
    &&& sorted_by_key(s)
    &&& forall|i: int| 0 <= i < s.len() ==> pos_wf(#[trigger] s[i])
}

/// The staking engine: global parameters, the staking records and the
/// aggregate totals, evolved only through the operations of this module's
/// sibling `contract`.
pub struct StakeEngine {
    pub state: State,
    pub positions: Vec<StakeInfo>,
    pub total_staked: u128,
    pub total_reward: u128,
}

/// Mathematical image of `StakeEngine`.
#[verifier::ext_equal]
pub struct StakeEngineV {
    pub state: StateV,
    pub positions: Seq<StakeInfoV>,
    pub total_staked: u128,
    pub total_reward: u128,
}

impl View for StakeEngine {
    type V = StakeEngineV;

    open spec fn view(&self) -> StakeEngineV {
        StakeEngineV {
            state: self.state@,
            positions: pos_views(self.positions@),
            total_staked: self.total_staked,
            total_reward: self.total_reward,
        }
    }
}

impl StakeEngineV {
    /// The engine invariant: two positive rate inputs, a sorted list of
    /// well-formed records, and a total that is the sum of all staked
    /// principal.
    pub open spec fn well_formed(self) -> bool {
        &&& self.state.bdog_ratio >= 1
        &&& self.state.gdog_ratio >= 1
        &&& positions_wf(self.positions)
        &&& self.total_staked == sum_staked(self.positions)
    }

    /// The operation-scoped clock is not behind any recorded timestamp;
    /// time is supplied monotonically by the execution environment.
    pub open spec fn time_ok(self, now: u128) -> bool {
        forall|i: int| 0 <= i < self.positions.len() ==> {
            &&& (#[trigger] self.positions[i]).stake_start_time <= now
            &&& self.positions[i].unstaking_start_time <= now
        }
    }
}

/// Where key `k` sits in a sorted record list: `(true, i)` when record `i`
/// is filed under `k`; `(false, i)` when no record is and `i` is the place
/// a record with key `k` would be inserted to keep the list sorted.
pub(crate) fn locate(positions: &Vec<StakeInfo>, addr: &str) -> (r: (bool, usize))
    requires
        sorted_by_key(pos_views(positions@)),
    ensures
        ({
            let s = pos_views(positions@);
            let k = key_of(addr@);
            &&& (r.0 ==> r.1 < s.len() && find_idx(s, k) == r.1 as int)
            &&& (!r.0 ==> {
                &&& find_idx(s, k) == -1
                &&& r.1 <= s.len()
                &&& forall|j: int| 0 <= j < r.1 ==> lex_lt(pos_key(s[j]), k)
                &&& forall|j: int| r.1 <= j < s.len() ==> lex_lt(k, pos_key(s[j]))
            })
        }),
{
    let ghost s = pos_views(positions@);
    let ghost k = key_of(addr@);
    let n = positions.len();
    let mut i: usize = 0;
    while i < n
        invariant
            n == positions.len(),
            s == pos_views(positions@),
            k == key_of(addr@),
            sorted_by_key(s),
            i <= n,
            forall|j: int| 0 <= j < i ==> lex_lt(pos_key(s[j]), k),
        decreases n - i,
    {
        let c = cmp_addr(positions[i].owner.as_str(), addr);
        proof {
            assert(s[i as int] == positions@[i as int]@);
        }
        match c {
            ByteCmp::Lt => {
                i = i + 1;
            },
            ByteCmp::Eq => {
                proof {
                    assert forall|j: int| 0 <= j < i implies pos_key(s[j]) != k by {
                        lemma_lex_asymmetric(pos_key(s[j]), k);
                    }
                    lemma_find_idx_at(s, k, i as int);
                }
                return (true, i);
            },
            ByteCmp::Gt => {
                proof {
                    assert forall|j: int| i <= j < s.len() implies lex_lt(k, pos_key(s[j])) by {
                        if j > i {
                            lemma_lex_transitive(k, pos_key(s[i as int]), pos_key(s[j]));
                        }
                    }
                    assert forall|j: int| 0 <= j < s.len() implies pos_key(s[j]) != k by {
                        if j < i {
                            lemma_lex_asymmetric(pos_key(s[j]), k);
                        } else {
                            lemma_lex_asymmetric(k, pos_key(s[j]));
                        }
                    }
                    lemma_find_idx(s, k);
                    if find_idx(s, k) >= 0 {
                        assert(pos_key(s[find_idx(s, k)]) == k);
                    }
                }
                return (false, i);
            },
        }
    }
    proof {
        assert forall|j: int| 0 <= j < s.len() implies pos_key(s[j]) != k by {
            lemma_lex_asymmetric(pos_key(s[j]), k);
        }
        lemma_find_idx(s, k);
        if find_idx(s, k) >= 0 {
            assert(pos_key(s[find_idx(s, k)]) == k);
        }
    }
    (false, n)
}

} // verus!
