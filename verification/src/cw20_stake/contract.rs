//! The staking engine's operations: deposit, begin-unstake, claim-unstaked,
//! claim-reward, edit-global-parameters, and the read-only queries.
//!
//! Every operation is atomic: it either applies its whole transition, stated
//! by the `*_next` spec functions, or returns an error and leaves the engine
//! exactly as it was. Time enters each operation once, as the `now`
//! argument, which the environment supplies monotonically.
use vstd::prelude::*;

verus! {

use crate::TransferMsg;
use crate::addr_bytes::{ByteCmp, cmp_addr, key_of, lex_lt, lemma_lex_asymmetric};
use crate::cw20_stake::error::ContractError;
use crate::cw20_stake::helper::{RATE_SCALE, accrued_reward, calc_ok, calculate_stake_reward,
    per_second_rate};
use crate::cw20_stake::msg::{Cw20Receive, ExecuteMsg, GetStakeResponse, GetStateResponse,
    GetUserRewardResponse, InstantiateMsg, QueryAnswer, QueryMsg, ReceiveMsg, StakeListResponse};
use crate::cw20_stake::state::{StakeEngine, StakeEngineV, StakeInfo, StakeInfoV, State, StateV,
    find_idx, has_key, lemma_find_idx, lemma_insert_sorted, lemma_sum_insert,
    lemma_sum_staked_ge_elem, lemma_sum_update, lemma_update_sorted, locate, pos_key, pos_views,
    pos_wf, positions_wf, sorted_by_key, sum_staked};

/// The effective annual rate: the base rate scaled by the ratio of the two
/// rate inputs, with the ratio truncated first.
pub open spec fn effective_apr(st: StateV) -> int {
    st.gdog_ratio as int / st.bdog_ratio as int * st.apr
}

/// Whether the effective annual rate fits the arithmetic width.
pub open spec fn effective_fits(st: StateV) -> bool {
    effective_apr(st) <= u128::MAX
}

/// Whether `sender` may edit the global parameters.
pub open spec fn is_operator(st: StateV, sender: Seq<char>) -> bool {
    exists|i: int| 0 <= i < st.allowed_operators.len() && st.allowed_operators[i] == sender
}

/// An element-wise copy of a list of account identities.
fn clone_strings(v: &Vec<String>) -> (r: Vec<String>)
    ensures
        r@ == v@,
{
    let n = v.len();
    let mut r: Vec<String> = Vec::new();
    let mut i: usize = 0;
    while i < n
        invariant
            n == v.len(),
            i <= n,
            r@ =~= v@.take(i as int),
        decreases n - i,
    {
        r.push(v[i].clone());
        proof {
            assert(v@.take(i + 1) =~= v@.take(i as int).push(v@[i as int]));
        }
        i = i + 1;
    }
    proof {
        assert(v@.take(n as int) =~= v@);
    }
    r
}

/// Where a page that starts after `after` begins in a record list.
fn page_start_pos(positions: &Vec<StakeInfo>, after: &str) -> (r: usize)
    ensures
        r as int == page_from(pos_views(positions@), key_of(after@)),
        r <= positions@.len(),
{
    let ghost s = pos_views(positions@);
    let ghost k = key_of(after@);
    let n = positions.len();
    let mut i: usize = 0;
    while i < n
        invariant
            s == pos_views(positions@),
            k == key_of(after@),
            n == positions.len(),
            i <= n,
            forall|j: int| 0 <= j < i ==> !lex_lt(k, pos_key(s[j])),
        decreases n - i,
    {
        proof {
            assert(s[i as int] == positions@[i as int]@);
        }
        let c = cmp_addr(after, positions[i].owner.as_str());
        if matches!(c, ByteCmp::Lt) {
            proof {
                lemma_page_from_at(s, k, i as int);
            }
            return i;
        }
        i = i + 1;
    }
    proof {
        lemma_page_from_at(s, k, n as int);
    }
    n
}

/// The effective annual rate as a machine integer.
fn effective_apr_of(state: &State) -> (r: Result<u128, ContractError>)
    requires
        state.bdog_ratio >= 1,
    ensures
        effective_fits(state@) ==> r == Ok::<u128, ContractError>(effective_apr(state@) as u128),
        !effective_fits(state@) ==> (r matches Err(e) && e is Overflow),
{
    let ratio = state.gdog_ratio / state.bdog_ratio;
    match ratio.checked_mul(state.apr) {
        Some(v) => Ok(v),
        None => Err(ContractError::Overflow {}),
    }
}

/// Whether `sender` is one of the allowed operators.
fn sender_is_operator(state: &State, sender: &String) -> (r: bool)
    ensures
        r == is_operator(state@, sender@),
{
    let n = state.allowed_operators.len();
    let mut i: usize = 0;
    while i < n
        invariant
            n == state.allowed_operators.len(),
            i <= n,
            forall|j: int| 0 <= j < i ==> state@.allowed_operators[j] != sender@,
        decreases n - i,
    {
        proof {
            assert(state@.allowed_operators[i as int] == state.allowed_operators@[i as int]@);
        }
        if sender.eq(&state.allowed_operators[i]) {
            return true;
        }
        i = i + 1;
    }
    false
}

/// The record a first deposit creates.
pub open spec fn fresh_position(owner: Seq<char>, amount: u128, eff: int, now: u128) -> StakeInfoV {
    StakeInfoV {
        owner: owner,
        stake_amount: amount,
        unstaking_amount: 0,
        reward_amount: 0,
        apr: eff as u128,
        stake_start_time: now,
        reward_start_time: now,
        unstaking_start_time: 0,
        reward_end_time: 0,
        unstaking_process: false,
        unstake_end_time: 0,
    }
}

/// Index at which a record with key `k` is inserted to keep the list sorted:
/// the number of records filed before `k`.
pub open spec fn ins_idx(s: Seq<StakeInfoV>, k: Seq<u8>) -> int
    decreases s.len(),
{
    if s.len() == 0 {
        0
    } else if lex_lt(pos_key(s[0]), k) {
        1 + ins_idx(s.skip(1), k)
    } else {
        0
    }
}

/// `ins_idx` is the boundary between the records before `k` and those after.
proof fn lemma_ins_idx_at(s: Seq<StakeInfoV>, k: Seq<u8>, i: int)
    requires
        0 <= i <= s.len(),
        forall|j: int| 0 <= j < i ==> lex_lt(pos_key(s[j]), k),
        forall|j: int| i <= j < s.len() ==> lex_lt(k, pos_key(s[j])),
    ensures
        ins_idx(s, k) == i,
    decreases s.len(),
{
    if i > 0 {
        lemma_ins_idx_at(s.skip(1), k, i - 1);
    } else if s.len() > 0 {
        lemma_lex_asymmetric(k, pos_key(s[0]));
    }
}

/// Whether a deposit of `amount` by `sender` at time `now` stays within the
/// arithmetic width everywhere the operation computes.
pub open spec fn stake_ok(e: StakeEngineV, sender: Seq<char>, amount: u128, now: u128) -> bool {
    let k = key_of(sender);
    let eff = effective_apr(e.state);
    &&& effective_fits(e.state)
    &&& e.total_staked + amount <= u128::MAX
    &&& (has_key(e.positions, k) ==> {
        let p = e.positions[find_idx(e.positions, k)];
        &&& calc_ok(eff, p, now as int)
        &&& amount + p.stake_amount <= u128::MAX
        &&& p.reward_amount + accrued_reward(
            per_second_rate(eff), p.stake_amount as int, p.stake_start_time as int, now as int,
        ) <= u128::MAX
    })
}

/// The engine after a successful deposit: an existing record is settled at
/// the current rate and grown by `amount` with its clocks reset to `now`; a
/// first deposit files a fresh record; the staked total grows by `amount`.
pub open spec fn stake_next(e: StakeEngineV, sender: Seq<char>, amount: u128, now: u128)
    -> StakeEngineV {
    let k = key_of(sender);
    let eff = effective_apr(e.state);
    if has_key(e.positions, k) {
        let i = find_idx(e.positions, k);
        let p = e.positions[i];
        let p2 = StakeInfoV {
            owner: sender,
            stake_amount: (p.stake_amount + amount) as u128,
            unstaking_amount: p.unstaking_amount,
            reward_amount: (p.reward_amount + accrued_reward(
                per_second_rate(eff), p.stake_amount as int, p.stake_start_time as int, now as int,
            )) as u128,
            apr: eff as u128,
            stake_start_time: now,
            reward_start_time: now,
            unstaking_start_time: p.unstaking_start_time,
            reward_end_time: now,
            unstaking_process: p.unstaking_process,
            unstake_end_time: p.unstake_end_time,
        };
        StakeEngineV {
            positions: e.positions.update(i, p2),
            total_staked: (e.total_staked + amount) as u128,
            ..e
        }
    } else {
        StakeEngineV {
            positions: e.positions.insert(
                ins_idx(e.positions, k), fresh_position(sender, amount, eff, now),
            ),
            total_staked: (e.total_staked + amount) as u128,
            ..e
        }
    }
}

/// Whether beginning an unstake of `amount` at time `now` stays within the
/// arithmetic width everywhere the operation computes. Meaningful once a
/// record exists and holds enough staked principal.
pub open spec fn start_unstake_ok(e: StakeEngineV, sender: Seq<char>, amount: u128, now: u128)
    -> bool {
    let k = key_of(sender);
    let p = e.positions[find_idx(e.positions, k)];
    let eff = effective_apr(e.state);
    &&& effective_fits(e.state)
    &&& calc_ok(eff, p, now as int)
    &&& p.unstaking_amount + amount <= u128::MAX
    &&& now + e.state.unstaking_duration <= u128::MAX
    &&& p.reward_amount + accrued_reward(
        per_second_rate(eff), p.stake_amount as int, p.stake_start_time as int, now as int,
    ) <= u128::MAX
}

/// The engine after a successful begin-unstake: live accrual is folded into
/// the banked reward, `amount` moves from the staked to the unstaking
/// bucket, the cooldown clock restarts at `now`, and the staked total
/// shrinks by `amount`. A begin-unstake that leaves nothing pending leaves
/// the cooldown fields untouched.
pub open spec fn start_unstake_next(e: StakeEngineV, sender: Seq<char>, amount: u128, now: u128)
    -> StakeEngineV {
    let k = key_of(sender);
    let i = find_idx(e.positions, k);
    let p = e.positions[i];
    let eff = effective_apr(e.state);
    let new_unstaking = (p.unstaking_amount + amount) as u128;
    let p2 = StakeInfoV {
        owner: p.owner,
        stake_amount: (p.stake_amount - amount) as u128,
        unstaking_amount: new_unstaking,
        reward_amount: (p.reward_amount + accrued_reward(
            per_second_rate(eff), p.stake_amount as int, p.stake_start_time as int, now as int,
        )) as u128,
        apr: p.apr,
        stake_start_time: p.stake_start_time,
        reward_start_time: p.reward_start_time,
        unstaking_start_time: if new_unstaking > 0 { now } else { p.unstaking_start_time },
        reward_end_time: now,
        unstaking_process: if new_unstaking > 0 { true } else { p.unstaking_process },
        unstake_end_time: (now + e.state.unstaking_duration) as u128,
    };
    StakeEngineV {
        positions: e.positions.update(i, p2),
        total_staked: (e.total_staked - amount) as u128,
        ..e
    }
}

/// Whether the cooldown of the record filed under `k` has elapsed by `now`.
pub open spec fn cooldown_elapsed(e: StakeEngineV, k: Seq<u8>, now: u128) -> bool {
    let p = e.positions[find_idx(e.positions, k)];
    &&& now - p.unstaking_start_time >= e.state.unstaking_duration
    &&& p.unstaking_start_time != 0
}

/// The engine after a successful principal claim: `amount` leaves the
/// unstaking bucket; a bucket that reaches zero clears the cooldown clock
/// and flag, and a fully emptied position also clears both accrual clocks.
pub open spec fn claim_unstaked_next(e: StakeEngineV, sender: Seq<char>, amount: u128)
    -> StakeEngineV {
    let k = key_of(sender);
    let i = find_idx(e.positions, k);
    let p = e.positions[i];
    let u2 = (p.unstaking_amount - amount) as u128;
    let cleared = u2 == 0;
    let closed = cleared && p.stake_amount == 0;
    let p2 = StakeInfoV {
        owner: p.owner,
        stake_amount: p.stake_amount,
        unstaking_amount: u2,
        reward_amount: p.reward_amount,
        apr: p.apr,
        stake_start_time: if closed { 0 } else { p.stake_start_time },
        reward_start_time: if closed { 0 } else { p.reward_start_time },
        unstaking_start_time: if cleared { 0 } else { p.unstaking_start_time },
        reward_end_time: p.reward_end_time,
        unstaking_process: if cleared { false } else { p.unstaking_process },
        unstake_end_time: p.unstake_end_time,
    };
    StakeEngineV { positions: e.positions.update(i, p2), ..e }
}

/// What a reward claim pays out: the banked reward plus the live accrual,
/// both carrying the full rate scale, descaled by `RATE_SCALE` exactly
/// once, at this payout point.
pub open spec fn claim_reward_payout(e: StakeEngineV, k: Seq<u8>, now: u128) -> int {
    let p = e.positions[find_idx(e.positions, k)];
    let eff = effective_apr(e.state);
    (p.reward_amount + accrued_reward(
        per_second_rate(eff), p.stake_amount as int, p.stake_start_time as int, now as int,
    )) / (RATE_SCALE as int)
}

/// Whether a reward claim at time `now` stays within the arithmetic width.
pub open spec fn claim_reward_ok(e: StakeEngineV, sender: Seq<char>, now: u128) -> bool {
    let k = key_of(sender);
    let p = e.positions[find_idx(e.positions, k)];
    &&& effective_fits(e.state)
    &&& calc_ok(effective_apr(e.state), p, now as int)
    &&& p.reward_amount + accrued_reward(
        per_second_rate(effective_apr(e.state)), p.stake_amount as int,
        p.stake_start_time as int, now as int,
    ) <= u128::MAX
    &&& e.total_reward + claim_reward_payout(e, k, now) <= u128::MAX
}

/// The engine after a successful reward claim: the whole payout is handed
/// to the external ledger, the banked reward returns to zero, the accrual
/// clock restarts at `now` while anything is staked, and the lifetime
/// reward total grows by the payout.
pub open spec fn claim_reward_next(e: StakeEngineV, sender: Seq<char>, now: u128)
    -> StakeEngineV {
    let k = key_of(sender);
    let i = find_idx(e.positions, k);
    let p = e.positions[i];
    let p2 = StakeInfoV {
        reward_amount: 0,
        stake_start_time: if p.stake_amount > 0 { now } else { p.stake_start_time },
        ..p
    };
    StakeEngineV {
        positions: e.positions.update(i, p2),
        total_reward: (e.total_reward + claim_reward_payout(e, k, now)) as u128,
        ..e
    }
}

/// View of an optional operator list.
pub open spec fn opt_strs_view(o: Option<Vec<String>>) -> Option<Seq<Seq<char>>> {
    match o {
        Option::None => None,
        Option::Some(v) => Some(v@.map_values(|s: String| s@)),
    }
}

/// View of an optional account identity.
pub open spec fn opt_str_view(o: Option<String>) -> Option<Seq<char>> {
    match o {
        Option::None => None,
        Option::Some(s) => Some(s@),
    }
}

/// An optional update applied to a current value.
pub open spec fn pick<A>(o: Option<A>, current: A) -> A {
    match o {
        Option::None => current,
        Option::Some(x) => x,
    }
}

/// The global parameters after applying a partial update.
pub open spec fn edited_params(
    st: StateV,
    allowed_operators: Option<Seq<Seq<char>>>,
    token_address: Option<Seq<char>>,
    unstaking_duration: Option<u128>,
    apr: Option<u128>,
    bdog_ratio: Option<u128>,
    gdog_ratio: Option<u128>,
    token_source: Option<Seq<char>>,
    reward_token_address: Option<Seq<char>>,
) -> StateV {
    StateV {
        allowed_operators: pick(allowed_operators, st.allowed_operators),
        unstaking_duration: pick(unstaking_duration, st.unstaking_duration),
        apr: pick(apr, st.apr),
        bdog_ratio: pick(bdog_ratio, st.bdog_ratio),
        gdog_ratio: pick(gdog_ratio, st.gdog_ratio),
        token_address: pick(token_address, st.token_address),
        token_source: pick(token_source, st.token_source),
        reward_token_address: pick(reward_token_address, st.reward_token_address),
    }
}

/// Whether a partial update touches any of the rate inputs, which is what
/// forces the settlement scan.
pub open spec fn rate_touched(
    apr: Option<u128>,
    bdog_ratio: Option<u128>,
    gdog_ratio: Option<u128>,
) -> bool {
    apr is Some || bdog_ratio is Some || gdog_ratio is Some
}

/// One record settled at the old effective rate: live accrual is folded
/// into the banked reward, the accrual clocks restart at `now`, and the new
/// effective rate is recorded. A record with nothing staked only records
/// the new rate.
pub open spec fn settled(p: StakeInfoV, old_eff: int, new_eff: int, now: u128) -> StakeInfoV {
    if p.stake_amount > 0 {
        StakeInfoV {
            reward_amount: (p.reward_amount + accrued_reward(
                per_second_rate(old_eff), p.stake_amount as int, p.stake_start_time as int,
                now as int,
            )) as u128,
            stake_start_time: now,
            reward_start_time: now,
            apr: new_eff as u128,
            ..p
        }
    } else {
        StakeInfoV { apr: new_eff as u128, ..p }
    }
}

/// Every record settled at the old effective rate.
pub open spec fn settle_all(s: Seq<StakeInfoV>, old_eff: int, new_eff: int, now: u128)
    -> Seq<StakeInfoV> {
    s.map_values(|p: StakeInfoV| settled(p, old_eff, new_eff, now))
}

/// Whether settling every record at `old_eff` stays within the arithmetic
/// width.
pub open spec fn settle_ok(s: Seq<StakeInfoV>, old_eff: int, now: u128) -> bool {
    forall|i: int| 0 <= i < s.len() ==> {
        &&& calc_ok(old_eff, #[trigger] s[i], now as int)
        &&& s[i].reward_amount + accrued_reward(
            per_second_rate(old_eff), s[i].stake_amount as int, s[i].stake_start_time as int,
            now as int,
        ) <= u128::MAX
    }
}

/// Settling changes no staked amount, so the staked sum is unchanged.
proof fn lemma_sum_staked_settle(s: Seq<StakeInfoV>, old_eff: int, new_eff: int, now: u128)
    ensures
        sum_staked(settle_all(s, old_eff, new_eff, now)) == sum_staked(s),
    decreases s.len(),
{
    if s.len() > 0 {
        assert(settle_all(s, old_eff, new_eff, now).skip(1) =~= settle_all(
            s.skip(1), old_eff, new_eff, now,
        ));
        lemma_sum_staked_settle(s.skip(1), old_eff, new_eff, now);
    }
}

/// Whether a partial update by `sender` at time `now` is authorized and
/// stays within the arithmetic width, including the settlement scan a rate
/// change forces.
pub open spec fn edit_state_ok(
    e: StakeEngineV,
    sender: Seq<char>,
    allowed_operators: Option<Seq<Seq<char>>>,
    token_address: Option<Seq<char>>,
    unstaking_duration: Option<u128>,
    apr: Option<u128>,
    bdog_ratio: Option<u128>,
    gdog_ratio: Option<u128>,
    token_source: Option<Seq<char>>,
    reward_token_address: Option<Seq<char>>,
    now: u128,
) -> bool {
    let st2 = edited_params(
        e.state, allowed_operators, token_address, unstaking_duration, apr, bdog_ratio,
        gdog_ratio, token_source, reward_token_address,
    );
    &&& is_operator(e.state, sender)
    &&& (rate_touched(apr, bdog_ratio, gdog_ratio) ==> {
        &&& st2.bdog_ratio >= 1
        &&& st2.gdog_ratio >= 1
        &&& effective_fits(e.state)
        &&& effective_fits(st2)
        &&& settle_ok(e.positions, effective_apr(e.state), now)
    })
}

/// The engine after a successful partial update: the new parameters are in
/// force and, when a rate input changed, every record was first settled at
/// the old effective rate. The totals are untouched.
pub open spec fn edit_state_next(
    e: StakeEngineV,
    allowed_operators: Option<Seq<Seq<char>>>,
    token_address: Option<Seq<char>>,
    unstaking_duration: Option<u128>,
    apr: Option<u128>,
    bdog_ratio: Option<u128>,
    gdog_ratio: Option<u128>,
    token_source: Option<Seq<char>>,
    reward_token_address: Option<Seq<char>>,
    now: u128,
) -> StakeEngineV {
    let st2 = edited_params(
        e.state, allowed_operators, token_address, unstaking_duration, apr, bdog_ratio,
        gdog_ratio, token_source, reward_token_address,
    );
    StakeEngineV {
        state: st2,
        positions: if rate_touched(apr, bdog_ratio, gdog_ratio) {
            settle_all(e.positions, effective_apr(e.state), effective_apr(st2), now)
        } else {
            e.positions
        },
        ..e
    }
}

/// Default page size of the record listing.
pub const DEFAULT_LIMIT: u32 = 10;

/// Largest page size the record listing serves, whatever was asked.
pub const MAX_LIMIT: u32 = 30;

/// Whether the live reward preview for the record filed under `k` stays
/// within the arithmetic width.
pub open spec fn preview_ok(e: StakeEngineV, k: Seq<u8>, now: u128) -> bool {
    let p = e.positions[find_idx(e.positions, k)];
    &&& effective_fits(e.state)
    &&& (p.stake_amount > 0 ==> {
        &&& calc_ok(effective_apr(e.state), p, now as int)
        &&& p.reward_amount + accrued_reward(
            per_second_rate(effective_apr(e.state)), p.stake_amount as int,
            p.stake_start_time as int, now as int,
        ) <= u128::MAX
    })
}

/// The live reward preview: the banked reward plus, while anything is
/// staked, the scaled accrual up to `now` at the current rate.
pub open spec fn preview_value(e: StakeEngineV, k: Seq<u8>, now: u128) -> int {
    let p = e.positions[find_idx(e.positions, k)];
    if p.stake_amount > 0 {
        p.reward_amount + accrued_reward(
            per_second_rate(effective_apr(e.state)), p.stake_amount as int,
            p.stake_start_time as int, now as int,
        )
    } else {
        p.reward_amount as int
    }
}

/// The length of the longest prefix of records whose keys do not come after
/// `k`: where a page that starts after `k` begins.
pub open spec fn page_from(s: Seq<StakeInfoV>, k: Seq<u8>) -> int
    decreases s.len(),
{
    if s.len() == 0 {
        0
    } else if lex_lt(k, pos_key(s[0])) {
        0
    } else {
        1 + page_from(s.skip(1), k)
    }
}

/// Where a page begins: at the first record, or just after the exclusive
/// `start_after` cursor.
pub open spec fn page_start(s: Seq<StakeInfoV>, start_after: Option<Seq<char>>) -> int {
    match start_after {
        Option::None => 0,
        Option::Some(a) => page_from(s, key_of(a)),
    }
}

/// The page size actually served: the requested one, defaulted and clamped
/// to the server maximum.
pub open spec fn eff_limit(limit: Option<u32>) -> int {
    let l = pick(limit, DEFAULT_LIMIT);
    if l < MAX_LIMIT {
        l as int
    } else {
        MAX_LIMIT as int
    }
}

/// How many records a page holds: the clamped page size, or fewer when the
/// list ends first.
pub open spec fn page_count(
    s: Seq<StakeInfoV>,
    start_after: Option<Seq<char>>,
    limit: Option<u32>,
) -> int {
    let from = page_start(s, start_after);
    let lim = eff_limit(limit);
    if s.len() - from < lim {
        s.len() - from
    } else {
        lim
    }
}

/// `page_from` is the boundary between the records at or before `k` and
/// those after it.
proof fn lemma_page_from_at(s: Seq<StakeInfoV>, k: Seq<u8>, i: int)
    requires
        0 <= i <= s.len(),
        forall|j: int| 0 <= j < i ==> !lex_lt(k, pos_key(s[j])),
        i < s.len() ==> lex_lt(k, pos_key(s[i])),
    ensures
        page_from(s, k) == i,
    decreases s.len(),
{
    if i > 0 {
        lemma_page_from_at(s.skip(1), k, i - 1);
    }
}

/// The clock of the record filed under `k`, if any, is not ahead of `now`.
pub open spec fn pos_time_ok(e: StakeEngineV, k: Seq<u8>, now: u128) -> bool {
    has_key(e.positions, k) ==> {
        let p = e.positions[find_idx(e.positions, k)];
        &&& p.stake_start_time <= now
        &&& p.unstaking_start_time <= now
    }
}

impl StakeEngine {
    /// A fresh engine with the given parameters, no staking records and
    /// zero totals. The rate inputs must both be positive: a zero
    /// denominator would leave the rate undefined, a zero numerator is
    /// rejected alike.
    pub fn instantiate(msg: InstantiateMsg) -> (r: Result<StakeEngine, ContractError>)
        ensures
            msg.bdog_ratio >= 1 && msg.gdog_ratio >= 1 ==> (r matches Ok(en) && en@ == (StakeEngineV {
                state: StateV {
                    allowed_operators: msg.allowed_operators@.map_values(|s: String| s@),
                    unstaking_duration: msg.unstaking_duration,
                    apr: msg.apr,
                    bdog_ratio: msg.bdog_ratio,
                    gdog_ratio: msg.gdog_ratio,
                    token_address: msg.token_address@,
                    token_source: msg.token_source@,
                    reward_token_address: msg.reward_token_address@,
                },
                positions: Seq::<StakeInfoV>::empty(),
                total_staked: 0,
                total_reward: 0,
            }) && en@.well_formed()),
            msg.bdog_ratio == 0 ==> (r matches Err(e) && e is DivideByZero),
            msg.bdog_ratio >= 1 && msg.gdog_ratio == 0 ==> (r matches Err(e)
                && e is InvalidRateInput),
    {
        if msg.bdog_ratio == 0 {
            return Err(ContractError::DivideByZero {});
        }
        if msg.gdog_ratio == 0 {
            return Err(ContractError::InvalidRateInput {});
        }
        let engine = StakeEngine {
            state: State {
                allowed_operators: msg.allowed_operators,
                unstaking_duration: msg.unstaking_duration,
                apr: msg.apr,
                bdog_ratio: msg.bdog_ratio,
                gdog_ratio: msg.gdog_ratio,
                token_address: msg.token_address,
                token_source: msg.token_source,
                reward_token_address: msg.reward_token_address,
            },
            positions: Vec::new(),
            total_staked: 0,
            total_reward: 0,
        };
        proof {
            assert(pos_views(engine.positions@) =~= Seq::<StakeInfoV>::empty());
        }
        Ok(engine)
    }

    /// Deposit `amount` of already-received principal for `sender`: settle
    /// any live accrual into the banked reward at the current rate, grow the
    /// staked principal, and restart the accrual clocks at `now`.
    pub fn stake(&mut self, sender: String, amount: u128, now: u128) -> (r: Result<
        (),
        ContractError,
    >)
        requires
            old(self)@.well_formed(),
            pos_time_ok(old(self)@, key_of(sender@), now),
            amount >= 1,
        ensures
            r is Ok <==> stake_ok(old(self)@, sender@, amount, now),
            r is Ok ==> final(self)@ == stake_next(old(self)@, sender@, amount, now),
            r is Ok ==> final(self)@.well_formed(),
            r is Err ==> final(self)@ == old(self)@ && (r matches Err(e) && e is Overflow),
    {
        let ghost e = self@;
        let ghost sv = sender@;
        let ghost k = key_of(sender@);
        let new_apr = match effective_apr_of(&self.state) {
            Ok(v) => v,
            Err(err) => {
                return Err(err);
            },
        };
        let ghost eff = effective_apr(e.state);
        let (found, idx) = locate(&self.positions, sender.as_str());
        if !found {
            proof {
                lemma_find_idx(e.positions, k);
            }
            let total = match self.total_staked.checked_add(amount) {
                Some(v) => v,
                None => {
                    return Err(ContractError::Overflow {});
                },
            };
            let info = StakeInfo {
                owner: sender,
                stake_amount: amount,
                unstaking_amount: 0,
                reward_amount: 0,
                apr: new_apr,
                stake_start_time: now,
                reward_start_time: now,
                unstaking_start_time: 0,
                reward_end_time: 0,
                unstaking_process: false,
                unstake_end_time: 0,
            };
            let ghost infov = info@;
            self.positions.insert(idx, info);
            self.total_staked = total;
            proof {
                lemma_ins_idx_at(e.positions, k, idx as int);
                assert(pos_views(self.positions@) =~= e.positions.insert(idx as int, infov));
                assert(infov =~= fresh_position(sv, amount, eff, now));
                assert(self@ =~~= stake_next(e, sv, amount, now));
                lemma_insert_sorted(e.positions, idx as int, infov);
                lemma_sum_insert(e.positions, idx as int, infov);
                assert forall|j: int| 0 <= j < self@.positions.len() implies pos_wf(
                    #[trigger] self@.positions[j]) by {
                    if j != idx as int {
                        let jj = if j < idx as int { j } else { j - 1 };
                        assert(self@.positions[j] == e.positions[jj]);
                    }
                }
            }
            return Ok(());
        }
        proof {
            lemma_find_idx(e.positions, k);
            assert(e.positions[idx as int] == self.positions@[idx as int]@);
        }
        let curr_reward = match calculate_stake_reward(new_apr, &self.positions[idx], now) {
            Ok(v) => v,
            Err(err) => {
                return Err(err);
            },
        };
        let ghost p = e.positions[idx as int];
        let new_stake = match amount.checked_add(self.positions[idx].stake_amount) {
            Some(v) => v,
            None => {
                return Err(ContractError::Overflow {});
            },
        };
        let new_reward = match curr_reward.checked_add(self.positions[idx].reward_amount) {
            Some(v) => v,
            None => {
                return Err(ContractError::Overflow {});
            },
        };
        let total = match self.total_staked.checked_add(amount) {
            Some(v) => v,
            None => {
                return Err(ContractError::Overflow {});
            },
        };
        let info = StakeInfo {
            owner: sender,
            stake_amount: new_stake,
            unstaking_amount: self.positions[idx].unstaking_amount,
            reward_amount: new_reward,
            apr: new_apr,
            stake_start_time: now,
            reward_start_time: now,
            unstaking_start_time: self.positions[idx].unstaking_start_time,
            reward_end_time: now,
            unstaking_process: self.positions[idx].unstaking_process,
            unstake_end_time: self.positions[idx].unstake_end_time,
        };
        let ghost infov = info@;
        proof {
            assert(pos_key(infov) == pos_key(p)) by {
                lemma_find_idx(e.positions, k);
            }
        }
        self.positions.set(idx, info);
        self.total_staked = total;
        proof {
            assert(pos_views(self.positions@) =~= e.positions.update(idx as int, infov));
            assert(self@ =~~= stake_next(e, sv, amount, now));
            lemma_update_sorted(e.positions, idx as int, infov);
            lemma_sum_update(e.positions, idx as int, infov);
            assert forall|j: int| 0 <= j < self@.positions.len() implies pos_wf(
                #[trigger] self@.positions[j]) by {
                if j != idx as int {
                    assert(self@.positions[j] == e.positions[j]);
                }
            }
        }
        Ok(())
    }

    /// Move `amount` from the staked to the unstaking bucket for `sender`,
    /// folding the live accrual into the banked reward and starting the
    /// cooldown at `now`. A repeated begin-unstake restarts the cooldown for
    /// the whole pending amount.
    pub fn start_unstake(&mut self, sender: String, amount: u128, now: u128) -> (r: Result<
        (),
        ContractError,
    >)
        requires
            old(self)@.well_formed(),
            pos_time_ok(old(self)@, key_of(sender@), now),
        ensures
            ({
                let e = old(self)@;
                let k = key_of(sender@);
                let found = has_key(e.positions, k);
                let p = e.positions[find_idx(e.positions, k)];
                &&& (!found ==> (r matches Err(err) && err is PositionNotFound))
                &&& (found && p.stake_amount < amount ==> (r matches Err(err)
                    && err is MoreThanStakeAmount))
                &&& (found && amount <= p.stake_amount && !start_unstake_ok(e, sender@, amount, now)
                    ==> (r matches Err(err) && err is Overflow))
                &&& (r is Ok <==> found && amount <= p.stake_amount
                    && start_unstake_ok(e, sender@, amount, now))
                &&& (r is Ok ==> final(self)@ == start_unstake_next(e, sender@, amount, now)
                    && final(self)@.well_formed())
                &&& (r is Err ==> final(self)@ == e)
            }),
    {
        let ghost e = self@;
        let ghost k = key_of(sender@);
        let (found, idx) = locate(&self.positions, sender.as_str());
        if !found {
            return Err(ContractError::PositionNotFound {});
        }
        proof {
            lemma_find_idx(e.positions, k);
            assert(e.positions[idx as int] == self.positions@[idx as int]@);
        }
        let ghost p = e.positions[idx as int];
        if self.positions[idx].stake_amount < amount {
            return Err(ContractError::MoreThanStakeAmount {});
        }
        let apr = match effective_apr_of(&self.state) {
            Ok(v) => v,
            Err(err) => {
                return Err(err);
            },
        };
        let curr_reward = match calculate_stake_reward(apr, &self.positions[idx], now) {
            Ok(v) => v,
            Err(err) => {
                return Err(err);
            },
        };
        let new_unstaking = match self.positions[idx].unstaking_amount.checked_add(amount) {
            Some(v) => v,
            None => {
                return Err(ContractError::Overflow {});
            },
        };
        let unstake_end = match now.checked_add(self.state.unstaking_duration) {
            Some(v) => v,
            None => {
                return Err(ContractError::Overflow {});
            },
        };
        let new_reward = match self.positions[idx].reward_amount.checked_add(curr_reward) {
            Some(v) => v,
            None => {
                return Err(ContractError::Overflow {});
            },
        };
        proof {
            lemma_sum_staked_ge_elem(e.positions, idx as int);
        }
        let info = StakeInfo {
            owner: self.positions[idx].owner.clone(),
            stake_amount: self.positions[idx].stake_amount - amount,
            unstaking_amount: new_unstaking,
            reward_amount: new_reward,
            apr: self.positions[idx].apr,
            stake_start_time: self.positions[idx].stake_start_time,
            reward_start_time: self.positions[idx].reward_start_time,
            unstaking_start_time: if new_unstaking > 0 { now } else {
                self.positions[idx].unstaking_start_time
            },
            reward_end_time: now,
            unstaking_process: if new_unstaking > 0 { true } else {
                self.positions[idx].unstaking_process
            },
            unstake_end_time: unstake_end,
        };
        let ghost infov = info@;
        self.positions.set(idx, info);
        self.total_staked = self.total_staked - amount;
        proof {
            assert(pos_views(self.positions@) =~= e.positions.update(idx as int, infov));
            assert(self@ =~~= start_unstake_next(e, sender@, amount, now));
            lemma_update_sorted(e.positions, idx as int, infov);
            lemma_sum_update(e.positions, idx as int, infov);
            assert forall|j: int| 0 <= j < self@.positions.len() implies pos_wf(
                #[trigger] self@.positions[j]) by {
                if j != idx as int {
                    assert(self@.positions[j] == e.positions[j]);
                }
            }
        }
        Ok(())
    }

    /// Pay `amount` of principal whose cooldown has elapsed back to
    /// `sender`, and return the transfer instruction the external ledger
    /// must settle.
    pub fn claim_unstaked(&mut self, sender: String, amount: u128, now: u128) -> (r: Result<
        TransferMsg,
        ContractError,
    >)
        requires
            old(self)@.well_formed(),
            pos_time_ok(old(self)@, key_of(sender@), now),
        ensures
            ({
                let e = old(self)@;
                let k = key_of(sender@);
                let found = has_key(e.positions, k);
                let p = e.positions[find_idx(e.positions, k)];
                &&& (!found ==> (r matches Err(err) && err is PositionNotFound))
                &&& (found && !p.unstaking_process ==> (r matches Err(err)
                    && err is UnstakingProcessIsNotStarted))
                &&& (found && p.unstaking_process && !cooldown_elapsed(e, k, now) ==> (
                    r matches Err(err) && err is MinUnstakingTimeRequired))
                &&& (found && p.unstaking_process && cooldown_elapsed(e, k, now)
                    && p.unstaking_amount < amount ==> (r matches Err(err)
                    && err == (ContractError::AmountLargerThanUnstaked {
                        unstaked: p.unstaking_amount,
                        amount: amount,
                    })))
                &&& (r is Ok <==> found && p.unstaking_process && cooldown_elapsed(e, k, now)
                    && amount <= p.unstaking_amount)
                &&& (r is Ok ==> final(self)@ == claim_unstaked_next(e, sender@, amount)
                    && final(self)@.well_formed()
                    && (r matches Ok(t) && t@ == (crate::TransferMsgV {
                        token: e.state.token_address,
                        recipient: sender@,
                        amount: amount,
                    })))
                &&& (r is Err ==> final(self)@ == e)
            }),
    {
        let ghost e = self@;
        let ghost k = key_of(sender@);
        let (found, idx) = locate(&self.positions, sender.as_str());
        if !found {
            return Err(ContractError::PositionNotFound {});
        }
        proof {
            lemma_find_idx(e.positions, k);
            assert(e.positions[idx as int] == self.positions@[idx as int]@);
        }
        let ghost p = e.positions[idx as int];
        if !self.positions[idx].unstaking_process {
            return Err(ContractError::UnstakingProcessIsNotStarted {});
        }
        if now - self.positions[idx].unstaking_start_time < self.state.unstaking_duration
            || self.positions[idx].unstaking_start_time == 0 {
            return Err(ContractError::MinUnstakingTimeRequired {});
        }
        if self.positions[idx].unstaking_amount < amount {
            return Err(ContractError::AmountLargerThanUnstaked {
                unstaked: self.positions[idx].unstaking_amount,
                amount,
            });
        }
        let new_unstaking = self.positions[idx].unstaking_amount - amount;
        let cleared = new_unstaking == 0;
        let closed = cleared && self.positions[idx].stake_amount == 0;
        let info = StakeInfo {
            owner: self.positions[idx].owner.clone(),
            stake_amount: self.positions[idx].stake_amount,
            unstaking_amount: new_unstaking,
            reward_amount: self.positions[idx].reward_amount,
            apr: self.positions[idx].apr,
            stake_start_time: if closed { 0 } else { self.positions[idx].stake_start_time },
            reward_start_time: if closed { 0 } else { self.positions[idx].reward_start_time },
            unstaking_start_time: if cleared { 0 } else {
                self.positions[idx].unstaking_start_time
            },
            reward_end_time: self.positions[idx].reward_end_time,
            unstaking_process: if cleared { false } else { true },
            unstake_end_time: self.positions[idx].unstake_end_time,
        };
        let transfer = TransferMsg {
            token: self.state.token_address.clone(),
            recipient: sender,
            amount,
        };
        let ghost infov = info@;
        self.positions.set(idx, info);
        proof {
            assert(pos_views(self.positions@) =~= e.positions.update(idx as int, infov));
            assert(self@ =~~= claim_unstaked_next(e, infov.owner, amount)) by {
                assert(pos_key(p) == k);
            }
            assert(claim_unstaked_next(e, infov.owner, amount)
                == claim_unstaked_next(e, sender@, amount)) by {
                assert(key_of(infov.owner) == k);
            }
            lemma_update_sorted(e.positions, idx as int, infov);
            lemma_sum_update(e.positions, idx as int, infov);
            assert forall|j: int| 0 <= j < self@.positions.len() implies pos_wf(
                #[trigger] self@.positions[j]) by {
                if j != idx as int {
                    assert(self@.positions[j] == e.positions[j]);
                }
            }
        }
        Ok(transfer)
    }

    /// Pay the whole banked reward plus the live accrual to `sender`,
    /// descaled by the full rate scale exactly once, at this payout point;
    /// zero the banked reward, restart the accrual clock, and return the
    /// transfer instruction.
    pub fn claim_reward(&mut self, sender: String, _amount: u128, now: u128) -> (r: Result<
        TransferMsg,
        ContractError,
    >)
        requires
            old(self)@.well_formed(),
            pos_time_ok(old(self)@, key_of(sender@), now),
        ensures
            ({
                let e = old(self)@;
                let k = key_of(sender@);
                let found = has_key(e.positions, k);
                &&& (!found ==> (r matches Err(err) && err is PositionNotFound))
                &&& (found && !claim_reward_ok(e, sender@, now) ==> (r matches Err(err)
                    && err is Overflow))
                &&& (r is Ok <==> found && claim_reward_ok(e, sender@, now))
                &&& (r is Ok ==> final(self)@ == claim_reward_next(e, sender@, now)
                    && final(self)@.well_formed()
                    && (r matches Ok(t) && t@ == (crate::TransferMsgV {
                        token: e.state.reward_token_address,
                        recipient: sender@,
                        amount: claim_reward_payout(e, k, now) as u128,
                    })))
                &&& (r is Err ==> final(self)@ == e)
            }),
    {
        let ghost e = self@;
        let ghost k = key_of(sender@);
        let (found, idx) = locate(&self.positions, sender.as_str());
        if !found {
            return Err(ContractError::PositionNotFound {});
        }
        proof {
            lemma_find_idx(e.positions, k);
            assert(e.positions[idx as int] == self.positions@[idx as int]@);
        }
        let ghost p = e.positions[idx as int];
        let apr = match effective_apr_of(&self.state) {
            Ok(v) => v,
            Err(err) => {
                return Err(err);
            },
        };
        let reward_with_decimals = match calculate_stake_reward(apr, &self.positions[idx], now) {
            Ok(v) => v,
            Err(err) => {
                return Err(err);
            },
        };
        let total_scaled = match self.positions[idx].reward_amount.checked_add(
            reward_with_decimals,
        ) {
            Some(v) => v,
            None => {
                return Err(ContractError::Overflow {});
            },
        };
        let total_payout = total_scaled / RATE_SCALE;
        let new_total_reward = match self.total_reward.checked_add(total_payout) {
            Some(v) => v,
            None => {
                return Err(ContractError::Overflow {});
            },
        };
        let info = StakeInfo {
            owner: self.positions[idx].owner.clone(),
            stake_amount: self.positions[idx].stake_amount,
            unstaking_amount: self.positions[idx].unstaking_amount,
            reward_amount: 0,
            apr: self.positions[idx].apr,
            stake_start_time: if self.positions[idx].stake_amount > 0 { now } else {
                self.positions[idx].stake_start_time
            },
            reward_start_time: self.positions[idx].reward_start_time,
            unstaking_start_time: self.positions[idx].unstaking_start_time,
            reward_end_time: self.positions[idx].reward_end_time,
            unstaking_process: self.positions[idx].unstaking_process,
            unstake_end_time: self.positions[idx].unstake_end_time,
        };
        let transfer = TransferMsg {
            token: self.state.reward_token_address.clone(),
            recipient: sender,
            amount: total_payout,
        };
        let ghost infov = info@;
        self.positions.set(idx, info);
        self.total_reward = new_total_reward;
        proof {
            assert(pos_views(self.positions@) =~= e.positions.update(idx as int, infov));
            assert(self@ =~~= claim_reward_next(e, infov.owner, now)) by {
                assert(pos_key(p) == k);
            }
            assert(claim_reward_next(e, infov.owner, now) == claim_reward_next(e, sender@, now))
                by {
                assert(key_of(infov.owner) == k);
            }
            lemma_update_sorted(e.positions, idx as int, infov);
            lemma_sum_update(e.positions, idx as int, infov);
            assert forall|j: int| 0 <= j < self@.positions.len() implies pos_wf(
                #[trigger] self@.positions[j]) by {
                if j != idx as int {
                    assert(self@.positions[j] == e.positions[j]);
                }
            }
        }
        Ok(transfer)
    }

    /// Apply a partial update to the global parameters. Only an allowed
    /// operator may call this. Changing any rate input first settles every
    /// record at the old effective rate, all-or-nothing: if any record's
    /// settlement would overflow, nothing changes.
    #[verifier::rlimit(60)]
    pub fn edit_state(
        &mut self,
        sender: String,
        allowed_operators: Option<Vec<String>>,
        token_address: Option<String>,
        unstaking_duration: Option<u128>,
        apr: Option<u128>,
        bdog_ratio: Option<u128>,
        gdog_ratio: Option<u128>,
        token_source: Option<String>,
        reward_token_address: Option<String>,
        now: u128,
    ) -> (r: Result<(), ContractError>)
        requires
            old(self)@.well_formed(),
            old(self)@.time_ok(now),
        ensures
            ({
                let e = old(self)@;
                let ops = opt_strs_view(allowed_operators);
                let tok = opt_str_view(token_address);
                let src = opt_str_view(token_source);
                let rtok = opt_str_view(reward_token_address);
                let st2 = edited_params(
                    e.state, ops, tok, unstaking_duration, apr, bdog_ratio, gdog_ratio, src, rtok,
                );
                let touched = rate_touched(apr, bdog_ratio, gdog_ratio);
                &&& (!is_operator(e.state, sender@) ==> (r matches Err(err)
                    && err is Unauthorized))
                &&& (is_operator(e.state, sender@) && touched && st2.bdog_ratio == 0 ==> (
                    r matches Err(err) && err is DivideByZero))
                &&& (is_operator(e.state, sender@) && touched && st2.bdog_ratio >= 1
                    && st2.gdog_ratio == 0 ==> (r matches Err(err) && err is InvalidRateInput))
                &&& (is_operator(e.state, sender@) && touched && st2.bdog_ratio >= 1
                    && st2.gdog_ratio >= 1 && !(effective_fits(e.state) && effective_fits(st2)
                        && settle_ok(e.positions, effective_apr(e.state), now))
                    ==> (r matches Err(err) && err is Overflow))
                &&& (r is Ok <==> edit_state_ok(
                    e, sender@, ops, tok, unstaking_duration, apr, bdog_ratio, gdog_ratio, src,
                    rtok, now,
                ))
                &&& (r is Ok ==> final(self)@ == edit_state_next(
                    e, ops, tok, unstaking_duration, apr, bdog_ratio, gdog_ratio, src, rtok, now,
                ) && final(self)@.well_formed())
                &&& (r is Err ==> final(self)@ == e)
            }),
    {
        let ghost e = self@;
        let ghost opsv = opt_strs_view(allowed_operators);
        let ghost tokv = opt_str_view(token_address);
        let ghost srcv = opt_str_view(token_source);
        let ghost rtokv = opt_str_view(reward_token_address);
        if !sender_is_operator(&self.state, &sender) {
            return Err(ContractError::Unauthorized {
                msg: "Only allowed operators can execute this message".to_owned(),
            });
        }
        let ghost st2 = edited_params(
            e.state, opsv, tokv, unstaking_duration, apr, bdog_ratio, gdog_ratio, srcv, rtokv,
        );
        let touched = apr.is_some() || bdog_ratio.is_some() || gdog_ratio.is_some();
        if touched {
            let new_bdog = match bdog_ratio {
                Some(v) => v,
                None => self.state.bdog_ratio,
            };
            let new_gdog = match gdog_ratio {
                Some(v) => v,
                None => self.state.gdog_ratio,
            };
            let new_apr_base = match apr {
                Some(v) => v,
                None => self.state.apr,
            };
            if new_bdog == 0 {
                return Err(ContractError::DivideByZero {});
            }
            if new_gdog == 0 {
                return Err(ContractError::InvalidRateInput {});
            }
            let old_eff = match effective_apr_of(&self.state) {
                Ok(v) => v,
                Err(err) => {
                    return Err(err);
                },
            };
            let new_eff = match (new_gdog / new_bdog).checked_mul(new_apr_base) {
                Some(v) => v,
                None => {
                    return Err(ContractError::Overflow {});
                },
            };
            proof {
                assert(new_eff as int == effective_apr(st2));
            }
            let ghost oe = effective_apr(e.state);
            let ghost ne = effective_apr(st2);
            let n = self.positions.len();
            let mut settled_list: Vec<StakeInfo> = Vec::new();
            let mut i: usize = 0;
            while i < n
                invariant
                    self@ == e,
                    e.well_formed(),
                    e.time_ok(now),
                    n == self.positions.len(),
                    i <= n,
                    old_eff as int == oe,
                    new_eff as int == ne,
                    effective_fits(e.state),
                    is_operator(e.state, sender@),
                    rate_touched(apr, bdog_ratio, gdog_ratio),
                    st2 == edited_params(
                        e.state, opsv, tokv, unstaking_duration, apr, bdog_ratio, gdog_ratio,
                        srcv, rtokv,
                    ),
                    st2.bdog_ratio >= 1,
                    st2.gdog_ratio >= 1,
                    effective_fits(st2),
                    oe == effective_apr(e.state),
                    ne == effective_apr(st2),
                    pos_views(settled_list@) =~= settle_all(
                        e.positions.take(i as int), oe, ne, now,
                    ),
                    forall|j: int| 0 <= j < i ==> {
                        &&& calc_ok(oe, #[trigger] e.positions[j], now as int)
                        &&& e.positions[j].reward_amount + accrued_reward(
                            per_second_rate(oe), e.positions[j].stake_amount as int,
                            e.positions[j].stake_start_time as int, now as int,
                        ) <= u128::MAX
                    },
                decreases n - i,
            {
                proof {
                    assert(e.positions[i as int] == self.positions@[i as int]@);
                }
                let curr = match calculate_stake_reward(old_eff, &self.positions[i], now) {
                    Ok(v) => v,
                    Err(err) => {
                        proof {
                            assert(!calc_ok(oe, e.positions[i as int], now as int));
                            assert(!settle_ok(e.positions, oe, now));
                        }
                        return Err(err);
                    },
                };
                let new_reward = match self.positions[i].reward_amount.checked_add(curr) {
                    Some(v) => v,
                    None => {
                        proof {
                            assert(e.positions[i as int].reward_amount + accrued_reward(
                                per_second_rate(oe), e.positions[i as int].stake_amount as int,
                                e.positions[i as int].stake_start_time as int, now as int,
                            ) > u128::MAX);
                            assert(!settle_ok(e.positions, oe, now));
                        }
                        return Err(ContractError::Overflow {});
                    },
                };
                let staked = self.positions[i].stake_amount > 0;
                let info = StakeInfo {
                    owner: self.positions[i].owner.clone(),
                    stake_amount: self.positions[i].stake_amount,
                    unstaking_amount: self.positions[i].unstaking_amount,
                    reward_amount: if staked { new_reward } else {
                        self.positions[i].reward_amount
                    },
                    apr: new_eff,
                    stake_start_time: if staked { now } else {
                        self.positions[i].stake_start_time
                    },
                    reward_start_time: if staked { now } else {
                        self.positions[i].reward_start_time
                    },
                    unstaking_start_time: self.positions[i].unstaking_start_time,
                    reward_end_time: self.positions[i].reward_end_time,
                    unstaking_process: self.positions[i].unstaking_process,
                    unstake_end_time: self.positions[i].unstake_end_time,
                };
                let ghost infov = info@;
                settled_list.push(info);
                proof {
                    assert(infov =~= settled(e.positions[i as int], oe, ne, now));
                    assert(e.positions.take(i + 1) =~= e.positions.take(i as int).push(
                        e.positions[i as int],
                    ));
                    assert(settle_all(e.positions.take(i + 1), oe, ne, now) =~= settle_all(
                        e.positions.take(i as int), oe, ne, now,
                    ).push(infov));
                }
                i = i + 1;
            }
            proof {
                assert(e.positions.take(n as int) =~= e.positions);
            }
            self.positions = settled_list;
            self.state.apr = new_apr_base;
            self.state.bdog_ratio = new_bdog;
            self.state.gdog_ratio = new_gdog;
        }
        match allowed_operators {
            Some(v) => {
                self.state.allowed_operators = v;
            },
            None => {},
        }
        match token_address {
            Some(v) => {
                self.state.token_address = v;
            },
            None => {},
        }
        match unstaking_duration {
            Some(v) => {
                self.state.unstaking_duration = v;
            },
            None => {},
        }
        match token_source {
            Some(v) => {
                self.state.token_source = v;
            },
            None => {},
        }
        match reward_token_address {
            Some(v) => {
                self.state.reward_token_address = v;
            },
            None => {},
        }
        proof {
            let st3 = edited_params(
                e.state, opsv, tokv, unstaking_duration, apr, bdog_ratio, gdog_ratio, srcv, rtokv,
            );
            assert(self@.state =~= st3);
            if rate_touched(apr, bdog_ratio, gdog_ratio) {
                let oe = effective_apr(e.state);
                let ne = effective_apr(st3);
                assert(self@.positions =~= settle_all(e.positions, oe, ne, now));
                lemma_sum_staked_settle(e.positions, oe, ne, now);
                assert forall|x: int, y: int| 0 <= x < y < self@.positions.len() implies
                    lex_lt(pos_key(self@.positions[x]), pos_key(self@.positions[y])) by {
                    assert(settle_all(e.positions, oe, ne, now)[x] == settled(
                        e.positions[x], oe, ne, now,
                    ));
                    assert(settle_all(e.positions, oe, ne, now)[y] == settled(
                        e.positions[y], oe, ne, now,
                    ));
                    assert(self@.positions[x].owner == e.positions[x].owner);
                    assert(self@.positions[y].owner == e.positions[y].owner);
                    assert(lex_lt(pos_key(e.positions[x]), pos_key(e.positions[y])));
                }
                assert forall|j: int| 0 <= j < self@.positions.len() implies pos_wf(
                    #[trigger] self@.positions[j]) by {
                    assert(settle_all(e.positions, oe, ne, now)[j] == settled(
                        e.positions[j], oe, ne, now,
                    ));
                    assert(pos_wf(e.positions[j]));
                }
            }
            assert(self@ =~~= edit_state_next(
                e, opsv, tokv, unstaking_duration, apr, bdog_ratio, gdog_ratio, srcv, rtokv, now,
            ));
        }
        Ok(())
    }

    /// The live reward preview for `addr` at time `now`: banked reward plus
    /// the scaled accrual since the clock last restarted. Read-only.
    pub fn user_reward(&self, addr: &str, now: u128) -> (r: Result<
        GetUserRewardResponse,
        ContractError,
    >)
        requires
            self@.well_formed(),
            pos_time_ok(self@, key_of(addr@), now),
        ensures
            ({
                let e = self@;
                let k = key_of(addr@);
                let found = has_key(e.positions, k);
                &&& (!found ==> (r matches Err(err) && err is PositionNotFound))
                &&& (found && !preview_ok(e, k, now) ==> (r matches Err(err) && err is Overflow))
                &&& (r is Ok <==> found && preview_ok(e, k, now))
                &&& (r is Ok ==> (r matches Ok(resp) && resp.amount == preview_value(e, k, now)))
            }),
    {
        let ghost e = self@;
        let ghost k = key_of(addr@);
        let (found, idx) = locate(&self.positions, addr);
        if !found {
            return Err(ContractError::PositionNotFound {});
        }
        proof {
            lemma_find_idx(e.positions, k);
            assert(e.positions[idx as int] == self.positions@[idx as int]@);
        }
        let apr = match effective_apr_of(&self.state) {
            Ok(v) => v,
            Err(err) => {
                return Err(err);
            },
        };
        let mut total = self.positions[idx].reward_amount;
        if self.positions[idx].stake_amount > 0 {
            let curr = match calculate_stake_reward(apr, &self.positions[idx], now) {
                Ok(v) => v,
                Err(err) => {
                    return Err(err);
                },
            };
            total = match total.checked_add(curr) {
                Some(v) => v,
                None => {
                    return Err(ContractError::Overflow {});
                },
            };
        }
        Ok(GetUserRewardResponse { amount: total })
    }

    /// The staking record of `addr`. Read-only.
    pub fn user_stake_info(&self, addr: &str) -> (r: Result<GetStakeResponse, ContractError>)
        requires
            self@.well_formed(),
        ensures
            ({
                let e = self@;
                let k = key_of(addr@);
                &&& (r is Ok <==> has_key(e.positions, k))
                &&& (!has_key(e.positions, k) ==> (r matches Err(err) && err is PositionNotFound))
                &&& (r is Ok ==> (r matches Ok(resp) && resp.info@ == e.positions[find_idx(
                    e.positions, k,
                )]))
            }),
    {
        let ghost e = self@;
        let ghost k = key_of(addr@);
        let (found, idx) = locate(&self.positions, addr);
        if !found {
            return Err(ContractError::PositionNotFound {});
        }
        proof {
            assert(e.positions[idx as int] == self.positions@[idx as int]@);
        }
        Ok(GetStakeResponse { info: self.positions[idx].duplicate() })
    }

    /// The global parameters and the aggregate totals. Read-only.
    pub fn state(&self) -> (r: GetStateResponse)
        ensures
            r.allowed_operators@.map_values(|s: String| s@) == self@.state.allowed_operators,
            r.token_address@ == self@.state.token_address,
            r.unstaking_duration == self@.state.unstaking_duration,
            r.apr == self@.state.apr,
            r.token_source@ == self@.state.token_source,
            r.total_staked == self@.total_staked,
            r.total_reward == self@.total_reward,
            r.reward_token_address@ == self@.state.reward_token_address,
    {
        GetStateResponse {
            allowed_operators: clone_strings(&self.state.allowed_operators),
            token_address: self.state.token_address.clone(),
            unstaking_duration: self.state.unstaking_duration,
            apr: self.state.apr,
            token_source: self.state.token_source.clone(),
            total_staked: self.total_staked,
            total_reward: self.total_reward,
            reward_token_address: self.state.reward_token_address.clone(),
        }
    }

    /// One page of staking records, ascending by owner, beginning just
    /// after the exclusive `start_after` cursor. A missing page size
    /// defaults to `DEFAULT_LIMIT`; one above `MAX_LIMIT` is clamped to it,
    /// never rejected. Read-only.
    pub fn list(&self, start_after: Option<String>, limit: Option<u32>) -> (r: StakeListResponse)
        requires
            self@.well_formed(),
        ensures
            ({
                let s = self@.positions;
                let from = page_start(s, opt_str_view(start_after));
                let cnt = page_count(s, opt_str_view(start_after), limit);
                &&& r.stake_list@.len() == cnt
                &&& (forall|j: int| 0 <= j < cnt ==> r.stake_list@[j]@ == s[from + j])
                &&& r.stake_list@.len() <= MAX_LIMIT
            }),
    {
        let ghost s = self@.positions;
        let lim_u32 = match limit {
            Some(l) => if l < MAX_LIMIT {
                l
            } else {
                MAX_LIMIT
            },
            None => DEFAULT_LIMIT,
        };
        let lim = lim_u32 as usize;
        let from = match &start_after {
            Some(a) => page_start_pos(&self.positions, a.as_str()),
            None => 0,
        };
        let n = self.positions.len();
        let mut out: Vec<StakeInfo> = Vec::new();
        let mut taken: usize = 0;
        let mut i = from;
        while i < n && taken < lim
            invariant
                s == self@.positions,
                n == self.positions.len(),
                from <= i <= n,
                taken == i - from,
                taken <= lim,
                out@.len() == taken,
                forall|j: int| 0 <= j < taken ==> out@[j]@ == s[from + j],
            decreases n - i,
        {
            proof {
                assert(s[i as int] == self.positions@[i as int]@);
            }
            out.push(self.positions[i].duplicate());
            taken = taken + 1;
            i = i + 1;
        }
        StakeListResponse { stake_list: out }
    }

    /// A deposit notification from a token contract: accepted only from the
    /// engine's principal token, then staked for the notifying sender.
    pub fn execute_receive(&mut self, sender: String, wrapper: Cw20Receive, now: u128) -> (r:
        Result<(), ContractError>)
        requires
            old(self)@.well_formed(),
            old(self)@.time_ok(now),
            wrapper.amount >= 1,
        ensures
            ({
                let e = old(self)@;
                &&& (sender@ != e.state.token_address ==> (r matches Err(err)
                    && err is InvalidToken) && final(self)@ == e)
                &&& (sender@ == e.state.token_address ==> {
                    &&& (r is Ok <==> stake_ok(e, wrapper.sender@, wrapper.amount, now))
                    &&& (r is Ok ==> final(self)@ == stake_next(
                        e, wrapper.sender@, wrapper.amount, now,
                    ) && final(self)@.well_formed())
                    &&& (r is Err ==> final(self)@ == e && (r matches Err(err) && err is Overflow))
                })
            }),
    {
        let ghost e = self@;
        if !sender.eq(&self.state.token_address) {
            return Err(ContractError::InvalidToken {});
        }
        proof {
            lemma_find_idx(e.positions, key_of(wrapper.sender@));
        }
        match wrapper.msg {
            ReceiveMsg::Stake {} => self.stake(wrapper.sender, wrapper.amount, now),
        }
    }

    /// Apply one mutating operation and return the transfer instructions it
    /// emits for the external ledger.
    pub fn execute(&mut self, sender: String, msg: ExecuteMsg, now: u128) -> (r: Result<
        Vec<TransferMsg>,
        ContractError,
    >)
        requires
            old(self)@.well_formed(),
            old(self)@.time_ok(now),
            (msg matches ExecuteMsg::Receive(w) ==> w.amount >= 1),
        ensures
            ({
                let e = old(self)@;
                &&& (msg matches ExecuteMsg::Receive(w) ==> {
                    &&& (sender@ != e.state.token_address ==> (r matches Err(err)
                        && err is InvalidToken) && final(self)@ == e)
                    &&& (sender@ == e.state.token_address ==> {
                        &&& (r is Ok <==> stake_ok(e, w.sender@, w.amount, now))
                        &&& (r is Ok ==> final(self)@ == stake_next(e, w.sender@, w.amount, now)
                            && (r matches Ok(v) && v@.len() == 0))
                        &&& (r is Err ==> final(self)@ == e)
                    })
                })
                &&& (msg matches ExecuteMsg::StartUnstake { amount } ==> {
                    let k = key_of(sender@);
                    let found = has_key(e.positions, k);
                    let p = e.positions[find_idx(e.positions, k)];
                    &&& (r is Ok <==> found && amount <= p.stake_amount
                        && start_unstake_ok(e, sender@, amount, now))
                    &&& (r is Ok ==> final(self)@ == start_unstake_next(e, sender@, amount, now)
                        && (r matches Ok(v) && v@.len() == 0))
                    &&& (r is Err ==> final(self)@ == e)
                })
                &&& (msg matches ExecuteMsg::ClaimUnstaked { amount } ==> {
                    let k = key_of(sender@);
                    let found = has_key(e.positions, k);
                    let p = e.positions[find_idx(e.positions, k)];
                    &&& (r is Ok <==> found && p.unstaking_process && cooldown_elapsed(e, k, now)
                        && amount <= p.unstaking_amount)
                    &&& (r is Ok ==> final(self)@ == claim_unstaked_next(e, sender@, amount)
                        && (r matches Ok(v) && v@.len() == 1 && v@[0]@ == (crate::TransferMsgV {
                            token: e.state.token_address,
                            recipient: sender@,
                            amount: amount,
                        })))
                    &&& (r is Err ==> final(self)@ == e)
                })
                &&& (msg matches ExecuteMsg::ClaimReward { amount } ==> {
                    let k = key_of(sender@);
                    let found = has_key(e.positions, k);
                    &&& (r is Ok <==> found && claim_reward_ok(e, sender@, now))
                    &&& (r is Ok ==> final(self)@ == claim_reward_next(e, sender@, now)
                        && (r matches Ok(v) && v@.len() == 1 && v@[0]@ == (crate::TransferMsgV {
                            token: e.state.reward_token_address,
                            recipient: sender@,
                            amount: claim_reward_payout(e, k, now) as u128,
                        })))
                    &&& (r is Err ==> final(self)@ == e)
                })
                &&& (msg matches ExecuteMsg::EditState {
                    allowed_operators,
                    token_address,
                    unstaking_duration,
                    apr,
                    bdog_ratio,
                    gdog_ratio,
                    token_source,
                    reward_token_address,
                } ==> {
                    let ops = opt_strs_view(allowed_operators);
                    let tok = opt_str_view(token_address);
                    let src = opt_str_view(token_source);
                    let rtok = opt_str_view(reward_token_address);
                    &&& (r is Ok <==> edit_state_ok(
                        e, sender@, ops, tok, unstaking_duration, apr, bdog_ratio, gdog_ratio,
                        src, rtok, now,
                    ))
                    &&& (r is Ok ==> final(self)@ == edit_state_next(
                        e, ops, tok, unstaking_duration, apr, bdog_ratio, gdog_ratio, src, rtok,
                        now,
                    ) && (r matches Ok(v) && v@.len() == 0))
                    &&& (r is Err ==> final(self)@ == e)
                })
            }),
    {
        let ghost e = self@;
        match msg {
            ExecuteMsg::Receive(wrapper) => {
                match self.execute_receive(sender, wrapper, now) {
                    Ok(()) => Ok(Vec::new()),
                    Err(err) => Err(err),
                }
            },
            ExecuteMsg::StartUnstake { amount } => {
                proof {
                    lemma_find_idx(e.positions, key_of(sender@));
                }
                match self.start_unstake(sender, amount, now) {
                    Ok(()) => Ok(Vec::new()),
                    Err(err) => Err(err),
                }
            },
            ExecuteMsg::ClaimUnstaked { amount } => {
                proof {
                    lemma_find_idx(e.positions, key_of(sender@));
                }
                match self.claim_unstaked(sender, amount, now) {
                    Ok(t) => {
                        let mut v: Vec<TransferMsg> = Vec::new();
                        v.push(t);
                        Ok(v)
                    },
                    Err(err) => Err(err),
                }
            },
            ExecuteMsg::ClaimReward { amount } => {
                proof {
                    lemma_find_idx(e.positions, key_of(sender@));
                }
                match self.claim_reward(sender, amount, now) {
                    Ok(t) => {
                        let mut v: Vec<TransferMsg> = Vec::new();
                        v.push(t);
                        Ok(v)
                    },
                    Err(err) => Err(err),
                }
            },
            ExecuteMsg::EditState {
                allowed_operators,
                token_address,
                unstaking_duration,
                apr,
                bdog_ratio,
                gdog_ratio,
                token_source,
                reward_token_address,
            } => {
                match self.edit_state(
                    sender, allowed_operators, token_address, unstaking_duration, apr, bdog_ratio,
                    gdog_ratio, token_source, reward_token_address, now,
                ) {
                    Ok(()) => Ok(Vec::new()),
                    Err(err) => Err(err),
                }
            },
        }
    }

    /// Answer one read-only query.
    pub fn query(&self, msg: QueryMsg, now: u128) -> (r: Result<QueryAnswer, ContractError>)
        requires
            self@.well_formed(),
            (msg matches QueryMsg::GetUserReward { addr } ==> pos_time_ok(
                self@, key_of(addr@), now,
            )),
        ensures
            ({
                let e = self@;
                &&& (msg matches QueryMsg::GetUserReward { addr } ==> {
                    let k = key_of(addr@);
                    let found = has_key(e.positions, k);
                    &&& (r is Ok <==> found && preview_ok(e, k, now))
                    &&& (r is Ok ==> (r matches Ok(a) && a matches QueryAnswer::UserReward(resp)
                        && resp.amount == preview_value(e, k, now)))
                })
                &&& (msg matches QueryMsg::GetUserStakeInfo { addr } ==> {
                    let k = key_of(addr@);
                    &&& (r is Ok <==> has_key(e.positions, k))
                    &&& (r is Ok ==> (r matches Ok(a) && a matches QueryAnswer::UserStakeInfo(resp)
                        && resp.info@ == e.positions[find_idx(e.positions, k)]))
                })
                &&& (msg is GetState ==> (r matches Ok(a)
                    && a matches QueryAnswer::GlobalState(resp) && {
                    &&& resp.allowed_operators@.map_values(|s: String| s@)
                        == e.state.allowed_operators
                    &&& resp.token_address@ == e.state.token_address
                    &&& resp.unstaking_duration == e.state.unstaking_duration
                    &&& resp.apr == e.state.apr
                    &&& resp.token_source@ == e.state.token_source
                    &&& resp.total_staked == e.total_staked
                    &&& resp.total_reward == e.total_reward
                    &&& resp.reward_token_address@ == e.state.reward_token_address
                }))
                &&& (msg matches QueryMsg::RangeStakeList { start_after, limit } ==> (
                    r matches Ok(a) && a matches QueryAnswer::StakeList(resp) && {
                    let from = page_start(e.positions, opt_str_view(start_after));
                    let cnt = page_count(e.positions, opt_str_view(start_after), limit);
                    &&& resp.stake_list@.len() == cnt
                    &&& (forall|j: int| 0 <= j < cnt ==> resp.stake_list@[j]@
                        == e.positions[from + j])
                }))
            }),
    {
        match msg {
            QueryMsg::GetUserReward { addr } => {
                match self.user_reward(addr.as_str(), now) {
                    Ok(resp) => Ok(QueryAnswer::UserReward(resp)),
                    Err(err) => Err(err),
                }
            },
            QueryMsg::GetUserStakeInfo { addr } => {
                match self.user_stake_info(addr.as_str()) {
                    Ok(resp) => Ok(QueryAnswer::UserStakeInfo(resp)),
                    Err(err) => Err(err),
                }
            },
            QueryMsg::GetState {} => Ok(QueryAnswer::GlobalState(self.state())),
            QueryMsg::RangeStakeList { start_after, limit } => Ok(QueryAnswer::StakeList(
                self.list(start_after, limit),
            )),
        }
    }
}

} // verus!
