//! Engine-level laws: facts that relate several operations of the staking
//! engine, proved from the transition functions the operations' contracts
//! are stated over.
use vstd::prelude::*;

verus! {

use crate::addr_bytes::{key_of, lex_lt, lemma_lex_asymmetric, lemma_lex_transitive};
use crate::cw20_stake::contract::{claim_reward_next, claim_reward_ok, claim_unstaked_next,
    cooldown_elapsed, edit_state_next, edit_state_ok, effective_apr, fresh_position, ins_idx,
    preview_ok, preview_value, rate_touched, settle_all, settle_ok, settled, stake_next, stake_ok,
    start_unstake_next, start_unstake_ok};
use crate::cw20_stake::helper::{DAYS_PER_YEAR, RATE_DECIMALS, RATE_PERCENT, SECONDS_PER_DAY,
    accrued_reward, calc_ok, per_second_rate};
use vstd::arithmetic::div_mod::lemma_div_pos_is_pos;
use vstd::arithmetic::mul::lemma_mul_nonnegative;
use crate::cw20_stake::state::{StakeEngineV, StakeInfoV, find_idx, has_key, lemma_find_idx,
    lemma_find_idx_at, pos_key, sorted_by_key, sum_rewards};

/// In a sorted record list, everything before the insertion point of key
/// `k` comes before `k`, and nothing at or after it does.
proof fn lemma_ins_idx_props(s: Seq<StakeInfoV>, k: Seq<u8>)
    requires
        sorted_by_key(s),
    ensures
        0 <= ins_idx(s, k) <= s.len(),
        forall|j: int| 0 <= j < ins_idx(s, k) ==> lex_lt(pos_key(s[j]), k),
        forall|j: int| ins_idx(s, k) <= j < s.len() ==> !lex_lt(pos_key(s[j]), k),
    decreases s.len(),
{
    if s.len() > 0 {
        assert(sorted_by_key(s.skip(1))) by {
            assert(forall|x: int| 0 <= x < s.skip(1).len() ==> s.skip(1)[x] == s[x + 1]);
        }
        lemma_ins_idx_props(s.skip(1), k);
        assert(forall|x: int| 0 <= x < s.skip(1).len() ==> s.skip(1)[x] == s[x + 1]);
        if lex_lt(pos_key(s[0]), k) {
            assert forall|j: int| 0 <= j < ins_idx(s, k) implies lex_lt(pos_key(s[j]), k) by {
                if j > 0 {
                    assert(s.skip(1)[j - 1] == s[j]);
                }
            }
            assert forall|j: int| ins_idx(s, k) <= j < s.len() implies !lex_lt(
                pos_key(s[j]), k) by {
                assert(s.skip(1)[j - 1] == s[j]);
            }
        } else {
            assert forall|j: int| 0 <= j < s.len() implies !lex_lt(pos_key(s[j]), k) by {
                if j > 0 && lex_lt(pos_key(s[j]), k) {
                    lemma_lex_transitive(pos_key(s[0]), pos_key(s[j]), k);
                }
            }
        }
    }
}

/// A nonnegative annual rate converts to a nonnegative per-second rate.
proof fn lemma_rate_nonneg(apr: int)
    requires
        apr >= 0,
    ensures
        per_second_rate(apr) >= 0,
{
    let scaled = apr * RATE_DECIMALS * RATE_PERCENT;
    lemma_div_pos_is_pos(scaled, DAYS_PER_YEAR as int);
    lemma_div_pos_is_pos(scaled / (DAYS_PER_YEAR as int), SECONDS_PER_DAY as int);
}

/// The effective annual rate of well-formed parameters is nonnegative.
proof fn lemma_effective_nonneg(st: crate::cw20_stake::state::StateV)
    requires
        st.bdog_ratio >= 1,
    ensures
        effective_apr(st) >= 0,
{
    lemma_div_pos_is_pos(st.gdog_ratio as int, st.bdog_ratio as int);
    lemma_mul_nonnegative(st.gdog_ratio as int / st.bdog_ratio as int, st.apr as int);
}

/// Accrual is never negative once the clock is not ahead of `now`.
proof fn lemma_accrued_nonneg(rate: int, principal: int, start: int, now: int)
    requires
        rate >= 0,
        principal >= 0,
        start <= now,
    ensures
        accrued_reward(rate, principal, start, now) >= 0,
{
    if principal > 0 {
        lemma_mul_nonnegative(now - start, rate);
        lemma_mul_nonnegative((now - start) * rate, principal);
    }
}

/// Sum of every record's live accrual at effective rate `eff` and time
/// `now`.
pub open spec fn sum_accrued(s: Seq<StakeInfoV>, eff: int, now: u128) -> int
    decreases s.len(),
{
    if s.len() == 0 {
        0
    } else {
        accrued_reward(
            per_second_rate(eff), s[0].stake_amount as int, s[0].stake_start_time as int,
            now as int,
        ) + sum_accrued(s.skip(1), eff, now)
    }
}

/// Settling a record list folds exactly the accrued rewards into the banked
/// ones: the reward sum afterwards is the reward sum before plus the sum of
/// every record's accrual at the old rate.
pub proof fn lemma_settle_sum_rewards(s: Seq<StakeInfoV>, old_eff: int, new_eff: int, now: u128)
    requires
        old_eff >= 0,
        settle_ok(s, old_eff, now),
        forall|i: int| 0 <= i < s.len() ==> (#[trigger] s[i]).stake_start_time <= now,
    ensures
        sum_rewards(settle_all(s, old_eff, new_eff, now)) == sum_rewards(s) + sum_accrued(
            s, old_eff, now,
        ),
    decreases s.len(),
{
    if s.len() > 0 {
        let t = settle_all(s, old_eff, new_eff, now);
        assert(t.skip(1) =~= settle_all(s.skip(1), old_eff, new_eff, now));
        assert(settle_ok(s.skip(1), old_eff, now)) by {
            assert(forall|i: int| 0 <= i < s.skip(1).len() ==> s.skip(1)[i] == s[i + 1]);
        }
        lemma_settle_sum_rewards(s.skip(1), old_eff, new_eff, now);
        let a0 = accrued_reward(
            per_second_rate(old_eff), s[0].stake_amount as int, s[0].stake_start_time as int,
            now as int,
        );
        assert(calc_ok(old_eff, s[0], now as int) && s[0].reward_amount + a0 <= u128::MAX);
        assert(a0 >= 0) by {
            lemma_rate_nonneg(old_eff);
            lemma_accrued_nonneg(
                per_second_rate(old_eff), s[0].stake_amount as int, s[0].stake_start_time as int,
                now as int,
            );
        }
        assert(t[0] == settled(s[0], old_eff, new_eff, now));
        assert(t[0].reward_amount == s[0].reward_amount + a0) by {
            if s[0].stake_amount == 0 {
                assert(a0 == 0);
            }
        }
        assert(sum_rewards(t) == t[0].reward_amount + sum_rewards(t.skip(1)));
    }
}

/// A rate change settles every open position before the new rate takes
/// effect: afterwards the reward sum has grown by exactly the sum of every
/// position's accrual at the old rate, and every position with staked
/// principal has both accrual clocks reset to the settlement time and its
/// banked reward grown by its own accrual.
pub proof fn lemma_edit_settles_every_position(
    e: StakeEngineV,
    sender: Seq<char>,
    allowed_operators: Option<Seq<Seq<char>>>,
    token_address: Option<Seq<char>>,
    unstaking_duration: Option<u128>,
    apr: Option<u128>,
    bdog_ratio: Option<u128>,
    gdog_ratio: Option<u128>,
    token_source: Option<Seq<char>>,
    reward_token_address: Option<Seq<char>>,
    now: u128,
)
    requires
        e.well_formed(),
        e.time_ok(now),
        rate_touched(apr, bdog_ratio, gdog_ratio),
        edit_state_ok(
            e, sender, allowed_operators, token_address, unstaking_duration, apr, bdog_ratio,
            gdog_ratio, token_source, reward_token_address, now,
        ),
    ensures
        ({
            let e2 = edit_state_next(
                e, allowed_operators, token_address, unstaking_duration, apr, bdog_ratio,
                gdog_ratio, token_source, reward_token_address, now,
            );
            let old_eff = effective_apr(e.state);
            &&& e2.positions.len() == e.positions.len()
            &&& sum_rewards(e2.positions) == sum_rewards(e.positions) + sum_accrued(
                e.positions, old_eff, now,
            )
            &&& (forall|i: int| 0 <= i < e.positions.len() && (#[trigger] e.positions[i])
                .stake_amount > 0 ==> {
                &&& e2.positions[i].stake_start_time == now
                &&& e2.positions[i].reward_start_time == now
                &&& e2.positions[i].reward_amount == e.positions[i].reward_amount
                    + accrued_reward(
                        per_second_rate(old_eff), e.positions[i].stake_amount as int,
                        e.positions[i].stake_start_time as int, now as int,
                    )
            })
        }),
{
    let e2 = edit_state_next(
        e, allowed_operators, token_address, unstaking_duration, apr, bdog_ratio, gdog_ratio,
        token_source, reward_token_address, now,
    );
    let old_eff = effective_apr(e.state);
    lemma_effective_nonneg(e.state);
    lemma_settle_sum_rewards(
        e.positions, old_eff, effective_apr(e2.state), now,
    );
    let ne = effective_apr(e2.state);
    assert forall|i: int| 0 <= i < e.positions.len() && (#[trigger] e.positions[i])
        .stake_amount > 0 implies {
        &&& e2.positions[i].stake_start_time == now
        &&& e2.positions[i].reward_start_time == now
        &&& e2.positions[i].reward_amount == e.positions[i].reward_amount + accrued_reward(
            per_second_rate(old_eff), e.positions[i].stake_amount as int,
            e.positions[i].stake_start_time as int, now as int,
        )
    } by {
        assert(e2.positions[i] == settled(e.positions[i], old_eff, ne, now));
        assert(calc_ok(old_eff, e.positions[i], now as int) && e.positions[i].reward_amount
            + accrued_reward(
                per_second_rate(old_eff), e.positions[i].stake_amount as int,
                e.positions[i].stake_start_time as int, now as int,
            ) <= u128::MAX);
        lemma_rate_nonneg(old_eff);
        lemma_accrued_nonneg(
            per_second_rate(old_eff), e.positions[i].stake_amount as int,
            e.positions[i].stake_start_time as int, now as int,
        );
    }
}

/// Claiming the reward and previewing immediately after, with no time
/// elapsed, yields zero: the banked reward was just emptied and the accrual
/// clock was just reset. Previews are read-only, so any number of them in
/// between changes nothing.
pub proof fn lemma_claim_then_preview_zero(e: StakeEngineV, sender: Seq<char>, now: u128)
    requires
        e.well_formed(),
        has_key(e.positions, key_of(sender)),
        claim_reward_ok(e, sender, now),
    ensures
        ({
            let e2 = claim_reward_next(e, sender, now);
            let k = key_of(sender);
            &&& has_key(e2.positions, k)
            &&& preview_ok(e2, k, now)
            &&& preview_value(e2, k, now) == 0
        }),
{
    let k = key_of(sender);
    let i = find_idx(e.positions, k);
    let e2 = claim_reward_next(e, sender, now);
    lemma_find_idx(e.positions, k);
    assert forall|j: int| 0 <= j < i implies pos_key(e2.positions[j]) != k by {
        assert(e2.positions[j] == e.positions[j]);
    }
    lemma_find_idx_at(e2.positions, k, i);
    let p2 = e2.positions[i];
    if p2.stake_amount > 0 {
        assert(p2.stake_start_time == now);
        let rate = per_second_rate(effective_apr(e2.state));
        assert((now - p2.stake_start_time as int) * rate * (p2.stake_amount as int) == 0)
            by (nonlinear_arith)
            requires
                p2.stake_start_time == now,
        ;
    }
}

/// A deposit into a fresh position at time `t`, previewed at time `t + s`
/// with no rate change in between, accrues exactly
/// `s * per_second_rate(effective rate) * amount` (scaled). Previews are
/// read-only, so the answer does not depend on how many were made.
pub proof fn lemma_fresh_deposit_preview(
    e: StakeEngineV,
    sender: Seq<char>,
    amount: u128,
    t: u128,
    s: u128,
)
    requires
        e.well_formed(),
        !has_key(e.positions, key_of(sender)),
        amount >= 1,
        stake_ok(e, sender, amount, t),
        t + s <= u128::MAX,
        preview_ok(stake_next(e, sender, amount, t), key_of(sender), (t + s) as u128),
    ensures
        ({
            let e2 = stake_next(e, sender, amount, t);
            let k = key_of(sender);
            &&& has_key(e2.positions, k)
            &&& preview_value(e2, k, (t + s) as u128) == s * per_second_rate(
                effective_apr(e.state),
            ) * amount
        }),
{
    let k = key_of(sender);
    let e2 = stake_next(e, sender, amount, t);
    let ins = ins_idx(e.positions, k);
    let fresh = fresh_position(sender, amount, effective_apr(e.state), t);
    lemma_ins_idx_props(e.positions, k);
    assert(e2.positions == e.positions.insert(ins, fresh));
    assert forall|j: int| 0 <= j < ins implies pos_key(e2.positions[j]) != k by {
        assert(e2.positions[j] == e.positions[j]);
        lemma_lex_asymmetric(pos_key(e.positions[j]), k);
    }
    assert(e2.positions[ins] == fresh);
    lemma_find_idx_at(e2.positions, k, ins);
    let rate = per_second_rate(effective_apr(e.state));
    assert(preview_value(e2, k, (t + s) as u128) == ((t + s) - t) * rate * amount);
    assert(((t + s) - t) * rate * amount == s * rate * amount) by {
        assert(((t + s) - t) == s as int);
    }
}

/// Beginning an unstake of `amount` anchors a cooldown at that moment: a
/// claim before `cooldown_duration` seconds have elapsed is refused for
/// want of the cooldown, and a claim of the same amount at or after that
/// boundary is accepted and empties the unstaking bucket.
pub proof fn lemma_unstake_cooldown(
    e: StakeEngineV,
    sender: Seq<char>,
    amount: u128,
    t: u128,
    t2: u128,
)
    requires
        e.well_formed(),
        has_key(e.positions, key_of(sender)),
        1 <= t <= t2,
        amount >= 1,
        amount <= e.positions[find_idx(e.positions, key_of(sender))].stake_amount,
        e.positions[find_idx(e.positions, key_of(sender))].unstaking_amount == 0,
        start_unstake_ok(e, sender, amount, t),
    ensures
        ({
            let e2 = start_unstake_next(e, sender, amount, t);
            let k = key_of(sender);
            let i = find_idx(e2.positions, k);
            &&& has_key(e2.positions, k)
            &&& e2.positions[i].unstaking_process
            &&& e2.positions[i].unstaking_amount == amount
            &&& (t2 - t < e.state.unstaking_duration ==> !cooldown_elapsed(e2, k, t2))
            &&& (t2 - t >= e.state.unstaking_duration ==> cooldown_elapsed(e2, k, t2)
                && claim_unstaked_next(e2, sender, amount).positions[i].unstaking_amount == 0)
        }),
{
    let k = key_of(sender);
    let i = find_idx(e.positions, k);
    let e2 = start_unstake_next(e, sender, amount, t);
    lemma_find_idx(e.positions, k);
    assert forall|j: int| 0 <= j < i implies pos_key(e2.positions[j]) != k by {
        assert(e2.positions[j] == e.positions[j]);
    }
    lemma_find_idx_at(e2.positions, k, i);
    assert(e2.state == e.state);
    if t2 - t >= e.state.unstaking_duration {
        let e3 = claim_unstaked_next(e2, sender, amount);
        assert(e3.positions[i].unstaking_amount == 0);
    }
}

} // verus!
