use vstd::prelude::*;

use crate::error::MinterError;
use crate::model::{
    Address, Call, CallEnv, MinterState, in_time_order, is_owner, mint_payouts, minted, premint_payouts, run,
    step,
};
use crate::schedule::{
    EPISODE_LENGTH, episode_amount, episode_index, lemma_released_in_at_most,
    lemma_released_over_years, lemma_total_value_of_episodes, released_sum, schedule_sum,
    total_value, year_of,
};

verus! {

/// Every call (at a block time not before the vesting start, as the
/// endpoints require) keeps the storage well formed: the two parity flags
/// are never both set, before the premint nothing is marked minted and the
/// vesting start is 0, and once something is minted the flag of the latest
/// minted episode's parity is the one that is set.
pub proof fn law_calls_keep_wf(s: MinterState, call: Call, env: CallEnv)
    requires
        s.wf(),
        s.preminted ==> s.vesting_start <= env.timestamp,
    ensures
        MinterState::initial().wf(),
        step(s, call, env) matches Some(n) ==> n.wf(),
{
}

/// The premint happens once: after it, a second premint is refused
/// ("Already preminted" when the owner asks), the vesting start and the
/// schedule never change again, and the contract stays preminted.
pub proof fn law_premint_is_final(s: MinterState, call: Call, env: CallEnv)
    requires
        s.preminted,
    ensures
        is_owner(env) ==> s.premint_error(env) == Some(MinterError::AlreadyPreminted),
        is_owner(env) ==> s.push_error(env) == Some(MinterError::VestingAlreadyStarted),
        step(s, call, env) matches Some(n) ==> {
            &&& n.preminted
            &&& n.vesting_start == s.vesting_start
            &&& n.episode_vesting == s.episode_vesting
        },
{
}

/// Locking the router is irreversible: a locked router stays locked, its
/// address never changes again, and the owner's `setRouter` is refused with
/// "Router locked".
pub proof fn law_router_lock_is_final(s: MinterState, call: Call, env: CallEnv)
    requires
        s.router_locked,
    ensures
        is_owner(env) ==> s.set_router_error(env) == Some(MinterError::RouterLocked),
        step(s, call, env) matches Some(n) ==> {
            &&& n.router_locked
            &&& n.router_contract == s.router_contract
        },
{
}

/// The `episode` view names the episode that a mint in the same block
/// releases, counting from 1 where the mint counts from 0.
pub proof fn law_episode_view_counts_from_one(s: MinterState, now: u64)
    ensures
        s.current_episode(now) == s.mint_episode(now) + 1,
{
}

/// Right after a successful mint, a mint in the same episode is refused
/// with "Episode already minted".
pub proof fn law_same_episode_mints_once(s: MinterState, now: u64, later: u64)
    requires
        s.vesting_start <= now,
        s.mint_error(now) is None,
        s.mint_episode(now) == s.mint_episode(later),
    ensures
        s.after_mint(now).mint_error(later) == Some(MinterError::EpisodeAlreadyMinted),
{
}

proof fn lemma_episode_ordered(start: u64, t1: u64, t2: u64)
    requires
        start <= t1 <= t2,
    ensures
        episode_index(start, t1) <= episode_index(start, t2),
{
    vstd::arithmetic::div_mod::lemma_div_is_ordered(
        t1 - start,
        t2 - start,
        EPISODE_LENGTH as int,
    );
}

/// What holds of the storage, the minted episodes and the amounts sent
/// after a run of calls in time order from a storage in which nothing was
/// minted yet.
proof fn lemma_run_in_time_order(s: MinterState, calls: Seq<(Call, CallEnv)>)
    requires
        s.wf(),
        s.last_minted_episode is None,
        in_time_order(s, calls),
    ensures
        ({
            let st = run(s, calls);
            let m = minted(s, calls);
            let paid = mint_payouts(s, calls);
            let pre = premint_payouts(s, calls);
            &&& st.wf()
            &&& calls.len() == 0 ==> st == s
            &&& calls.len() > 0 ==> st.vesting_start <= calls.last().1.timestamp
            &&& s.preminted ==> st.preminted && st.episode_vesting == s.episode_vesting
            &&& m.len() == 0 ==> st.last_minted_episode is None
            &&& m.len() > 0 ==> {
                &&& st.preminted
                &&& st.last_minted_episode == Some(m.last() as u64)
                &&& calls.len() > 0
                &&& m.last() <= episode_index(st.vesting_start, calls.last().1.timestamp)
            }
            &&& forall|i: int| 0 <= i < m.len() ==> 0 <= #[trigger] m[i] <= u64::MAX
            &&& forall|i: int|
                0 <= i < m.len() ==> year_of(#[trigger] m[i]) < st.episode_vesting.len()
            &&& forall|i: int, j: int| 0 <= i < j < m.len() ==> m[i] < m[j]
            &&& paid.len() == m.len()
            &&& forall|i: int|
                0 <= i < m.len() ==> #[trigger] paid[i] == episode_amount(st.episode_vesting, m[i])
            &&& pre.len() == (if st.preminted && !s.preminted {
                1int
            } else {
                0int
            })
        }),
    decreases calls.len(),
{
    if calls.len() > 0 {
        let prefix = calls.drop_last();
        assert(in_time_order(s, prefix)) by {
            assert forall|i: int| 0 <= i < prefix.len() implies s.vesting_start
                <= #[trigger] prefix[i].1.timestamp by {
                assert(prefix[i] == calls[i]);
            }
            assert forall|i: int, j: int|
                0 <= i < j < prefix.len() implies #[trigger] prefix[i].1.timestamp
                <= #[trigger] prefix[j].1.timestamp by {
                assert(prefix[i] == calls[i]);
                assert(prefix[j] == calls[j]);
            }
        }
        lemma_run_in_time_order(s, prefix);
        let p = run(s, prefix);
        let mp = minted(s, prefix);
        let paidp = mint_payouts(s, prefix);
        let (call, env) = calls.last();
        let t = env.timestamp;
        assert(calls[calls.len() - 1] == calls.last());
        assert(s.vesting_start <= t);
        if prefix.len() > 0 {
            assert(prefix.last() == calls[calls.len() - 2]);
            assert(prefix.last().1.timestamp <= t);
        }
        assert(p.vesting_start <= t);
        if mp.len() > 0 {
            lemma_episode_ordered(p.vesting_start, prefix.last().1.timestamp, t);
        }
        let st = run(s, calls);
        let m = minted(s, calls);
        let paid = mint_payouts(s, calls);
        if call is Mint && step(p, call, env) is Some {
            let e = p.mint_episode(t);
            assert(0 <= e <= t) by {
                vstd::arithmetic::div_mod::lemma_div_is_ordered(0, t - p.vesting_start, EPISODE_LENGTH as int);
                assert((t - p.vesting_start) / (EPISODE_LENGTH as int) <= t - p.vesting_start) by {
                    vstd::arithmetic::div_mod::lemma_div_is_ordered_by_denominator(
                        t - p.vesting_start,
                        1,
                        EPISODE_LENGTH as int,
                    );
                }
            }
            assert(m == mp.push(e));
            assert(paid == paidp.push(p.mint_amount(t)));
            assert(st == p.after_mint(t));
            if mp.len() > 0 {
                assert(mp.last() == mp[mp.len() - 1]);
                assert(mp.last() < e);
                assert forall|i: int, j: int| 0 <= i < j < m.len() implies m[i] < m[j] by {
                    if j == m.len() - 1 {
                        if i < mp.len() - 1 {
                            assert(mp[i] < mp[mp.len() - 1]);
                        }
                    } else {
                        assert(m[i] == mp[i] && m[j] == mp[j]);
                    }
                }
            }
            assert forall|i: int| 0 <= i < m.len() implies 0 <= #[trigger] m[i] <= u64::MAX
                && year_of(m[i]) < st.episode_vesting.len()
                && paid[i] == episode_amount(st.episode_vesting, m[i]) by {
                if i < mp.len() {
                    assert(m[i] == mp[i] && paid[i] == paidp[i]);
                }
            }
            assert(m.last() == e);
        } else {
            assert(m == mp);
            assert(paid == paidp);
            if mp.len() > 0 {
                assert(st.episode_vesting == p.episode_vesting);
            }
        }
    }
}

/// Each episode is minted at most once: in a run of calls at non-decreasing
/// timestamps (none before the vesting start), starting from a storage in
/// which nothing was minted yet (as after deployment or premint), the
/// episodes released by the successful mints strictly increase.
pub proof fn law_no_episode_minted_twice(s: MinterState, calls: Seq<(Call, CallEnv)>)
    requires
        s.wf(),
        s.last_minted_episode is None,
        in_time_order(s, calls),
    ensures
        forall|i: int, j: int|
            0 <= i < j < minted(s, calls).len() ==> minted(s, calls)[i] < minted(s, calls)[j],
{
    lemma_run_in_time_order(s, calls);
}

/// The total supply is bounded by the schedule: in a run of calls at
/// non-decreasing timestamps (none before the vesting start), starting from
/// a storage in which nothing was minted yet, at most one premint succeeds
/// (none if the contract was already preminted), and the amounts sent by
/// all successful mints sum to at most 26 times the sum of the yearly
/// amounts of the schedule. So everything minted is at most the premint's
/// amount plus 26 times the sum of the yearly amounts.
pub proof fn law_total_minted_bounded(s: MinterState, calls: Seq<(Call, CallEnv)>)
    requires
        s.wf(),
        s.last_minted_episode is None,
        in_time_order(s, calls),
    ensures
        ({
            let schedule = run(s, calls).episode_vesting;
            let premints = premint_payouts(s, calls);
            &&& premints.len() <= 1
            &&& s.preminted ==> premints.len() == 0
            &&& total_value(mint_payouts(s, calls)) <= 26 * schedule_sum(
                schedule,
                schedule.len() as int,
            )
            &&& total_value(premints) + total_value(mint_payouts(s, calls)) <= total_value(premints)
                + 26 * schedule_sum(schedule, schedule.len() as int)
        }),
{
    lemma_run_in_time_order(s, calls);
    let st = run(s, calls);
    let schedule = st.episode_vesting;
    let n = schedule.len();
    let m = minted(s, calls);
    lemma_total_value_of_episodes(schedule, mint_payouts(s, calls), m);
    assert forall|i: int| 0 <= i < m.len() implies 0 <= #[trigger] m[i] < 26 * n by {
        assert(year_of(m[i]) < n);
    }
    lemma_released_in_at_most(schedule, m, (26 * n) as int);
    lemma_released_over_years(schedule, n);
    assert(n * 26 == 26 * n);
}

/// The timestamp at which episode `k` (counted from 0) begins.
pub open spec fn episode_time(s: MinterState, k: int) -> u64 {
    (s.vesting_start + k * EPISODE_LENGTH) as u64
}

/// The storage after minting, in order, at the beginning of each of the
/// episodes `0..k`.
pub open spec fn mint_each_episode(s: MinterState, k: nat) -> MinterState
    decreases k,
{
    if k == 0 {
        s
    } else {
        let prev = mint_each_episode(s, (k - 1) as nat);
        prev.after_mint(episode_time(s, k - 1))
    }
}

proof fn lemma_episode_time(s: MinterState, k: int)
    requires
        0 <= k,
        s.vesting_start + k * EPISODE_LENGTH <= u64::MAX,
    ensures
        episode_time(s, k) == s.vesting_start + k * EPISODE_LENGTH,
        episode_index(s.vesting_start, episode_time(s, k)) == k,
{
    assert(0 <= k * EPISODE_LENGTH) by (nonlinear_arith)
        requires
            0 <= k,
    ;
    assert((k * EPISODE_LENGTH) / (EPISODE_LENGTH as int) == k) by (nonlinear_arith);
}

proof fn lemma_mint_each_episode(s: MinterState, k: nat)
    requires
        s.vesting_start + k * EPISODE_LENGTH <= u64::MAX,
    ensures
        ({
            let st = mint_each_episode(s, k);
            &&& st.preminted == s.preminted
            &&& st.vesting_start == s.vesting_start
            &&& st.episode_vesting == s.episode_vesting
            &&& st.router_contract == s.router_contract
            &&& st.router_locked == s.router_locked
            &&& k == 0 ==> st.even_episode_minted == s.even_episode_minted
                && st.odd_episode_minted == s.odd_episode_minted
            &&& k == 0 ==> st.last_minted_episode == s.last_minted_episode
            &&& k > 0 ==> st.even_episode_minted == ((k - 1) % 2 == 0)
                && st.odd_episode_minted == ((k - 1) % 2 == 1)
                && st.last_minted_episode == Some((k - 1) as u64)
        }),
    decreases k,
{
    if k > 0 {
        assert((k - 1) * EPISODE_LENGTH <= k * EPISODE_LENGTH) by (nonlinear_arith)
            requires
                k > 0,
        ;
        lemma_mint_each_episode(s, (k - 1) as nat);
        lemma_episode_time(s, k - 1);
    }
}

/// The whole schedule is released, and nothing more: starting right after
/// the premint with a router set, a mint at the beginning of each episode
/// succeeds for the 26 episodes of each year of the schedule, releasing that
/// year's amount each time, so that 26 times the sum of the yearly amounts
/// is released in all; the next mint is refused with "Max supply reached".
pub proof fn law_full_schedule(s: MinterState)
    requires
        s.preminted,
        s.last_minted_episode is None,
        s.router_contract is Some,
        s.vesting_start + 26 * s.episode_vesting.len() * EPISODE_LENGTH <= u64::MAX,
    ensures
        forall|k: nat|
            k < 26 * s.episode_vesting.len() ==> {
                let st = #[trigger] mint_each_episode(s, k);
                &&& st.mint_error(episode_time(s, k as int)) is None
                &&& st.mint_amount(episode_time(s, k as int)) == episode_amount(
                    s.episode_vesting,
                    k as int,
                )
            },
        mint_each_episode(s, 26 * s.episode_vesting.len()).mint_error(
            episode_time(s, (26 * s.episode_vesting.len()) as int),
        ) == Some(MinterError::MaxSupplyReached),
        released_sum(s.episode_vesting, (26 * s.episode_vesting.len()) as int)
            == 26 * schedule_sum(s.episode_vesting, s.episode_vesting.len() as int),
{
    let n = s.episode_vesting.len();
    assert forall|k: nat| k < 26 * n implies {
        let st = #[trigger] mint_each_episode(s, k);
        &&& st.mint_error(episode_time(s, k as int)) is None
        &&& st.mint_amount(episode_time(s, k as int)) == episode_amount(s.episode_vesting, k as int)
    } by {
        assert(k * EPISODE_LENGTH <= 26 * n * EPISODE_LENGTH) by (nonlinear_arith)
            requires
                k < 26 * n,
        ;
        lemma_mint_each_episode(s, k);
        lemma_episode_time(s, k as int);
        assert(year_of(k as int) < n);
    }
    assert(26 * n * EPISODE_LENGTH == (26 * n) * EPISODE_LENGTH) by (nonlinear_arith);
    lemma_mint_each_episode(s, 26 * n);
    lemma_episode_time(s, (26 * n) as int);
    assert(year_of((26 * n) as int) == n);
    lemma_released_over_years(s.episode_vesting, n);
    assert(n * 26 == 26 * n);
}

/// A mint or the `episode` view at block time `t` counts whole two-week
/// periods since the vesting start: when `t` lies in the `k`-th such period
/// (counted from 0), the mint releases episode `k` and the view reads `k + 1`.
pub proof fn law_episode_is_elapsed_fortnights(s: MinterState, t: u64, k: int)
    requires
        0 <= k,
        s.vesting_start + k * 1209600 <= t,
        t < s.vesting_start + (k + 1) * 1209600,
    ensures
        s.mint_episode(t) == k,
        s.current_episode(t) == k + 1,
{
    crate::schedule::lemma_episode_bounds(s.vesting_start, t);
}

/// A mint at block time `t` in the `k`-th two-week period after the vesting
/// start, where `k` falls in year `y` of the schedule, is allowed when the
/// contract is preminted, a router is set and episode `k` is not the one
/// minted last; it sends the amount of year `y`, records `k` as the latest
/// minted episode and sets the flag of `k`'s parity. Past the schedule's
/// last year the mint is refused with "Max supply reached".
pub proof fn law_mint_pays_the_year_of_the_elapsed_time(
    s: MinterState,
    env: CallEnv,
    k: int,
    y: int,
)
    requires
        s.preminted,
        s.router_contract is Some,
        0 <= k,
        s.vesting_start + k * 1209600 <= env.timestamp,
        env.timestamp < s.vesting_start + (k + 1) * 1209600,
        26 * y <= k < 26 * y + 26,
    ensures
        y >= s.episode_vesting.len() ==> s.mint_error(env.timestamp) == Some(
            MinterError::MaxSupplyReached,
        ),
        y < s.episode_vesting.len() && s.last_minted_episode == Some(k as u64) ==> step(
            s,
            Call::Mint,
            env,
        ) is None,
        y < s.episode_vesting.len() && s.last_minted_episode != Some(k as u64) ==> {
            &&& mint_payouts(s, seq![(Call::Mint, env)]) == seq![s.episode_vesting[y]]
            &&& step(s, Call::Mint, env) == Some(
                MinterState {
                    even_episode_minted: k % 2 == 0,
                    odd_episode_minted: k % 2 == 1,
                    last_minted_episode: Some(k as u64),
                    ..s
                },
            )
        },
{
    crate::schedule::lemma_episode_bounds(s.vesting_start, env.timestamp);
    assert(year_of(k) == y);
    assert(s.mint_episode(env.timestamp) == k);
    assert(k <= u64::MAX) by (nonlinear_arith)
        requires
            0 <= k,
            k * 1209600 <= env.timestamp,
    ;
    assert((k as u64) as int == k);
    let calls = seq![(Call::Mint, env)];
    assert(calls.drop_last() =~= Seq::<(Call, CallEnv)>::empty());
    assert(calls.last() == (Call::Mint, env));
    assert(run(s, calls.drop_last()) == s);
    assert(mint_payouts(s, calls.drop_last()) == Seq::<Seq<u8>>::empty());
}

/// `episodeVestingPush` by the owner before the premint always succeeds and
/// appends its amount as a new last year: the schedule grows by exactly one
/// entry, the earlier years stay as they were, and nothing else changes.
pub proof fn law_push_appends_a_year(s: MinterState, amount: Seq<u8>, env: CallEnv)
    requires
        is_owner(env),
        !s.preminted,
    ensures
        step(s, Call::EpisodeVestingPush { amount }, env) matches Some(n) && {
            &&& n.episode_vesting.len() == s.episode_vesting.len() + 1
            &&& n.episode_vesting[s.episode_vesting.len() as int] == amount
            &&& forall|i: int|
                0 <= i < s.episode_vesting.len() ==> n.episode_vesting[i] == s.episode_vesting[i]
            &&& n == MinterState { episode_vesting: n.episode_vesting, ..s }
        },
{
}

/// `setRouter` by the owner while the router is not locked always succeeds,
/// whatever else the storage holds (before or after the premint), stores
/// the given router and changes nothing else.
pub proof fn law_set_router_when_unlocked(s: MinterState, router: Address, env: CallEnv)
    requires
        is_owner(env),
        !s.router_locked,
    ensures
        step(s, Call::SetRouter { router }, env) == Some(
            MinterState { router_contract: Some(router), ..s },
        ),
{
}

/// `lockRouter` by the owner always succeeds, in every storage, leaves the
/// router locked and changes nothing else.
pub proof fn law_lock_router_always_succeeds(s: MinterState, env: CallEnv)
    requires
        is_owner(env),
    ensures
        step(s, Call::LockRouter, env) == Some(MinterState { router_locked: true, ..s }),
{
}

/// The owner's first `premint` always succeeds, whatever the router's state
/// or the schedule: it sends `amount` to `to` once, marks the contract
/// preminted, starts the vesting at the block time and changes nothing else.
pub proof fn law_first_premint_succeeds(s: MinterState, amount: Seq<u8>, to: Address, env: CallEnv)
    requires
        is_owner(env),
        !s.preminted,
    ensures
        step(s, Call::Premint { amount, to }, env) == Some(
            MinterState { preminted: true, vesting_start: env.timestamp, ..s },
        ),
        premint_payouts(s, seq![(Call::Premint { amount, to }, env)]) == seq![amount],
{
    let calls = seq![(Call::Premint { amount, to }, env)];
    assert(calls.drop_last() =~= Seq::<(Call, CallEnv)>::empty());
    assert(calls.last() == (Call::Premint { amount, to }, env));
    assert(run(s, calls.drop_last()) == s);
    assert(premint_payouts(s, calls.drop_last()) == Seq::<Seq<u8>>::empty());
}

} // verus!
