use vstd::prelude::*;

verus! {

/// The length of an episode in seconds: two weeks.
pub const EPISODE_LENGTH: u64 = 1209600;

/// The number of episodes in a year of the vesting schedule.
pub const EPISODES_PER_YEAR: u64 = 26;

/// The number of decimals of the issued token.
pub const NUM_DECIMALS: usize = 18;

/// The episode that `now` falls in, counted from 0 at the vesting start.
pub open spec fn episode_index(vesting_start: u64, now: u64) -> int {
    (now - vesting_start) / (EPISODE_LENGTH as int)
}

/// The year of the schedule that episode `e` belongs to, counted from 0.
pub open spec fn year_of(e: int) -> int {
    e / (EPISODES_PER_YEAR as int)
}

/// The amount released in episode `e` (counted from 0) by a schedule of
/// yearly per-episode amounts.
pub open spec fn episode_amount(schedule: Seq<Seq<u8>>, e: int) -> Seq<u8> {
    schedule[year_of(e)]
}

/// The number that a big-endian byte string stands for.
pub open spec fn amount_value(bytes: Seq<u8>) -> nat
    decreases bytes.len(),
{
    if bytes.len() == 0 {
        0
    } else {
        amount_value(bytes.drop_last()) * 256 + bytes.last() as nat
    }
}

/// The sum of the values of the yearly amounts of the first `n` years.
pub open spec fn schedule_sum(schedule: Seq<Seq<u8>>, n: int) -> nat
    decreases n,
{
    if n <= 0 {
        0
    } else {
        schedule_sum(schedule, n - 1) + amount_value(schedule[n - 1])
    }
}

/// The sum of the values released in episodes `0..k`.
pub open spec fn released_sum(schedule: Seq<Seq<u8>>, k: int) -> nat
    decreases k,
{
    if k <= 0 {
        0
    } else {
        released_sum(schedule, k - 1) + amount_value(episode_amount(schedule, k - 1))
    }
}

/// The sum of the values of a sequence of amounts.
pub open spec fn total_value(amounts: Seq<Seq<u8>>) -> nat
    decreases amounts.len(),
{
    if amounts.len() == 0 {
        0
    } else {
        total_value(amounts.drop_last()) + amount_value(amounts.last())
    }
}

/// The sum of the values released in the episodes `m` (counted from 0).
pub open spec fn released_in(schedule: Seq<Seq<u8>>, m: Seq<int>) -> nat
    decreases m.len(),
{
    if m.len() == 0 {
        0
    } else {
        released_in(schedule, m.drop_last()) + amount_value(episode_amount(schedule, m.last()))
    }
}

/// Amounts that are, one by one, those of the episodes `m` sum to what
/// those episodes release.
pub proof fn lemma_total_value_of_episodes(
    schedule: Seq<Seq<u8>>,
    amounts: Seq<Seq<u8>>,
    m: Seq<int>,
)
    requires
        amounts.len() == m.len(),
        forall|i: int| 0 <= i < m.len() ==> amounts[i] == episode_amount(schedule, m[i]),
    ensures
        total_value(amounts) == released_in(schedule, m),
    decreases m.len(),
{
    if m.len() > 0 {
        let a = amounts.drop_last();
        let n = m.drop_last();
        assert forall|i: int| 0 <= i < n.len() implies a[i] == episode_amount(schedule, n[i]) by {
            assert(a[i] == amounts[i] && n[i] == m[i]);
        }
        lemma_total_value_of_episodes(schedule, a, n);
        assert(amounts.last() == amounts[m.len() - 1]);
    }
}

/// Distinct episodes below `k`, in increasing order, release at most what
/// all the episodes below `k` release.
pub proof fn lemma_released_in_at_most(schedule: Seq<Seq<u8>>, m: Seq<int>, k: int)
    requires
        forall|i: int| 0 <= i < m.len() ==> 0 <= #[trigger] m[i] < k,
        forall|i: int, j: int| 0 <= i < j < m.len() ==> m[i] < m[j],
    ensures
        released_in(schedule, m) <= released_sum(schedule, k),
    decreases k,
{
    if k <= 0 {
        if m.len() > 0 {
            assert(0 <= m[0] < k);
        }
    } else if m.len() == 0 {
    } else {
        let n = m.drop_last();
        assert forall|i: int| 0 <= i < n.len() implies 0 <= #[trigger] n[i] < k - 1 by {
            assert(n[i] == m[i]);
            assert(m[i] < m[m.len() - 1]);
        }
        assert forall|i: int, j: int| 0 <= i < j < n.len() implies n[i] < n[j] by {
            assert(n[i] == m[i] && n[j] == m[j]);
        }
        if m.last() == k - 1 {
            lemma_released_in_at_most(schedule, n, k - 1);
        } else {
            assert(m.last() == m[m.len() - 1]);
            assert forall|i: int| 0 <= i < m.len() implies 0 <= #[trigger] m[i] < k - 1 by {
                if i < m.len() - 1 {
                    assert(m[i] < m[m.len() - 1]);
                }
            }
            lemma_released_in_at_most(schedule, m, k - 1);
        }
    }
}

/// The episode that `now` falls in, counted from 0 at `vesting_start`.
pub fn episode_number(vesting_start: u64, now: u64) -> (e: u64)
    requires
        vesting_start <= now,
    ensures
        e == episode_index(vesting_start, now),
        vesting_start + e * 1209600 <= now < vesting_start + (e + 1) * 1209600,
{
    let e = (now - vesting_start) / EPISODE_LENGTH;
    proof {
        lemma_episode_bounds(vesting_start, now);
    }
    e
}

/// The episode of `now` is the one whose two weeks contain `now`.
pub proof fn lemma_episode_bounds(vesting_start: u64, now: u64)
    requires
        vesting_start <= now,
    ensures
        0 <= episode_index(vesting_start, now),
        vesting_start + episode_index(vesting_start, now) * 1209600 <= now,
        now < vesting_start + (episode_index(vesting_start, now) + 1) * 1209600,
{
    let d: int = now - vesting_start;
    vstd::arithmetic::div_mod::lemma_fundamental_div_mod(d, 1209600);
    vstd::arithmetic::div_mod::lemma_div_pos_is_pos(d, 1209600);
    vstd::arithmetic::div_mod::lemma_mod_bound(d, 1209600);
}

/// Releasing the amount of each episode of the first `n` years, once per
/// episode, releases 26 times the yearly amounts of those years.
pub proof fn lemma_released_over_years(schedule: Seq<Seq<u8>>, n: nat)
    ensures
        released_sum(schedule, (n * 26) as int) == 26 * schedule_sum(schedule, n as int),
    decreases n,
{
    if n > 0 {
        let m = (n - 1) as nat;
        lemma_released_over_years(schedule, m);
        lemma_released_within_year(schedule, m, 26);
        assert(m * 26 + 26 == n * 26);
    }
}

/// Within year `y`, the episodes `26 y .. 26 y + j` each release the
/// amount of year `y`.
proof fn lemma_released_within_year(schedule: Seq<Seq<u8>>, y: nat, j: nat)
    requires
        j <= 26,
    ensures
        released_sum(schedule, (y * 26 + j) as int) == released_sum(schedule, (y * 26) as int)
            + j * amount_value(schedule[y as int]),
    decreases j,
{
    let a = amount_value(schedule[y as int]);
    if j > 0 {
        lemma_released_within_year(schedule, y, (j - 1) as nat);
        let e: int = y * 26 + j - 1;
        assert(year_of(e) == y) by (nonlinear_arith)
            requires
                e == y * 26 + j - 1,
                1 <= j <= 26,
        ;
        assert(released_sum(schedule, e + 1) == released_sum(schedule, e) + a);
        assert((j - 1) * a + a == j * a) by (nonlinear_arith);
    } else {
        assert(j * a == 0) by (nonlinear_arith)
            requires
                j == 0,
        ;
    }
}

} // verus!
