//! Which sessions two price series share. Returns are keyed by the session's
//! calendar day (Yahoo stamps a candle with the session open, and venues open
//! at different hours, so raw timestamps would never match across markets);
//! two series are compared only on the days both traded, and a lag shifts by
//! one shared session, never by one array index. Gaps are dropped, never
//! forward-filled: a carried-over price would invent a 0% return.
//!
//! The arithmetic on prices (returns, the correlation coefficient) is the
//! application's; every decision about which observations enter it is here.

use vstd::prelude::*;
use crate::ai_engine::gemini_client::{local_date, spec_local_date};
use crate::market_engine::{
    ascending_by_time, at_time, law_sorted_by_time_is_stable,
    law_sorted_by_time_orders_and_keeps_candles, sort_by_time, sorted_by_time,
    MIN_CLOSES_FOR_INDICATORS,
};

verus! {

/// Lag between leader and follower for the equity pairs, in shared sessions.
pub const DEFAULT_LAG: usize = 1;

/// Julian day number of the UTC calendar day `timestamp` falls on.
pub open spec fn spec_session_day(timestamp: i64) -> Option<i64> {
    match spec_local_date(timestamp, 0i8) {
        Some((_, _, _, julian)) => Some(julian as i64),
        None => None,
    }
}

/// The session day of a candle, or `None` for a timestamp outside the
/// calendar's range.
pub fn session_day(timestamp: i64) -> (r: Option<i64>)
    ensures
        r == spec_session_day(timestamp),
{
    match local_date(timestamp, 0) {
        Some((_, _, _, julian)) => Some(julian as i64),
        None => None,
    }
}

/// Observations keyed by day, with the days whose timestamp cannot be placed
/// on the calendar left out.
pub open spec fn keyed_by_day<T>(points: Seq<(i64, Option<T>)>) -> Seq<(i64, T)>
    decreases points.len(),
{
    if points.len() == 0 {
        Seq::empty()
    } else {
        let rest = keyed_by_day(points.drop_last());
        let p = points.last();
        match (spec_session_day(p.0), p.1) {
            (Some(day), Some(v)) => rest.push((day, v)),
            _ => rest,
        }
    }
}

/// One observation per day; on a repeated day the later occurrence wins.
/// Meant for a sequence already in day order.
pub open spec fn later_wins<T>(s: Seq<(i64, T)>) -> Seq<(i64, T)>
    decreases s.len(),
{
    if s.len() == 0 {
        s
    } else {
        let rest = later_wins(s.drop_last());
        if rest.len() > 0 && rest.last().0 == s.last().0 {
            rest.update(rest.len() - 1, s.last())
        } else {
            rest.push(s.last())
        }
    }
}

/// The dated series of a price history: `points` holds, for each candle after
/// the first, its timestamp and the return since the previous candle (`None`
/// when that return has no meaning, e.g. after a zero close). Dropping one
/// observation cannot shift the rest, because everything later joins on days.
pub open spec fn dated_series<T>(points: Seq<(i64, Option<T>)>) -> Seq<(i64, T)> {
    later_wins(sort_by_time(keyed_by_day(points)))
}

pub fn dated_returns<T: Copy>(points: &[(i64, Option<T>)]) -> (r: Vec<(i64, T)>)
    ensures
        r@ == dated_series(points@),
{
    let mut keyed: Vec<(i64, T)> = Vec::new();
    let n = points.len();
    let mut k: usize = 0;
    while k < n
        invariant
            n == points@.len(),
            k <= n,
            keyed@ == keyed_by_day(points@.take(k as int)),
        decreases n - k,
    {
        proof {
            assert(points@.take(k + 1).drop_last() =~= points@.take(k as int));
            assert(points@.take(k + 1).last() == points@[k as int]);
        }
        let (timestamp, value) = points[k];
        match (session_day(timestamp), value) {
            (Some(day), Some(v)) => {
                keyed.push((day, v));
            },
            _ => {},
        }
        k = k + 1;
    }
    assert(points@.take(n as int) =~= points@);
    let sorted = sorted_by_time(keyed);
    let ghost s = sorted@;
    let mut out: Vec<(i64, T)> = Vec::new();
    let m = sorted.len();
    let mut j: usize = 0;
    while j < m
        invariant
            m == s.len(),
            s == sorted@,
            j <= m,
            out@ == later_wins(s.take(j as int)),
        decreases m - j,
    {
        proof {
            assert(s.take(j + 1).drop_last() =~= s.take(j as int));
            assert(s.take(j + 1).last() == s[j as int]);
        }
        let item = sorted[j];
        let l = out.len();
        if l > 0 && out[l - 1].0 == item.0 {
            out.set(l - 1, item);
        } else {
            out.push(item);
        }
        j = j + 1;
    }
    assert(s.take(m as int) =~= s);
    out
}

/// The value `b` holds for `day`: its last occurrence, as when the series is
/// collected into a map.
pub open spec fn value_on<T>(b: Seq<(i64, T)>, day: i64) -> Option<T>
    decreases b.len(),
{
    if b.len() == 0 {
        None
    } else if b.last().0 == day {
        Some(b.last().1)
    } else {
        value_on(b.drop_last(), day)
    }
}

/// The observations of `a` whose day `b` also has, paired with `b`'s value,
/// in the order of `a`.
pub open spec fn matched<T>(a: Seq<(i64, T)>, b: Seq<(i64, T)>) -> Seq<(i64, (T, T))>
    decreases a.len(),
{
    if a.len() == 0 {
        Seq::empty()
    } else {
        let rest = matched(a.drop_last(), b);
        match value_on(b, a.last().0) {
            Some(vb) => rest.push((a.last().0, (a.last().1, vb))),
            None => rest,
        }
    }
}

/// The shared days in ascending order, as pairs of values.
pub open spec fn joined<T>(a: Seq<(i64, T)>, b: Seq<(i64, T)>) -> Seq<(i64, (T, T))> {
    sort_by_time(matched(a, b))
}

pub open spec fn firsts<T>(s: Seq<(i64, (T, T))>) -> Seq<T> {
    s.map_values(|e: (i64, (T, T))| e.1.0)
}

pub open spec fn seconds<T>(s: Seq<(i64, (T, T))>) -> Seq<T> {
    s.map_values(|e: (i64, (T, T))| e.1.1)
}

fn value_on_exec<T: Copy>(b: &[(i64, T)], day: i64) -> (r: Option<T>)
    ensures
        r == value_on(b@, day),
{
    let mut k: usize = b.len();
    assert(b@.take(k as int) =~= b@);
    while k > 0
        invariant
            k <= b@.len(),
            value_on(b@, day) == value_on(b@.take(k as int), day),
        decreases k,
    {
        proof {
            assert(b@.take(k as int).drop_last() =~= b@.take(k - 1));
            assert(b@.take(k as int).last() == b@[k - 1]);
        }
        if b[k - 1].0 == day {
            return Some(b[k - 1].1);
        }
        k = k - 1;
    }
    None
}

/// Values of the days both series have, in ascending day order: first the
/// values of `a`, then those of `b`.
pub fn join_on_date<T: Copy>(a: &[(i64, T)], b: &[(i64, T)]) -> (r: (Vec<T>, Vec<T>))
    ensures
        r.0@ == firsts(joined(a@, b@)),
        r.1@ == seconds(joined(a@, b@)),
{
    let mut pairs: Vec<(i64, (T, T))> = Vec::new();
    let n = a.len();
    let mut k: usize = 0;
    while k < n
        invariant
            n == a@.len(),
            k <= n,
            pairs@ == matched(a@.take(k as int), b@),
        decreases n - k,
    {
        proof {
            assert(a@.take(k + 1).drop_last() =~= a@.take(k as int));
            assert(a@.take(k + 1).last() == a@[k as int]);
        }
        let (day, va) = a[k];
        match value_on_exec(b, day) {
            Some(vb) => {
                pairs.push((day, (va, vb)));
            },
            None => {},
        }
        k = k + 1;
    }
    assert(a@.take(n as int) =~= a@);
    let sorted = sorted_by_time(pairs);
    let mut xs: Vec<T> = Vec::new();
    let mut ys: Vec<T> = Vec::new();
    let m = sorted.len();
    let mut j: usize = 0;
    while j < m
        invariant
            m == sorted@.len(),
            sorted@ == joined(a@, b@),
            j <= m,
            xs@ == firsts(sorted@.take(j as int)),
            ys@ == seconds(sorted@.take(j as int)),
        decreases m - j,
    {
        proof {
            assert(firsts(sorted@.take(j + 1)) =~= firsts(sorted@.take(j as int)).push(sorted@[j as int].1.0));
            assert(seconds(sorted@.take(j + 1)) =~= seconds(sorted@.take(j as int)).push(sorted@[j as int].1.1));
        }
        let (_, (x, y)) = sorted[j];
        xs.push(x);
        ys.push(y);
        j = j + 1;
    }
    assert(sorted@.take(m as int) =~= sorted@);
    (xs, ys)
}

/// How many observations of `a` fall on a day `b` also has.
pub open spec fn overlap_count<T>(a: Seq<(i64, T)>, b: Seq<(i64, T)>) -> nat
    decreases a.len(),
{
    if a.len() == 0 {
        0
    } else {
        overlap_count(a.drop_last(), b) + if value_on(b, a.last().0) is Some {
            1nat
        } else {
            0nat
        }
    }
}

pub fn overlapping_observations<T: Copy>(a: &[(i64, T)], b: &[(i64, T)]) -> (r: usize)
    ensures
        r == overlap_count(a@, b@),
{
    let n = a.len();
    let mut count: usize = 0;
    let mut k: usize = 0;
    while k < n
        invariant
            n == a@.len(),
            k <= n,
            count == overlap_count(a@.take(k as int), b@),
            count <= k,
        decreases n - k,
    {
        proof {
            assert(a@.take(k + 1).drop_last() =~= a@.take(k as int));
            assert(a@.take(k + 1).last() == a@[k as int]);
        }
        if value_on_exec(b, a[k].0).is_some() {
            count = count + 1;
        }
        k = k + 1;
    }
    assert(a@.take(n as int) =~= a@);
    count
}

/// The two value sequences a lagged correlation is computed on, or `None`
/// when it is not measured: too few shared sessions once the lag has taken
/// its share (the same threshold as the indicators, so a report cannot claim
/// too little data for RSI and still print a correlation).
pub open spec fn spec_lagged_pairs<T>(leader: Seq<(i64, T)>, follower: Seq<(i64, T)>, lag: usize) -> Option<(Seq<T>, Seq<T>)> {
    let j = joined(leader, follower);
    if j.len() <= lag || j.len() - lag < MIN_CLOSES_FOR_INDICATORS {
        None
    } else {
        Some((firsts(j).take(j.len() - lag), seconds(j).skip(lag as int)))
    }
}

pub fn lagged_pairs<T: Copy>(leader: &[(i64, T)], follower: &[(i64, T)], lag: usize) -> (r: Option<(Vec<T>, Vec<T>)>)
    ensures
        match (r, spec_lagged_pairs(leader@, follower@, lag)) {
            (Some((x, y)), Some((sx, sy))) => x@ == sx && y@ == sy,
            (None, None) => true,
            _ => false,
        },
{
    let (xs, ys) = join_on_date(leader, follower);
    let ghost j = joined(leader@, follower@);
    assert(xs@.len() == j.len());
    if xs.len() <= lag {
        return None;
    }
    let paired = xs.len() - lag;
    if paired < MIN_CLOSES_FOR_INDICATORS {
        return None;
    }
    let mut x: Vec<T> = Vec::new();
    let mut y: Vec<T> = Vec::new();
    let mut i: usize = 0;
    while i < paired
        invariant
            paired + lag == xs@.len(),
            xs@.len() == ys@.len(),
            xs@.len() == xs.len(),
            i <= paired,
            x@ == xs@.take(i as int),
            y@ == ys@.subrange(lag as int, lag + i),
        decreases paired - i,
    {
        assert(xs@.take(i + 1) =~= xs@.take(i as int).push(xs@[i as int]));
        assert(ys@.subrange(lag as int, lag + i + 1) =~= ys@.subrange(lag as int, lag + i).push(ys@[lag + i]));
        x.push(xs[i]);
        y.push(ys[lag + i]);
        i = i + 1;
    }
    assert(ys@.subrange(lag as int, lag + paired) =~= ys@.skip(lag as int));
    Some((x, y))
}

proof fn lemma_matched_len<T>(a: Seq<(i64, T)>, b: Seq<(i64, T)>)
    ensures
        matched(a, b).len() == overlap_count(a, b),
    decreases a.len(),
{
    if a.len() > 0 {
        lemma_matched_len(a.drop_last(), b);
    }
}

proof fn lemma_matched_shared<T>(a: Seq<(i64, T)>, b: Seq<(i64, T)>)
    ensures
        forall|i: int|
            0 <= i < matched(a, b).len() ==> {
                let e = #[trigger] matched(a, b)[i];
                &&& a.contains((e.0, e.1.0))
                &&& value_on(b, e.0) == Some(e.1.1)
            },
    decreases a.len(),
{
    if a.len() > 0 {
        let d = a.drop_last();
        lemma_matched_shared(d, b);
        let rest = matched(d, b);
        assert forall|i: int| 0 <= i < matched(a, b).len() implies {
            let e = #[trigger] matched(a, b)[i];
            &&& a.contains((e.0, e.1.0))
            &&& value_on(b, e.0) == Some(e.1.1)
        } by {
            let e = matched(a, b)[i];
            if i < rest.len() {
                assert(e == rest[i]);
                let w = choose|w: int| 0 <= w < d.len() && d[w] == (e.0, e.1.0);
                assert(a[w] == d[w]);
            } else {
                assert(a[a.len() - 1] == (e.0, e.1.0));
            }
        }
    }
}

/// The number of shared sessions a report states is exactly the number of
/// observation pairs the correlation is computed from, before the lag.
pub proof fn law_overlap_counts_the_joined_sessions<T>(a: Seq<(i64, T)>, b: Seq<(i64, T)>)
    ensures
        joined(a, b).len() == overlap_count(a, b),
{
    broadcast use vstd::seq_lib::group_to_multiset_ensures;

    lemma_matched_len(a, b);
    law_sorted_by_time_orders_and_keeps_candles(matched(a, b));
    assert(joined(a, b).to_multiset().len() == matched(a, b).to_multiset().len());
}

/// Only the days both calendars share enter a comparison, in ascending day
/// order: every joined observation pairs a value `a` has on that day with the
/// value `b` has on the same day. No gap is filled.
pub proof fn law_join_uses_only_shared_days<T>(a: Seq<(i64, T)>, b: Seq<(i64, T)>)
    ensures
        ascending_by_time(joined(a, b)),
        forall|i: int|
            0 <= i < joined(a, b).len() ==> {
                let e = #[trigger] joined(a, b)[i];
                &&& a.contains((e.0, e.1.0))
                &&& value_on(b, e.0) == Some(e.1.1)
            },
{
    broadcast use vstd::seq_lib::group_to_multiset_ensures;

    let m = matched(a, b);
    law_sorted_by_time_orders_and_keeps_candles(m);
    lemma_matched_shared(a, b);
    assert forall|i: int| 0 <= i < joined(a, b).len() implies {
        let e = #[trigger] joined(a, b)[i];
        &&& a.contains((e.0, e.1.0))
        &&& value_on(b, e.0) == Some(e.1.1)
    } by {
        let e = joined(a, b)[i];
        assert(joined(a, b).contains(e));
        assert(joined(a, b).to_multiset().count(e) > 0);
        assert(m.to_multiset().count(e) > 0);
        assert(m.contains(e));
        let w = choose|w: int| 0 <= w < m.len() && m[w] == e;
        assert(m[w] == e);
    }
}

/// A lagged correlation is measured exactly when the shared sessions, less
/// the lag, reach the indicators' threshold; the lag then takes its share from
/// each side, so both sides have the same length.
pub proof fn law_lag_consumes_shared_sessions<T>(leader: Seq<(i64, T)>, follower: Seq<(i64, T)>, lag: usize)
    ensures
        spec_lagged_pairs(leader, follower, lag) is Some <==> overlap_count(leader, follower)
            >= lag + MIN_CLOSES_FOR_INDICATORS,
        spec_lagged_pairs(leader, follower, lag) matches Some((x, y)) ==> x.len() == y.len() == overlap_count(
            leader,
            follower,
        ) - lag,
{
    law_overlap_counts_the_joined_sessions(leader, follower);
}

proof fn lemma_later_wins_strict<T>(s: Seq<(i64, T)>)
    requires
        ascending_by_time(s),
    ensures
        forall|i: int, j: int| 0 <= i < j < later_wins(s).len() ==> #[trigger] later_wins(s)[i].0 < #[trigger] later_wins(s)[j].0,
        s.len() > 0 ==> later_wins(s).len() > 0 && later_wins(s).last().0 == s.last().0,
        s.len() == 0 ==> later_wins(s).len() == 0,
    decreases s.len(),
{
    if s.len() > 0 {
        let d = s.drop_last();
        assert(ascending_by_time(d)) by {
            assert forall|i: int, j: int| 0 <= i <= j < d.len() implies #[trigger] d[i].0 <= #[trigger] d[j].0 by {
                assert(d[i] == s[i] && d[j] == s[j]);
            }
        }
        lemma_later_wins_strict(d);
        let rest = later_wins(d);
        if d.len() > 0 {
            assert(d.last().0 <= s.last().0) by {
                assert(d.last() == s[s.len() - 2]);
            }
        }
        let r = later_wins(s);
        if rest.len() > 0 && rest.last().0 == s.last().0 {
            assert forall|i: int, j: int| 0 <= i < j < r.len() implies #[trigger] r[i].0 < #[trigger] r[j].0 by {
                if j == r.len() - 1 {
                    assert(rest[i].0 < rest[j].0);
                } else {
                    assert(r[i] == rest[i] && r[j] == rest[j]);
                }
            }
        } else {
            assert forall|i: int, j: int| 0 <= i < j < r.len() implies #[trigger] r[i].0 < #[trigger] r[j].0 by {
                if j == r.len() - 1 {
                    if i < rest.len() - 1 {
                        assert(rest[i].0 < rest[rest.len() - 1].0);
                    }
                    assert(r[i] == rest[i]);
                } else {
                    assert(r[i] == rest[i] && r[j] == rest[j]);
                }
            }
        }
    }
}

/// A dated series holds at most one observation per day, in strictly
/// ascending day order.
pub proof fn law_one_observation_per_day<T>(points: Seq<(i64, Option<T>)>)
    ensures
        forall|i: int, j: int|
            0 <= i < j < dated_series(points).len() ==> #[trigger] dated_series(points)[i].0
                < #[trigger] dated_series(points)[j].0,
{
    let keyed = keyed_by_day(points);
    law_sorted_by_time_orders_and_keeps_candles(keyed);
    lemma_later_wins_strict(sort_by_time(keyed));
}

proof fn lemma_later_wins_keeps_last<T>(s: Seq<(i64, T)>)
    requires
        ascending_by_time(s),
    ensures
        forall|i: int|
            0 <= i < later_wins(s).len() ==> at_time(s, (#[trigger] later_wins(s)[i]).0).len() > 0
                && later_wins(s)[i] == at_time(s, later_wins(s)[i].0).last(),
        forall|j: int| 0 <= j < s.len() ==> exists|i: int| 0 <= i < later_wins(s).len() && #[trigger] later_wins(s)[i].0 == #[trigger] s[j].0,
    decreases s.len(),
{
    if s.len() > 0 {
        let d = s.drop_last();
        assert(ascending_by_time(d)) by {
            assert forall|i: int, j: int| 0 <= i <= j < d.len() implies #[trigger] d[i].0 <= #[trigger] d[j].0 by {
                assert(d[i] == s[i] && d[j] == s[j]);
            }
        }
        lemma_later_wins_keeps_last(d);
        lemma_later_wins_strict(d);
        lemma_later_wins_strict(s);
        let rest = later_wins(d);
        let lw = later_wins(s);
        let x = s.last();
        assert(s.drop_last() == d);
        if d.len() > 0 {
            assert(d.last().0 <= x.0) by {
                assert(d.last() == s[s.len() - 2]);
            }
        }
        assert forall|i: int| 0 <= i < lw.len() implies at_time(s, (#[trigger] lw[i]).0).len() > 0 && lw[i]
            == at_time(s, lw[i].0).last() by {
            if lw[i].0 == x.0 {
                if rest.len() > 0 && rest.last().0 == x.0 {
                    if i < lw.len() - 1 {
                        assert(lw[i] == rest[i]);
                        assert(rest[i].0 < rest[rest.len() - 1].0);
                    }
                } else {
                    if i < rest.len() {
                        assert(lw[i] == rest[i]);
                        assert(rest[i].0 <= rest.last().0) by {
                            if i < rest.len() - 1 {
                                assert(rest[i].0 < rest[rest.len() - 1].0);
                            }
                        }
                    }
                }
                assert(lw[i] == x);
            } else {
                if rest.len() > 0 && rest.last().0 == x.0 {
                    assert(lw[i] == rest[i]);
                } else {
                    assert(i < rest.len());
                    assert(lw[i] == rest[i]);
                }
            }
        }
        assert forall|j: int| 0 <= j < s.len() implies exists|i: int| 0 <= i < lw.len() && #[trigger] lw[i].0 == #[trigger] s[j].0 by {
            if j == s.len() - 1 {
                assert(lw[lw.len() - 1].0 == s[j].0);
            } else {
                assert(s[j] == d[j]);
                let i = choose|i: int| 0 <= i < rest.len() && #[trigger] rest[i].0 == #[trigger] d[j].0;
                if rest.len() > 0 && rest.last().0 == x.0 {
                    if i == rest.len() - 1 {
                        assert(lw[i].0 == x.0);
                    } else {
                        assert(lw[i] == rest[i]);
                    }
                } else {
                    assert(lw[i] == rest[i]);
                }
                assert(lw[i].0 == s[j].0);
            }
        }
    }
}

/// On a day that occurs more than once, the later occurrence wins: each
/// observation of a dated series is the last one, in input order, that fell
/// on its day, and every day that any observation fell on is present.
pub proof fn law_the_later_occurrence_of_a_day_wins<T>(points: Seq<(i64, Option<T>)>)
    ensures
        forall|i: int|
            0 <= i < dated_series(points).len() ==> at_time(keyed_by_day(points), (#[trigger] dated_series(points)[i]).0).len()
                > 0 && dated_series(points)[i] == at_time(keyed_by_day(points), dated_series(points)[i].0).last(),
        forall|j: int|
            0 <= j < keyed_by_day(points).len() ==> exists|i: int|
                0 <= i < dated_series(points).len() && #[trigger] dated_series(points)[i].0 == #[trigger] keyed_by_day(points)[j].0,
{
    broadcast use vstd::seq_lib::group_to_multiset_ensures;

    let keyed = keyed_by_day(points);
    let sorted = sort_by_time(keyed);
    law_sorted_by_time_orders_and_keeps_candles(keyed);
    lemma_later_wins_keeps_last(sorted);
    let out = dated_series(points);
    assert forall|i: int| 0 <= i < out.len() implies at_time(keyed, (#[trigger] out[i]).0).len() > 0 && out[i] == at_time(
        keyed,
        out[i].0,
    ).last() by {
        law_sorted_by_time_is_stable(keyed, out[i].0);
    }
    assert forall|j: int| 0 <= j < keyed.len() implies exists|i: int| 0 <= i < out.len() && #[trigger] out[i].0 == #[trigger] keyed[j].0 by {
        let e = keyed[j];
        assert(keyed.contains(e));
        assert(keyed.to_multiset().count(e) > 0);
        assert(sorted.to_multiset().count(e) > 0);
        assert(sorted.contains(e));
        let w = choose|w: int| 0 <= w < sorted.len() && sorted[w] == e;
        assert(sorted[w].0 == e.0);
        let i = choose|i: int| 0 <= i < out.len() && #[trigger] out[i].0 == #[trigger] sorted[w].0;
        assert(out[i].0 == keyed[j].0);
    }
}

} // verus!
