//! The verification of stored tactics: which candles decide a tactic's
//! outcome and in what order, when each window (24 hours, 7 days) is due,
//! that an outcome once written is never overwritten, and the track record
//! built only from outcomes that were actually verified. Whether one candle
//! reached a price level is arithmetic on prices and is the application's.

use vstd::prelude::*;
use vstd::seq_lib::to_multiset_contains;
use crate::models::{TacticTrackRecord, TacticVerification};
use crate::text::{str_eq, string_from_str};

verus! {

pub const HOUR_24_SECONDS: i64 = 86_400;

pub const DAYS_7_SECONDS: i64 = 604_800;

/// What the verification logic reads of a stored tactic.
pub struct VerificationRecord {
    /// Unix time the tactic was generated at.
    pub generated_at: i64,
    pub verified_24h: Option<TacticVerification>,
    pub verified_7d: Option<TacticVerification>,
}

/// One of the two verification windows.
#[derive(Debug, Clone, Copy, PartialEq, Eq, Structural)]
pub enum Window {
    Day,
    Week,
}

pub open spec fn window_length(window: Window) -> int {
    match window {
        Window::Day => HOUR_24_SECONDS as int,
        Window::Week => DAYS_7_SECONDS as int,
    }
}

pub open spec fn slot(record: VerificationRecord, window: Window) -> Option<TacticVerification> {
    match window {
        Window::Day => record.verified_24h,
        Window::Week => record.verified_7d,
    }
}

/// One candle as the outcome of a tactic reads it: when it closed, and
/// whether its range reached the tactic's target and its stop.
#[derive(Debug, Clone, Copy, PartialEq, Eq, Structural)]
pub struct CandleTouch {
    pub timestamp: i64,
    pub target_hit: bool,
    pub stop_hit: bool,
}

/// A candle counts for a tactic when it closed after the tactic was generated
/// and no later than the end of the window.
pub open spec fn in_window(c: CandleTouch, generated_at: i64, until: i64) -> bool {
    generated_at < c.timestamp && c.timestamp <= until
}

pub open spec fn any_in_window(s: Seq<CandleTouch>, generated_at: i64, until: i64) -> bool {
    exists|i: int| 0 <= i < s.len() && #[trigger] in_window(s[i], generated_at, until)
}

/// A candle decides the outcome when it reached either level.
pub open spec fn decisive(c: CandleTouch, generated_at: i64, until: i64) -> bool {
    in_window(c, generated_at, until) && (c.target_hit || c.stop_hit)
}

/// Candles are taken in time order; of two with the same time, the one given
/// first comes first.
pub open spec fn comes_before(s: Seq<CandleTouch>, i: int, j: int) -> bool {
    s[i].timestamp < s[j].timestamp || (s[i].timestamp == s[j].timestamp && i < j)
}

/// The candle at `i` is the first, in that order, to decide the outcome.
pub open spec fn first_decisive(s: Seq<CandleTouch>, generated_at: i64, until: i64, i: int) -> bool {
    &&& 0 <= i < s.len()
    &&& decisive(s[i], generated_at, until)
    &&& forall|j: int|
        0 <= j < s.len() && #[trigger] decisive(s[j], generated_at, until) ==> !comes_before(s, j, i)
}

/// The text of a tactic's outcome, or `None` where it is not scored: a
/// neutral tactic, or one with no candle in its window. Otherwise the first
/// deciding candle gives "stop_hit" if it reached the stop, else
/// "target_hit"; with no deciding candle the outcome is "neither".
pub open spec fn spec_outcome(scenario: Seq<char>, generated_at: i64, until: i64, s: Seq<CandleTouch>) -> Option<
    Seq<char>,
> {
    if scenario == "neutral"@ || !any_in_window(s, generated_at, until) {
        None
    } else if exists|i: int| #[trigger] first_decisive(s, generated_at, until, i) {
        let i = choose|i: int| #[trigger] first_decisive(s, generated_at, until, i);
        if s[i].stop_hit {
            Some("stop_hit"@)
        } else {
            Some("target_hit"@)
        }
    } else {
        Some("neither"@)
    }
}

pub open spec fn text_of(r: Option<&str>) -> Option<Seq<char>> {
    match r {
        Some(t) => Some(t@),
        None => None,
    }
}

/// There is only one first deciding candle.
proof fn lemma_first_decisive_unique(s: Seq<CandleTouch>, generated_at: i64, until: i64, i: int, j: int)
    requires
        first_decisive(s, generated_at, until, i),
        first_decisive(s, generated_at, until, j),
    ensures
        i == j,
{
    assert(decisive(s[j], generated_at, until));
    assert(decisive(s[i], generated_at, until));
}

spec fn first_decisive_upto(s: Seq<CandleTouch>, generated_at: i64, until: i64, n: int, i: int) -> bool {
    &&& 0 <= i < n
    &&& decisive(s[i], generated_at, until)
    &&& forall|j: int|
        0 <= j < n && #[trigger] decisive(s[j], generated_at, until) ==> !comes_before(s, j, i)
}

/// Among the first `n` candles, if one decides, a first one does.
proof fn lemma_first_decisive_exists(s: Seq<CandleTouch>, generated_at: i64, until: i64, n: int)
    requires
        0 <= n <= s.len(),
        exists|i: int| 0 <= i < n && #[trigger] decisive(s[i], generated_at, until),
    ensures
        exists|i: int| #[trigger] first_decisive_upto(s, generated_at, until, n, i),
    decreases n,
{
    let last = n - 1;
    if exists|i: int| 0 <= i < last && #[trigger] decisive(s[i], generated_at, until) {
        lemma_first_decisive_exists(s, generated_at, until, last);
        let i0 = choose|i: int| #[trigger] first_decisive_upto(s, generated_at, until, last, i);
        if decisive(s[last], generated_at, until) && comes_before(s, last, i0) {
            assert(first_decisive_upto(s, generated_at, until, n, last));
        } else {
            assert(first_decisive_upto(s, generated_at, until, n, i0));
        }
    } else {
        assert(decisive(s[last], generated_at, until));
        assert(first_decisive_upto(s, generated_at, until, n, last));
    }
}

/// Candles that decide are the same for two sequences holding the same
/// candles, and a first deciding one exists in each once any decides.
proof fn lemma_same_candles(s: Seq<CandleTouch>, p: Seq<CandleTouch>)
    requires
        p.to_multiset() == s.to_multiset(),
    ensures
        forall|c: CandleTouch| #![trigger p.contains(c)] #![trigger s.contains(c)] p.contains(c) <==> s.contains(c),
{
    assert forall|c: CandleTouch| #![trigger p.contains(c)] #![trigger s.contains(c)] p.contains(c) <==> s.contains(c) by {
        to_multiset_contains(s, c);
        to_multiset_contains(p, c);
    }
}

/// When no two candles share a time, the order they are given in does not
/// matter: any reordering of them scores a tactic the same.
pub proof fn law_outcome_ignores_candle_order(
    scenario: Seq<char>,
    generated_at: i64,
    until: i64,
    s: Seq<CandleTouch>,
    p: Seq<CandleTouch>,
)
    requires
        p.to_multiset() == s.to_multiset(),
        forall|a: int, b: int| 0 <= a < b < s.len() ==> #[trigger] s[a].timestamp != #[trigger] s[b].timestamp,
    ensures
        spec_outcome(scenario, generated_at, until, p) == spec_outcome(scenario, generated_at, until, s),
{
    lemma_same_candles(s, p);
    let g = generated_at;
    let u = until;
    // the same candles fall in the window
    if any_in_window(s, g, u) {
        let i = choose|i: int| 0 <= i < s.len() && #[trigger] in_window(s[i], g, u);
        assert(s.contains(s[i]));
        assert(p.contains(s[i]));
        let j = choose|j: int| 0 <= j < p.len() && p[j] == s[i];
        assert(in_window(p[j], g, u));
    }
    if any_in_window(p, g, u) {
        let j = choose|j: int| 0 <= j < p.len() && #[trigger] in_window(p[j], g, u);
        assert(p.contains(p[j]));
        assert(s.contains(p[j]));
        let i = choose|i: int| 0 <= i < s.len() && s[i] == p[j];
        assert(in_window(s[i], g, u));
    }
    // a first deciding candle exists in one exactly when it does in the other
    if exists|i: int| #[trigger] first_decisive(s, g, u, i) {
        let i = choose|i: int| #[trigger] first_decisive(s, g, u, i);
        assert(s.contains(s[i]));
        assert(p.contains(s[i]));
        let b = choose|b: int| 0 <= b < p.len() && p[b] == s[i];
        assert(decisive(p[b], g, u));
        lemma_first_decisive_exists(p, g, u, p.len() as int);
        let j0 = choose|j: int| #[trigger] first_decisive_upto(p, g, u, p.len() as int, j);
        assert(first_decisive(p, g, u, j0));
    }
    if exists|j: int| #[trigger] first_decisive(p, g, u, j) {
        let j = choose|j: int| #[trigger] first_decisive(p, g, u, j);
        assert(p.contains(p[j]));
        assert(s.contains(p[j]));
        let a = choose|a: int| 0 <= a < s.len() && s[a] == p[j];
        assert(decisive(s[a], g, u));
        lemma_first_decisive_exists(s, g, u, s.len() as int);
        let i0 = choose|i: int| #[trigger] first_decisive_upto(s, g, u, s.len() as int, i);
        assert(first_decisive(s, g, u, i0));
        // the first deciding candles are the same candle
        let i = choose|i: int| #[trigger] first_decisive(s, g, u, i);
        assert(s.contains(s[i]));
        assert(p.contains(s[i]));
        let b = choose|b: int| 0 <= b < p.len() && p[b] == s[i];
        assert(decisive(p[b], g, u));
        assert(!comes_before(p, b, j));
        assert(decisive(s[a], g, u));
        assert(!comes_before(s, a, i));
        assert(s[a].timestamp == s[i].timestamp);
        if a < i {
            assert(s[a].timestamp != s[i].timestamp);
        } else if i < a {
            assert(s[i].timestamp != s[a].timestamp);
        }
        assert(s[i] == p[j]);
    }
}

pub open spec fn outcome_is(r: Option<&str>, text: Seq<char>) -> bool {
    r matches Some(t) && t@ == text
}

/// Scores a tactic against its candles, up to `until`. A neutral tactic is
/// never scored, and neither is one with no candle after it was generated.
/// Otherwise the first candle, in time order, that reached a level decides:
/// "stop_hit" if it reached the stop (also when it reached the target too:
/// the conservative reading), else "target_hit"; with no such candle the
/// outcome is "neither".
pub fn evaluate_outcome(scenario: &str, generated_at: i64, candles: &[CandleTouch], until: i64) -> (r:
    Option<&'static str>)
    ensures
        scenario@ == "neutral"@ ==> r is None,
        !any_in_window(candles@, generated_at, until) ==> r is None,
        scenario@ != "neutral"@ && any_in_window(candles@, generated_at, until) ==> {
            ||| (forall|i: int| 0 <= i < candles@.len() ==> !#[trigger] decisive(candles@[i], generated_at, until))
                && outcome_is(r, "neither"@)
            ||| exists|i: int| #[trigger]
                first_decisive(candles@, generated_at, until, i) && candles@[i].stop_hit && outcome_is(r, "stop_hit"@)
            ||| exists|i: int| #[trigger]
                first_decisive(candles@, generated_at, until, i) && !candles@[i].stop_hit && outcome_is(
                    r,
                    "target_hit"@,
                )
        },
        text_of(r) == spec_outcome(scenario@, generated_at, until, candles@),
{
    if str_eq(scenario, "neutral") {
        return None;
    }
    let n = candles.len();
    let mut any = false;
    let mut best: Option<usize> = None;
    let mut k: usize = 0;
    while k < n
        invariant
            n == candles@.len(),
            k <= n,
            any <==> exists|i: int| 0 <= i < k && #[trigger] in_window(candles@[i], generated_at, until),
            best is None ==> forall|i: int| 0 <= i < k ==> !#[trigger] decisive(candles@[i], generated_at, until),
            best matches Some(b) ==> {
                &&& b < k
                &&& decisive(candles@[b as int], generated_at, until)
                &&& forall|j: int|
                    0 <= j < k && #[trigger] decisive(candles@[j], generated_at, until) ==> !comes_before(
                        candles@,
                        j,
                        b as int,
                    )
            },
        decreases n - k,
    {
        let c = candles[k];
        if generated_at < c.timestamp && c.timestamp <= until {
            assert(in_window(candles@[k as int], generated_at, until));
            any = true;
            if c.target_hit || c.stop_hit {
                match best {
                    None => {
                        best = Some(k);
                    },
                    Some(b) => {
                        if c.timestamp < candles[b].timestamp {
                            best = Some(k);
                        }
                    },
                }
            }
        }
        k = k + 1;
    }
    if !any {
        return None;
    }
    match best {
        None => Some("neither"),
        Some(b) => {
            proof {
                assert(first_decisive(candles@, generated_at, until, b as int));
                let i = choose|i: int| #[trigger] first_decisive(candles@, generated_at, until, i);
                lemma_first_decisive_unique(candles@, generated_at, until, i, b as int);
            }
            if candles[b].stop_hit {
                Some("stop_hit")
            } else {
                Some("target_hit")
            }
        },
    }
}

/// End of a tactic's window: candles up to this moment decide its outcome.
pub fn window_end(generated_at: i64, window: Window) -> (r: i64)
    requires
        generated_at <= i64::MAX - DAYS_7_SECONDS,
    ensures
        r == generated_at + window_length(window),
{
    match window {
        Window::Day => generated_at + HOUR_24_SECONDS,
        Window::Week => generated_at + DAYS_7_SECONDS,
    }
}

/// A window is due once it has fully elapsed and no outcome is recorded for
/// it yet.
pub open spec fn spec_is_due(record: VerificationRecord, window: Window, now: i64) -> bool {
    slot(record, window) is None && now >= record.generated_at + window_length(window)
}

pub fn is_due(record: &VerificationRecord, window: Window, now: i64) -> (r: bool)
    requires
        record.generated_at <= i64::MAX - DAYS_7_SECONDS,
    ensures
        r == spec_is_due(*record, window, now),
{
    let empty = match window {
        Window::Day => record.verified_24h.is_none(),
        Window::Week => record.verified_7d.is_none(),
    };
    empty && now >= window_end(record.generated_at, window)
}

/// Writes the outcome of a window that has none yet and says whether it
/// wrote. An outcome already recorded stays as it is: results are never
/// edited after the fact.
pub fn record_outcome(record: &mut VerificationRecord, window: Window, outcome: &str, now: i64) -> (changed: bool)
    ensures
        changed == (slot(*old(record), window) is None),
        final(record).generated_at == old(record).generated_at,
        changed ==> (slot(*final(record), window) matches Some(v) && v.outcome@ == outcome@ && v.checked_at
            == now),
        !changed ==> slot(*final(record), window) == slot(*old(record), window),
        window == Window::Day ==> final(record).verified_7d == old(record).verified_7d,
        window == Window::Week ==> final(record).verified_24h == old(record).verified_24h,
{
    match window {
        Window::Day => {
            if record.verified_24h.is_none() {
                record.verified_24h = Some(
                    TacticVerification { outcome: string_from_str(outcome), checked_at: now },
                );
                true
            } else {
                false
            }
        },
        Window::Week => {
            if record.verified_7d.is_none() {
                record.verified_7d = Some(
                    TacticVerification { outcome: string_from_str(outcome), checked_at: now },
                );
                true
            } else {
                false
            }
        },
    }
}

pub open spec fn is_hit(v: Option<TacticVerification>) -> bool {
    v matches Some(t) && t.outcome@ == "target_hit"@
}

/// Accuracy statistics: a window counts only when its outcome was verified,
/// and a hit only when that outcome is "target_hit".
pub open spec fn spec_track_record(s: Seq<VerificationRecord>) -> (int, int, int, int)
    decreases s.len(),
{
    if s.len() == 0 {
        (0, 0, 0, 0)
    } else {
        let r = spec_track_record(s.drop_last());
        let t = s.last();
        (
            r.0 + if t.verified_24h is Some { 1int } else { 0int },
            r.1 + if is_hit(t.verified_24h) { 1int } else { 0int },
            r.2 + if t.verified_7d is Some { 1int } else { 0int },
            r.3 + if is_hit(t.verified_7d) { 1int } else { 0int },
        )
    }
}

proof fn lemma_track_record_bounds(s: Seq<VerificationRecord>)
    ensures
        0 <= spec_track_record(s).1 <= spec_track_record(s).0 <= s.len(),
        0 <= spec_track_record(s).3 <= spec_track_record(s).2 <= s.len(),
    decreases s.len(),
{
    if s.len() > 0 {
        lemma_track_record_bounds(s.drop_last());
    }
}

fn is_target_hit(v: &Option<TacticVerification>) -> (r: bool)
    ensures
        r == is_hit(*v),
{
    match v {
        Some(t) => str_eq(t.outcome.as_str(), "target_hit"),
        None => false,
    }
}

/// The track record of the stored tactics.
pub fn compute_track_record(tactics: &[VerificationRecord]) -> (r: TacticTrackRecord)
    requires
        tactics@.len() <= u32::MAX,
    ensures
        (r.verified_24h_total as int, r.verified_24h_hits as int, r.verified_7d_total as int, r.verified_7d_hits as int)
            == spec_track_record(tactics@),
{
    let mut record = TacticTrackRecord {
        verified_24h_total: 0,
        verified_24h_hits: 0,
        verified_7d_total: 0,
        verified_7d_hits: 0,
    };
    let n = tactics.len();
    let mut k: usize = 0;
    while k < n
        invariant
            n == tactics@.len(),
            n <= u32::MAX,
            k <= n,
            (record.verified_24h_total as int, record.verified_24h_hits as int, record.verified_7d_total as int, record.verified_7d_hits as int)
                == spec_track_record(tactics@.take(k as int)),
        decreases n - k,
    {
        proof {
            assert(tactics@.take(k + 1).drop_last() =~= tactics@.take(k as int));
            assert(tactics@.take(k + 1).last() == tactics@[k as int]);
            lemma_track_record_bounds(tactics@.take(k as int));
        }
        let t = &tactics[k];
        if t.verified_24h.is_some() {
            record.verified_24h_total = record.verified_24h_total + 1;
            if is_target_hit(&t.verified_24h) {
                record.verified_24h_hits = record.verified_24h_hits + 1;
            }
        }
        if t.verified_7d.is_some() {
            record.verified_7d_total = record.verified_7d_total + 1;
            if is_target_hit(&t.verified_7d) {
                record.verified_7d_hits = record.verified_7d_hits + 1;
            }
        }
        k = k + 1;
    }
    assert(tactics@.take(n as int) =~= tactics@);
    record
}

/// The track record is built from verified outcomes alone: each window's
/// total is the number of tactics verified in it, its hits are the number
/// whose outcome in it is exactly "target_hit" (a "neither" or "stop_hit"
/// adds nothing), and hits never exceed the total.
pub proof fn law_track_record_counts_only_verified_outcomes(s: Seq<VerificationRecord>)
    ensures
        spec_track_record(s).1 <= spec_track_record(s).0,
        spec_track_record(s).3 <= spec_track_record(s).2,
        spec_track_record(s).0 == s.filter(|t: VerificationRecord| t.verified_24h is Some).len(),
        spec_track_record(s).2 == s.filter(|t: VerificationRecord| t.verified_7d is Some).len(),
        spec_track_record(s).1 == s.filter(
            |t: VerificationRecord| t.verified_24h matches Some(v) && v.outcome@ == "target_hit"@,
        ).len(),
        spec_track_record(s).3 == s.filter(
            |t: VerificationRecord| t.verified_7d matches Some(v) && v.outcome@ == "target_hit"@,
        ).len(),
    decreases s.len(),
{
    reveal(Seq::filter);
    lemma_track_record_bounds(s);
    if s.len() > 0 {
        law_track_record_counts_only_verified_outcomes(s.drop_last());
    }
}

} // verus!
