//! Market data rules: which errors a fetch can end in and what each tells the
//! user, when a price history is long enough to feed the indicators, the order
//! candles are handed on in, and the short-lived cache that spares the data
//! provider repeated requests. The network fetch itself is the application's.

use vstd::prelude::*;
use crate::text::{decimal, decimal_string, extend_str, push_decimal, str_eq, string_from_chars, string_from_str};

verus! {

/// Candles the slowest indicator needs before it says anything: MACD's slow
/// average (26) plus its signal line (9), less the candle they share.
pub const MIN_CLOSES_FOR_INDICATORS: usize = 34;

/// The calendar date, as the `time` crate writes a `Date` (`2026-01-02`),
/// of the UTC day that the instant `unix_secs` falls on, or `None` where
/// `time::OffsetDateTime` cannot represent that instant.
pub uninterp spec fn spec_unix_date_text(unix_secs: i64) -> Option<Seq<char>>;

/// Calls `time::OffsetDateTime::from_unix_timestamp` and writes the date of
/// the result with `Date`'s `Display`. Claimed: the text is a function of the
/// instant; the range that succeeds and the calendar arithmetic are the crate's.
#[verifier::external_body]
fn unix_date_text(unix_secs: i64) -> (r: Option<String>)
    ensures
        match r {
            Some(t) => spec_unix_date_text(unix_secs) == Some(t@),
            None => spec_unix_date_text(unix_secs) is None,
        },
{
    time::OffsetDateTime::from_unix_timestamp(unix_secs).ok().map(|dt| dt.date().to_string())
}

/// The date label of a candle: its UTC calendar date, or, for an instant the
/// calendar cannot hold, the timestamp itself in decimal. The provider's
/// unsigned timestamp is read as a signed one, as the candle stores it.
pub fn candle_date_text(timestamp: u64) -> (r: String)
    ensures
        r@ == match spec_unix_date_text(timestamp as i64) {
            Some(d) => d,
            None => decimal(timestamp as nat),
        },
{
    match unix_date_text(timestamp as i64) {
        Some(d) => d,
        None => decimal_string(timestamp),
    }
}

/// Market data failures, split by what the user can do about them.
#[derive(Debug)]
pub enum MarketDataError {
    /// Transport or provider fault; retrying is meaningful.
    Fetch { symbol: String, message: String },
    /// The provider answered with nothing usable: an outage on its side, worth
    /// retrying, and not a property of the instrument.
    NoData { symbol: String },
    /// The instrument's own history is too short for the indicators; retrying
    /// changes nothing, so the message never suggests it.
    InsufficientHistory { symbol: String, valid: usize, required: usize },
}

pub enum MarketDataErrorView {
    Fetch { symbol: Seq<char>, message: Seq<char> },
    NoData { symbol: Seq<char> },
    InsufficientHistory { symbol: Seq<char>, valid: usize, required: usize },
}

impl View for MarketDataError {
    type V = MarketDataErrorView;

    open spec fn view(&self) -> MarketDataErrorView {
        match self {
            MarketDataError::Fetch { symbol, message } => MarketDataErrorView::Fetch {
                symbol: symbol@,
                message: message@,
            },
            MarketDataError::NoData { symbol } => MarketDataErrorView::NoData { symbol: symbol@ },
            MarketDataError::InsufficientHistory { symbol, valid, required } =>
                MarketDataErrorView::InsufficientHistory { symbol: symbol@, valid: *valid, required: *required },
        }
    }
}

pub open spec fn market_error_message(e: MarketDataErrorView) -> Seq<char> {
    match e {
        MarketDataErrorView::Fetch { symbol, message } => "Nie udało się pobrać danych dla '"@ + symbol
            + "' z Yahoo Finance: "@ + message
            + ". Sprawdź, czy to prawidłowy ticker Yahoo (np. ^IXIC, GC=F), nie potoczna nazwa instrumentu."@,
        MarketDataErrorView::NoData { symbol } => "Yahoo Finance nie zwróciło żadnych notowań dla '"@ + symbol
            + "'. To awaria źródła danych, nie problem z instrumentem - spróbuj ponownie za chwilę."@,
        MarketDataErrorView::InsufficientHistory { symbol, valid, required } => "Za mało danych dla '"@
            + symbol + "': "@ + decimal(valid as nat) + " poprawnych notowań, wymagane minimum "@
            + decimal(required as nat)
            + ". Ten instrument ma zbyt krótką historię, żeby policzyć wskaźniki - ponawianie nic nie zmieni."@,
    }
}

impl MarketDataError {
    /// The message shown to the user.
    pub fn message(&self) -> (r: String)
        ensures
            r@ == market_error_message(self@),
    {
        let mut out: Vec<char> = Vec::new();
        match self {
            MarketDataError::Fetch { symbol, message } => {
                extend_str(&mut out, "Nie udało się pobrać danych dla '");
                extend_str(&mut out, symbol.as_str());
                extend_str(&mut out, "' z Yahoo Finance: ");
                extend_str(&mut out, message.as_str());
                extend_str(&mut out, ". Sprawdź, czy to prawidłowy ticker Yahoo (np. ^IXIC, GC=F), nie potoczna nazwa instrumentu.");
            },
            MarketDataError::NoData { symbol } => {
                extend_str(&mut out, "Yahoo Finance nie zwróciło żadnych notowań dla '");
                extend_str(&mut out, symbol.as_str());
                extend_str(&mut out, "'. To awaria źródła danych, nie problem z instrumentem - spróbuj ponownie za chwilę.");
            },
            MarketDataError::InsufficientHistory { symbol, valid, required } => {
                extend_str(&mut out, "Za mało danych dla '");
                extend_str(&mut out, symbol.as_str());
                extend_str(&mut out, "': ");
                push_decimal(&mut out, *valid as u64);
                extend_str(&mut out, " poprawnych notowań, wymagane minimum ");
                push_decimal(&mut out, *required as u64);
                extend_str(&mut out, ". Ten instrument ma zbyt krótką historię, żeby policzyć wskaźniki - ponawianie nic nie zmieni.");
            },
        }
        assert(out@ =~= market_error_message(self@));
        string_from_chars(&out)
    }
}

/// Checks the candles that survived filtering: none at all is a source
/// outage, fewer than the indicators need is a property of the instrument;
/// either way no made-up default reading reaches a caller.
pub fn validate_history<T>(symbol: &str, history: Vec<T>) -> (r: Result<Vec<T>, MarketDataError>)
    ensures
        history@.len() == 0 ==> (r matches Err(e) && e@ == (MarketDataErrorView::NoData { symbol: symbol@ })),
        0 < history@.len() < MIN_CLOSES_FOR_INDICATORS ==> (r matches Err(e) && e@ == (
        MarketDataErrorView::InsufficientHistory {
            symbol: symbol@,
            valid: history@.len() as usize,
            required: MIN_CLOSES_FOR_INDICATORS,
        })),
        history@.len() >= MIN_CLOSES_FOR_INDICATORS ==> (r matches Ok(h) && h@ == history@),
{
    if history.len() == 0 {
        return Err(MarketDataError::NoData { symbol: string_from_str(symbol) });
    }
    if history.len() < MIN_CLOSES_FOR_INDICATORS {
        return Err(
            MarketDataError::InsufficientHistory {
                symbol: string_from_str(symbol),
                valid: history.len(),
                required: MIN_CLOSES_FOR_INDICATORS,
            },
        );
    }
    Ok(history)
}

/// How long fetched candles stay usable, in milliseconds. Daily candles do
/// not change within a session, while one user action can touch a symbol
/// several times.
pub const CACHE_TTL_MS: u64 = 300_000;

/// Soft cap on cached symbols: the catalogue holds 20 and each custom pair
/// adds two, so this is headroom that never evicts what a user is looking at.
pub const MAX_CACHE_ENTRIES: usize = 64;

/// Whether an entry fetched at `fetched_at` is still usable at `now` (times
/// in milliseconds on one monotonic clock; a clock that went backwards counts
/// as no time elapsed).
pub open spec fn spec_is_fresh(fetched_at: u64, now: u64) -> bool {
    (if now >= fetched_at {
        now - fetched_at
    } else {
        0
    }) < CACHE_TTL_MS
}

pub fn is_fresh(fetched_at: u64, now: u64) -> (r: bool)
    ensures
        r == spec_is_fresh(fetched_at, now),
{
    now.saturating_sub(fetched_at) < CACHE_TTL_MS
}

/// A cache entry as plain values: symbol, fetch time, candles.
pub type CacheEntry<T> = (Seq<char>, u64, T);

/// Position of the first entry from `k` on for `symbol`.
pub open spec fn find_symbol<T>(s: Seq<CacheEntry<T>>, symbol: Seq<char>, k: int) -> Option<int>
    decreases s.len() - k,
{
    if k < 0 || k >= s.len() {
        None
    } else if s[k].0 == symbol {
        Some(k)
    } else {
        find_symbol(s, symbol, k + 1)
    }
}

/// The entries still fresh at `now`, in order.
pub open spec fn fresh_only<T>(s: Seq<CacheEntry<T>>, now: u64) -> Seq<CacheEntry<T>>
    decreases s.len(),
{
    if s.len() == 0 {
        Seq::empty()
    } else {
        let rest = fresh_only(s.drop_last(), now);
        if spec_is_fresh(s.last().1, now) {
            rest.push(s.last())
        } else {
            rest
        }
    }
}

/// Position of the oldest entry (the first one among equally old).
pub open spec fn oldest<T>(s: Seq<CacheEntry<T>>) -> int
    decreases s.len(),
{
    if s.len() <= 1 {
        0
    } else {
        let j = oldest(s.drop_last());
        if s.last().1 < s[j].1 {
            s.len() - 1
        } else {
            j
        }
    }
}

/// What one fresh lookup returns.
pub open spec fn cache_lookup<T>(s: Seq<CacheEntry<T>>, symbol: Seq<char>, now: u64) -> Option<T> {
    match find_symbol(s, symbol, 0) {
        Some(i) => if spec_is_fresh(s[i].1, now) {
            Some(s[i].2)
        } else {
            None
        },
        None => None,
    }
}

/// The cache after storing `value` for `symbol` at `now`: expired entries are
/// dropped (not merely ignored, or an entry never asked for again would stay
/// forever), the oldest entry makes room when a new symbol meets a full cache,
/// and the symbol's entry is replaced or appended.
pub open spec fn cache_store<T>(s: Seq<CacheEntry<T>>, symbol: Seq<char>, value: T, now: u64) -> Seq<CacheEntry<T>> {
    let kept = fresh_only(s, now);
    let room = if kept.len() >= MAX_CACHE_ENTRIES && find_symbol(kept, symbol, 0) is None {
        kept.remove(oldest(kept))
    } else {
        kept
    };
    match find_symbol(room, symbol, 0) {
        Some(i) => room.update(i, (symbol, now, value)),
        None => room.push((symbol, now, value)),
    }
}

/// Candles recently fetched, per symbol.
pub struct CandleCache<T> {
    entries: Vec<(String, u64, T)>,
}

impl<T> CandleCache<T> {
    pub closed spec fn entries(&self) -> Seq<CacheEntry<T>> {
        self.entries@.map_values(|e: (String, u64, T)| (e.0@, e.1, e.2))
    }

    pub fn new() -> (r: Self)
        ensures
            r.entries() == Seq::<CacheEntry<T>>::empty(),
    {
        let r = CandleCache { entries: Vec::new() };
        assert(r.entries() =~= Seq::<CacheEntry<T>>::empty());
        r
    }

    /// Number of cached symbols.
    pub fn len(&self) -> (n: usize)
        ensures
            n == self.entries().len(),
    {
        self.entries.len()
    }

    fn position(&self, symbol: &str) -> (r: Option<usize>)
        ensures
            match r {
                Some(i) => i < self.entries().len() && find_symbol(self.entries(), symbol@, 0) == Some(
                    i as int,
                ),
                None => find_symbol(self.entries(), symbol@, 0) is None,
            },
    {
        let n = self.entries.len();
        let mut i: usize = 0;
        while i < n
            invariant
                n == self.entries@.len(),
                n == self.entries().len(),
                i <= n,
                find_symbol(self.entries(), symbol@, 0) == find_symbol(self.entries(), symbol@, i as int),
            decreases n - i,
        {
            if str_eq(self.entries[i].0.as_str(), symbol) {
                return Some(i);
            }
            i = i + 1;
        }
        None
    }

    /// Whether `symbol` has an entry, fresh or not.
    pub fn contains(&self, symbol: &str) -> (r: bool)
        ensures
            r == (find_symbol(self.entries(), symbol@, 0) is Some),
    {
        self.position(symbol).is_some()
    }

    /// The cached candles for `symbol`, if they are still fresh at `now`.
    pub fn lookup(&self, symbol: &str, now: u64) -> (r: Option<&T>)
        ensures
            match r {
                Some(v) => cache_lookup(self.entries(), symbol@, now) == Some(*v),
                None => cache_lookup(self.entries(), symbol@, now) is None,
            },
    {
        match self.position(symbol) {
            Some(i) => {
                if is_fresh(self.entries[i].1, now) {
                    Some(&self.entries[i].2)
                } else {
                    None
                }
            },
            None => None,
        }
    }

    /// Stores `value` as the candles of `symbol` fetched at `now`.
    pub fn store(&mut self, symbol: &str, value: T, now: u64)
        ensures
            final(self).entries() == cache_store(old(self).entries(), symbol@, value, now),
    {
        let mut old_entries: Vec<(String, u64, T)> = Vec::new();
        std::mem::swap(&mut old_entries, &mut self.entries);
        let ghost initial = old(self).entries();
        let ghost all = old_entries@;
        let n = old_entries.len();
        let mut kept: Vec<(String, u64, T)> = Vec::new();
        let mut k: usize = 0;
        while k < n
            invariant
                n == all.len(),
                k <= n,
                old_entries@ == all.skip(k as int),
                initial == all.map_values(|e: (String, u64, T)| (e.0@, e.1, e.2)),
                kept@.map_values(|e: (String, u64, T)| (e.0@, e.1, e.2)) == fresh_only(
                    initial.take(k as int),
                    now,
                ),
            decreases n - k,
        {
            let e = old_entries.remove(0);
            proof {
                assert(initial.take(k + 1).drop_last() =~= initial.take(k as int));
                assert(all.skip(k as int)[0] == all[k as int]);
                assert(old_entries@ =~= all.skip(k + 1));
            }
            let ghost before = kept@;
            if is_fresh(e.1, now) {
                kept.push(e);
                assert(kept@.map_values(|e: (String, u64, T)| (e.0@, e.1, e.2)) =~= before.map_values(
                    |e: (String, u64, T)| (e.0@, e.1, e.2),
                ).push(initial[k as int]));
            }
            k = k + 1;
        }
        assert(initial.take(n as int) =~= initial);
        self.entries = kept;
        let ghost fresh = self.entries();
        if self.entries.len() >= MAX_CACHE_ENTRIES && self.position(symbol).is_none() {
            let victim = self.oldest_position();
            let _evicted = self.entries.remove(victim);
            assert(self.entries() =~= fresh.remove(oldest(fresh)));
        }
        let ghost room = self.entries();
        match self.position(symbol) {
            Some(i) => {
                self.entries.set(i, (string_from_str(symbol), now, value));
                assert(self.entries() =~= room.update(i as int, (symbol@, now, value)));
            },
            None => {
                self.entries.push((string_from_str(symbol), now, value));
                assert(self.entries() =~= room.push((symbol@, now, value)));
            },
        }
    }

    fn oldest_position(&self) -> (r: usize)
        requires
            self.entries().len() > 0,
        ensures
            r == oldest(self.entries()),
            r < self.entries().len(),
    {
        let n = self.entries.len();
        let mut best: usize = 0;
        let mut k: usize = 1;
        while k < n
            invariant
                n == self.entries@.len(),
                n == self.entries().len(),
                1 <= k <= n,
                best < k,
                best == oldest(self.entries().take(k as int)),
            decreases n - k,
        {
            proof {
                let t = self.entries().take(k + 1);
                assert(t.drop_last() =~= self.entries().take(k as int));
                assert(t[best as int] == self.entries()[best as int]);
            }
            if self.entries[k].1 < self.entries[best].1 {
                best = k;
            }
            k = k + 1;
        }
        assert(self.entries().take(n as int) =~= self.entries());
        best
    }
}

proof fn lemma_find_symbol<T>(s: Seq<CacheEntry<T>>, symbol: Seq<char>, k: int)
    requires
        0 <= k,
    ensures
        match find_symbol(s, symbol, k) {
            Some(j) => k <= j < s.len() && s[j].0 == symbol && forall|m: int| k <= m < j ==> s[m].0 != symbol,
            None => forall|m: int| k <= m < s.len() ==> s[m].0 != symbol,
        },
    decreases s.len() - k,
{
    if k < s.len() && s[k].0 != symbol {
        lemma_find_symbol(s, symbol, k + 1);
    }
}

/// `find_symbol` is the first position holding the symbol.
proof fn lemma_find_symbol_first<T>(s: Seq<CacheEntry<T>>, symbol: Seq<char>, j: int)
    requires
        0 <= j < s.len(),
        s[j].0 == symbol,
        forall|m: int| 0 <= m < j ==> s[m].0 != symbol,
    ensures
        find_symbol(s, symbol, 0) == Some(j),
{
    lemma_find_symbol(s, symbol, 0);
    match find_symbol(s, symbol, 0) {
        Some(i) => {
            if i < j {
                assert(s[i].0 != symbol);
            } else if i > j {
                assert(s[j].0 != symbol);
            }
        },
        None => {
            assert(s[j].0 != symbol);
        },
    }
}

proof fn lemma_fresh_only<T>(s: Seq<CacheEntry<T>>, now: u64)
    ensures
        fresh_only(s, now).len() <= s.len(),
        forall|i: int| 0 <= i < fresh_only(s, now).len() ==> spec_is_fresh(#[trigger] fresh_only(s, now)[i].1, now),
    decreases s.len(),
{
    if s.len() > 0 {
        lemma_fresh_only(s.drop_last(), now);
        let rest = fresh_only(s.drop_last(), now);
        if spec_is_fresh(s.last().1, now) {
            assert forall|i: int| 0 <= i < fresh_only(s, now).len() implies spec_is_fresh(
                #[trigger] fresh_only(s, now)[i].1,
                now,
            ) by {
                if i < rest.len() {
                    assert(fresh_only(s, now)[i] == rest[i]);
                }
            }
        }
    }
}

proof fn lemma_oldest_in_range<T>(s: Seq<CacheEntry<T>>)
    requires
        s.len() > 0,
    ensures
        0 <= oldest(s) < s.len(),
    decreases s.len(),
{
    if s.len() > 1 {
        lemma_oldest_in_range(s.drop_last());
    }
}

/// The cache never outgrows its cap, whatever is stored into it.
pub proof fn law_cache_stays_bounded<T>(s: Seq<CacheEntry<T>>, symbol: Seq<char>, value: T, now: u64)
    requires
        s.len() <= MAX_CACHE_ENTRIES,
    ensures
        cache_store(s, symbol, value, now).len() <= MAX_CACHE_ENTRIES,
{
    lemma_fresh_only(s, now);
    let kept = fresh_only(s, now);
    if kept.len() >= MAX_CACHE_ENTRIES && find_symbol(kept, symbol, 0) is None {
        lemma_oldest_in_range(kept);
    }
    let room = if kept.len() >= MAX_CACHE_ENTRIES && find_symbol(kept, symbol, 0) is None {
        kept.remove(oldest(kept))
    } else {
        kept
    };
    lemma_find_symbol(room, symbol, 0);
    lemma_find_symbol(kept, symbol, 0);
    if kept.len() >= MAX_CACHE_ENTRIES && find_symbol(kept, symbol, 0) is Some {
        assert(find_symbol(room, symbol, 0) is Some);
    }
}

/// What a read gives back of a write: the candles just stored for a symbol
/// are what a lookup of that symbol returns for as long as they are fresh,
/// and nothing once they have expired.
pub proof fn law_lookup_returns_what_was_stored<T>(
    s: Seq<CacheEntry<T>>,
    symbol: Seq<char>,
    value: T,
    now: u64,
    later: u64,
)
    ensures
        cache_lookup(cache_store(s, symbol, value, now), symbol, later) == (if spec_is_fresh(now, later) {
            Some(value)
        } else {
            None::<T>
        }),
{
    let kept = fresh_only(s, now);
    lemma_find_symbol(kept, symbol, 0);
    let room = if kept.len() >= MAX_CACHE_ENTRIES && find_symbol(kept, symbol, 0) is None {
        kept.remove(oldest(kept))
    } else {
        kept
    };
    if kept.len() >= MAX_CACHE_ENTRIES && find_symbol(kept, symbol, 0) is None {
        lemma_oldest_in_range(kept);
        assert forall|m: int| 0 <= m < room.len() implies room[m].0 != symbol by {
            let o = oldest(kept);
            if m < o {
                assert(room[m] == kept[m]);
            } else {
                assert(room[m] == kept[m + 1]);
            }
        }
    }
    lemma_find_symbol(room, symbol, 0);
    let stored = cache_store(s, symbol, value, now);
    match find_symbol(room, symbol, 0) {
        Some(i) => {
            assert(stored == room.update(i, (symbol, now, value)));
            lemma_find_symbol_first(stored, symbol, i);
        },
        None => {
            assert(stored == room.push((symbol, now, value)));
            lemma_find_symbol_first(stored, symbol, room.len() as int);
        },
    }
}

/// Expired entries are dropped on every write, not merely ignored on read:
/// right after a store, every entry in the cache is fresh.
pub proof fn law_store_evicts_expired_entries<T>(s: Seq<CacheEntry<T>>, symbol: Seq<char>, value: T, now: u64)
    ensures
        forall|i: int|
            0 <= i < cache_store(s, symbol, value, now).len() ==> spec_is_fresh(
                #[trigger] cache_store(s, symbol, value, now)[i].1,
                now,
            ),
{
    lemma_fresh_only(s, now);
    let kept = fresh_only(s, now);
    let room = if kept.len() >= MAX_CACHE_ENTRIES && find_symbol(kept, symbol, 0) is None {
        kept.remove(oldest(kept))
    } else {
        kept
    };
    if kept.len() >= MAX_CACHE_ENTRIES && find_symbol(kept, symbol, 0) is None {
        lemma_oldest_in_range(kept);
    }
    assert forall|m: int| 0 <= m < room.len() implies spec_is_fresh(#[trigger] room[m].1, now) by {
        if kept.len() >= MAX_CACHE_ENTRIES && find_symbol(kept, symbol, 0) is None {
            let o = oldest(kept);
            if m < o {
                assert(room[m] == kept[m]);
            } else {
                assert(room[m] == kept[m + 1]);
            }
        } else {
            assert(room[m] == kept[m]);
        }
    }
    let stored = cache_store(s, symbol, value, now);
    lemma_find_symbol(room, symbol, 0);
    match find_symbol(room, symbol, 0) {
        Some(j) => {
            assert(stored == room.update(j, (symbol, now, value)));
            assert forall|i: int| 0 <= i < stored.len() implies spec_is_fresh(#[trigger] stored[i].1, now) by {
                if i != j {
                    assert(stored[i] == room[i]);
                }
            }
        },
        None => {
            assert(stored == room.push((symbol, now, value)));
            assert forall|i: int| 0 <= i < stored.len() implies spec_is_fresh(#[trigger] stored[i].1, now) by {
                if i < room.len() {
                    assert(stored[i] == room[i]);
                }
            }
        },
    }
}

/// `x` placed after every element whose time is not later than its own: the
/// insertion step of a stable sort by time.
pub open spec fn insert_by_time<T>(s: Seq<(i64, T)>, x: (i64, T)) -> Seq<(i64, T)>
    decreases s.len(),
{
    if s.len() == 0 || s.last().0 <= x.0 {
        s.push(x)
    } else {
        insert_by_time(s.drop_last(), x).push(s.last())
    }
}

/// The candles in ascending time order; candles with the same time keep
/// their order.
pub open spec fn sort_by_time<T>(s: Seq<(i64, T)>) -> Seq<(i64, T)>
    decreases s.len(),
{
    if s.len() == 0 {
        s
    } else {
        insert_by_time(sort_by_time(s.drop_last()), s.last())
    }
}

pub open spec fn ascending_by_time<T>(s: Seq<(i64, T)>) -> bool {
    forall|i: int, j: int| 0 <= i <= j < s.len() ==> #[trigger] s[i].0 <= #[trigger] s[j].0
}

/// Inserting at `p` is the insertion step once every element from `p` on is
/// later than `x` and the one before `p` (if any) is not.
proof fn lemma_insert_position<T>(s: Seq<(i64, T)>, x: (i64, T), p: int)
    requires
        0 <= p <= s.len(),
        forall|q: int| p <= q < s.len() ==> #[trigger] s[q].0 > x.0,
        p == 0 || s[p - 1].0 <= x.0,
    ensures
        insert_by_time(s, x) == s.insert(p, x),
    decreases s.len(),
{
    if s.len() == 0 || s.last().0 <= x.0 {
        if p < s.len() {
            assert(s[s.len() - 1].0 > x.0);
        }
        assert(s.push(x) =~= s.insert(p, x));
    } else {
        let d = s.drop_last();
        assert(p < s.len());
        lemma_insert_position(d, x, p);
        assert(d.insert(p, x).push(s.last()) =~= s.insert(p, x));
    }
}

/// Candles in ascending time order, whatever order the provider used; the
/// whole application reads the newest candle as the last one. Each candle
/// travels with its timestamp.
pub fn sorted_by_time<T>(history: Vec<(i64, T)>) -> (r: Vec<(i64, T)>)
    ensures
        r@ == sort_by_time(history@),
{
    let ghost all = history@;
    let mut rest = history;
    let mut out: Vec<(i64, T)> = Vec::new();
    let n = rest.len();
    let mut k: usize = 0;
    while k < n
        invariant
            n == all.len(),
            k <= n,
            rest@ == all.skip(k as int),
            out@ == sort_by_time(all.take(k as int)),
            out@.len() == k,
        decreases n - k,
    {
        let x = rest.remove(0);
        proof {
            assert(all.skip(k as int)[0] == all[k as int]);
            assert(rest@ =~= all.skip(k + 1));
            assert(all.take(k + 1).drop_last() =~= all.take(k as int));
            assert(all.take(k + 1).last() == all[k as int]);
        }
        let mut p: usize = out.len();
        while p > 0 && out[p - 1].0 > x.0
            invariant
                p <= out@.len(),
                forall|q: int| p <= q < out@.len() ==> #[trigger] out@[q].0 > x.0,
            decreases p,
        {
            p = p - 1;
        }
        proof {
            lemma_insert_position(out@, x, p as int);
        }
        out.insert(p, x);
        k = k + 1;
    }
    assert(all.take(n as int) =~= all);
    out
}

proof fn lemma_insert_keeps_order<T>(s: Seq<(i64, T)>, x: (i64, T))
    requires
        ascending_by_time(s),
    ensures
        ascending_by_time(insert_by_time(s, x)),
        insert_by_time(s, x).len() == s.len() + 1,
        forall|i: int| 0 <= i < insert_by_time(s, x).len() ==> (#[trigger] insert_by_time(s, x)[i] == x
            || s.contains(insert_by_time(s, x)[i])),
    decreases s.len(),
{
    if s.len() == 0 || s.last().0 <= x.0 {
        let r = s.push(x);
        assert forall|i: int| 0 <= i < r.len() implies (#[trigger] r[i] == x || s.contains(r[i])) by {
            if i < s.len() {
                assert(r[i] == s[i]);
            }
        }
    } else {
        let d = s.drop_last();
        assert(ascending_by_time(d)) by {
            assert forall|i: int, j: int| 0 <= i <= j < d.len() implies #[trigger] d[i].0 <= #[trigger] d[j].0 by {
                assert(d[i] == s[i] && d[j] == s[j]);
            }
        }
        lemma_insert_keeps_order(d, x);
        let m = insert_by_time(d, x);
        let r = m.push(s.last());
        assert forall|i: int| 0 <= i < r.len() implies (#[trigger] r[i] == x || s.contains(r[i])) by {
            if i < m.len() {
                assert(r[i] == m[i]);
                if m[i] != x {
                    let w = choose|w: int| 0 <= w < d.len() && d[w] == m[i];
                    assert(s[w] == m[i]);
                }
            } else {
                assert(s[s.len() - 1] == r[i]);
            }
        }
        assert forall|i: int, j: int| 0 <= i <= j < r.len() implies #[trigger] r[i].0 <= #[trigger] r[j].0 by {
            if j == r.len() - 1 {
                if i < m.len() {
                    if m[i] == x {
                        assert(x.0 < s.last().0);
                    } else {
                        let w = choose|w: int| 0 <= w < d.len() && d[w] == m[i];
                        assert(s[w] == m[i]);
                        assert(s[w].0 <= s[s.len() - 1].0);
                    }
                }
            } else {
                assert(r[i] == m[i] && r[j] == m[j]);
            }
        }
    }
}

proof fn lemma_insert_multiset<T>(s: Seq<(i64, T)>, x: (i64, T))
    ensures
        insert_by_time(s, x).to_multiset() == s.to_multiset().insert(x),
    decreases s.len(),
{
    broadcast use vstd::seq_lib::group_to_multiset_ensures;

    if s.len() == 0 || s.last().0 <= x.0 {
    } else {
        let d = s.drop_last();
        lemma_insert_multiset(d, x);
        assert(s == d.push(s.last()));
        assert(insert_by_time(s, x).to_multiset() =~= s.to_multiset().insert(x));
    }
}

/// The result of the sort is in ascending time order and holds exactly the
/// candles it was given.
pub proof fn law_sorted_by_time_orders_and_keeps_candles<T>(s: Seq<(i64, T)>)
    ensures
        ascending_by_time(sort_by_time(s)),
        sort_by_time(s).to_multiset() == s.to_multiset(),
    decreases s.len(),
{
    broadcast use vstd::seq_lib::group_to_multiset_ensures;

    if s.len() > 0 {
        law_sorted_by_time_orders_and_keeps_candles(s.drop_last());
        lemma_insert_keeps_order(sort_by_time(s.drop_last()), s.last());
        lemma_insert_multiset(sort_by_time(s.drop_last()), s.last());
        assert(s == s.drop_last().push(s.last()));
    }
}

/// A history already in ascending order comes back unchanged.
pub proof fn law_ascending_history_is_left_unchanged<T>(s: Seq<(i64, T)>)
    requires
        ascending_by_time(s),
    ensures
        sort_by_time(s) == s,
    decreases s.len(),
{
    if s.len() > 0 {
        let d = s.drop_last();
        assert(ascending_by_time(d)) by {
            assert forall|i: int, j: int| 0 <= i <= j < d.len() implies #[trigger] d[i].0 <= #[trigger] d[j].0 by {
                assert(d[i] == s[i] && d[j] == s[j]);
            }
        }
        law_ascending_history_is_left_unchanged(d);
        if d.len() > 0 {
            assert(d.last().0 <= s.last().0) by {
                assert(d.last() == s[s.len() - 2]);
            }
        }
        assert(d.push(s.last()) =~= s);
    }
}

/// The elements of `s` whose time is `t`, in order.
pub open spec fn at_time<T>(s: Seq<(i64, T)>, t: i64) -> Seq<(i64, T)>
    decreases s.len(),
{
    if s.len() == 0 {
        Seq::empty()
    } else {
        let rest = at_time(s.drop_last(), t);
        if s.last().0 == t {
            rest.push(s.last())
        } else {
            rest
        }
    }
}

proof fn lemma_insert_at_time<T>(s: Seq<(i64, T)>, x: (i64, T), t: i64)
    ensures
        at_time(insert_by_time(s, x), t) == (if x.0 == t {
            at_time(s, t).push(x)
        } else {
            at_time(s, t)
        }),
    decreases s.len(),
{
    if s.len() == 0 || s.last().0 <= x.0 {
        assert(insert_by_time(s, x).drop_last() == s);
    } else {
        let d = s.drop_last();
        lemma_insert_at_time(d, x, t);
        let m = insert_by_time(d, x);
        assert(insert_by_time(s, x).drop_last() == m);
        assert(insert_by_time(s, x).last() == s.last());
        assert(s.drop_last() == d);
    }
}

/// The sort is stable: the candles of any one time come out in the order
/// they came in.
pub proof fn law_sorted_by_time_is_stable<T>(s: Seq<(i64, T)>, t: i64)
    ensures
        at_time(sort_by_time(s), t) == at_time(s, t),
    decreases s.len(),
{
    if s.len() > 0 {
        law_sorted_by_time_is_stable(s.drop_last(), t);
        lemma_insert_at_time(sort_by_time(s.drop_last()), s.last(), t);
    }
}

} // verus!
