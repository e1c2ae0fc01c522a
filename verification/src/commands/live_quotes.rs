//! Live quotes for the watchlist: which instruments a request may name, and
//! what a mix of fetched quotes and failures adds up to.

use vstd::prelude::*;
use crate::catalog::spec_find;
use crate::commands::error::{CommandError, CommandErrorView};
use crate::commands::instruments::yahoo_symbol_for;
use crate::market_engine::MarketDataError;
use crate::text::{decimal, extend_str, push_decimal, string_from_chars};

verus! {

/// The list comes from the frontend and is untrusted: one call must not fan
/// out into an arbitrary number of requests.
pub const MAX_INSTRUMENTS: usize = 32;

pub open spec fn too_many_text(n: nat) -> Seq<char> {
    "zbyt wiele instrumentów w jednym zapytaniu: "@ + decimal(n)
}

/// Position of the first id, from `k` on, the catalogue does not know.
pub open spec fn first_unknown(ids: Seq<String>, k: int) -> Option<int>
    decreases ids.len() - k,
{
    if k < 0 || k >= ids.len() {
        None
    } else if spec_find(ids[k]@) is None {
        Some(k)
    } else {
        first_unknown(ids, k + 1)
    }
}

/// Resolves every id to its Yahoo symbol before anything is fetched. An
/// unknown id is an error, never a skip: a silently missing quote would read
/// as a market outage rather than the caller's bug.
pub fn resolve_watchlist(instruments: Vec<String>) -> (r: Result<Vec<(String, &'static str)>, CommandError>)
    ensures
        instruments@.len() > MAX_INSTRUMENTS ==> (r matches Err(e) && e@ == CommandErrorView::InvalidTicker(
            too_many_text(instruments@.len()),
        )),
        instruments@.len() <= MAX_INSTRUMENTS && first_unknown(instruments@, 0) is Some ==> (r matches Err(e)
            && e@ == CommandErrorView::UnknownInstrument(
            instruments@[first_unknown(instruments@, 0).unwrap()]@,
        )),
        instruments@.len() <= MAX_INSTRUMENTS && first_unknown(instruments@, 0) is None ==> (r matches Ok(v)
            && v@.len() == instruments@.len() && forall|i: int|
            0 <= i < v@.len() ==> (#[trigger] v@[i]).0@ == instruments@[i]@ && v@[i].1 == spec_find(
                instruments@[i]@,
            ).unwrap().yahoo_symbol),
{
    let n = instruments.len();
    if n > MAX_INSTRUMENTS {
        let mut out: Vec<char> = Vec::new();
        extend_str(&mut out, "zbyt wiele instrumentów w jednym zapytaniu: ");
        push_decimal(&mut out, n as u64);
        return Err(CommandError::InvalidTicker(string_from_chars(&out)));
    }
    let ghost all = instruments@;
    let mut rest = instruments;
    let mut resolved: Vec<(String, &'static str)> = Vec::new();
    let mut k: usize = 0;
    while k < n
        invariant
            n == all.len(),
            n <= MAX_INSTRUMENTS,
            all == instruments@,
            k <= n,
            rest@ == all.skip(k as int),
            first_unknown(all, 0) == first_unknown(all, k as int),
            resolved@.len() == k,
            forall|i: int|
                0 <= i < k ==> (#[trigger] resolved@[i]).0@ == all[i]@ && resolved@[i].1 == spec_find(
                    all[i]@,
                ).unwrap().yahoo_symbol,
        decreases n - k,
    {
        let id = rest.remove(0);
        proof {
            assert(all.skip(k as int)[0] == all[k as int]);
            assert(rest@ =~= all.skip(k + 1));
        }
        match yahoo_symbol_for(id.as_str()) {
            Some(symbol) => {
                resolved.push((id, symbol));
            },
            None => {
                return Err(CommandError::UnknownInstrument(id));
            },
        }
        k = k + 1;
    }
    Ok(resolved)
}

/// How one quote task ended.
pub enum QuoteOutcome<Q> {
    Fetched(Q),
    /// The provider failed.
    FetchFailed(MarketDataError),
    /// The task itself never returned.
    TaskFailed,
}

/// The fetched quotes, in request order.
pub open spec fn fetched<Q>(s: Seq<QuoteOutcome<Q>>) -> Seq<Q>
    decreases s.len(),
{
    if s.len() == 0 {
        Seq::empty()
    } else {
        let rest = fetched(s.drop_last());
        match s.last() {
            QuoteOutcome::Fetched(q) => rest.push(q),
            _ => rest,
        }
    }
}

/// The error the first failure stands for, if any failed.
pub open spec fn first_failure<Q>(s: Seq<QuoteOutcome<Q>>, k: int) -> Option<CommandErrorView>
    decreases s.len() - k,
{
    if k < 0 || k >= s.len() {
        None
    } else {
        match s[k] {
            QuoteOutcome::Fetched(_) => first_failure(s, k + 1),
            QuoteOutcome::FetchFailed(e) => Some(CommandErrorView::MarketData(e@)),
            QuoteOutcome::TaskFailed => Some(CommandErrorView::LiveQuoteTaskFailed),
        }
    }
}

/// Partial results pass through (the tape keeps its previous values, and
/// their visible age explains the gap); no quote at all with a failure in hand
/// is an outage and reports the first failure; nothing requested is an empty
/// success.
pub fn collect_live_quotes<Q>(results: Vec<QuoteOutcome<Q>>) -> (r: Result<Vec<Q>, CommandError>)
    ensures
        fetched(results@).len() > 0 || first_failure(results@, 0) is None ==> (r matches Ok(v) && v@
            == fetched(results@)),
        fetched(results@).len() == 0 && first_failure(results@, 0) is Some ==> (r matches Err(e) && e@
            == first_failure(results@, 0).unwrap()),
{
    let ghost all = results@;
    let n = results.len();
    let mut rest = results;
    let mut quotes: Vec<Q> = Vec::new();
    let mut first_error: Option<CommandError> = None;
    let mut k: usize = 0;
    while k < n
        invariant
            n == all.len(),
            k <= n,
            rest@ == all.skip(k as int),
            quotes@ == fetched(all.take(k as int)),
            match first_error {
                Some(e) => first_failure(all, 0) == Some(e@),
                None => first_failure(all, 0) == first_failure(all, k as int),
            },
        decreases n - k,
    {
        let outcome = rest.remove(0);
        proof {
            assert(all.skip(k as int)[0] == all[k as int]);
            assert(rest@ =~= all.skip(k + 1));
            assert(all.take(k + 1).drop_last() =~= all.take(k as int));
            assert(all.take(k + 1).last() == all[k as int]);
        }
        match outcome {
            QuoteOutcome::Fetched(q) => {
                quotes.push(q);
            },
            QuoteOutcome::FetchFailed(e) => {
                if first_error.is_none() {
                    first_error = Some(CommandError::MarketData(e));
                }
            },
            QuoteOutcome::TaskFailed => {
                if first_error.is_none() {
                    first_error = Some(CommandError::LiveQuoteTaskFailed);
                }
            },
        }
        k = k + 1;
    }
    assert(all.take(n as int) =~= all);
    if quotes.len() == 0 {
        match first_error {
            Some(e) => {
                return Err(e);
            },
            None => {},
        }
    }
    Ok(quotes)
}

} // verus!
