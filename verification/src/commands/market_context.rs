//! Which pair earns a correlation Pine Script. The strongest measured pair is
//! picked from the reports by the application (its figures are floating
//! point); from its "LEADER->FOLLOWER" symbol on, everything is here. An
//! unmeasurable correlation or a pair the catalogue does not know costs the
//! script and nothing else, and the script never comes without its
//! explanation.

use vstd::prelude::*;
use crate::ai_engine::correlation_pine::{
    correlation_explanation, correlation_script, explain_correlation_script,
    generate_correlation_pine_script,
};
use crate::catalog::{find, spec_find, Instrument};
use crate::text::{chars_at, extend_range, occurs_at, spec_trim, str_trim, string_from_chars, to_chars};

verus! {

pub open spec fn arrow() -> Seq<char> {
    "->"@
}

/// Position of the first "->" in `s` from `k` on.
pub open spec fn first_arrow(s: Seq<char>, k: int) -> Option<int>
    decreases s.len() - k,
{
    if k < 0 || k + 2 > s.len() {
        None
    } else if occurs_at(s, arrow(), k) {
        Some(k)
    } else {
        first_arrow(s, k + 1)
    }
}

/// The catalogue entries named on either side of the first "->", each side
/// trimmed; `None` unless both are catalogued.
pub open spec fn spec_resolve_pair(symbol: Seq<char>) -> Option<(Instrument, Instrument)> {
    match first_arrow(symbol, 0) {
        Some(i) => match (spec_find(spec_trim(symbol.take(i))), spec_find(spec_trim(symbol.skip(i + 2)))) {
            (Some(leader), Some(follower)) => Some((leader, follower)),
            _ => None,
        },
        None => None,
    }
}

fn find_arrow(s: &Vec<char>) -> (r: Option<usize>)
    ensures
        match r {
            Some(i) => i + 2 <= s@.len() && first_arrow(s@, 0) == Some(i as int),
            None => first_arrow(s@, 0) is None,
        },
{
    let arrow_chars = to_chars("->");
    proof {
        reveal_strlit("->");
    }
    let n = s.len();
    if n < 2 {
        return None;
    }
    let mut k: usize = 0;
    while k <= n - 2
        invariant
            n == s@.len(),
            n >= 2,
            arrow_chars@ == arrow(),
            arrow().len() == 2,
            k <= n - 1,
            first_arrow(s@, 0) == first_arrow(s@, k as int),
        decreases n - k,
    {
        if chars_at(s, k, &arrow_chars) {
            return Some(k);
        }
        k = k + 1;
    }
    None
}

/// Splits a report's "LEADER->FOLLOWER" symbol back into catalogue entries.
pub fn resolve_pair(pair_symbol: &str) -> (r: Option<(Instrument, Instrument)>)
    ensures
        r == spec_resolve_pair(pair_symbol@),
{
    let s = to_chars(pair_symbol);
    match find_arrow(&s) {
        Some(i) => {
            let len = s.len();
            let mut left: Vec<char> = Vec::new();
            extend_range(&mut left, &s, 0, i);
            let mut right: Vec<char> = Vec::new();
            extend_range(&mut right, &s, i + 2, len);
            assert(left@ =~= s@.take(i as int));
            assert(right@ =~= s@.skip(i + 2));
            let left_text = string_from_chars(&left);
            let right_text = string_from_chars(&right);
            match (find(str_trim(left_text.as_str())), find(str_trim(right_text.as_str()))) {
                (Some(leader), Some(follower)) => Some((leader, follower)),
                _ => None,
            }
        },
        None => None,
    }
}

pub open spec fn spec_correlation_scripts(strongest: Option<Seq<char>>) -> (Option<Seq<char>>, Option<Seq<char>>) {
    match strongest {
        Some(symbol) => match spec_resolve_pair(symbol) {
            Some((leader, follower)) => (
                Some(correlation_script(leader, follower)),
                Some(correlation_explanation(leader, follower)),
            ),
            None => (None, None),
        },
        None => (None, None),
    }
}

/// The correlation script and its explanation for the strongest measured
/// pair, or neither when no pair was measured or the pair is not catalogued.
pub fn correlation_scripts(strongest_symbol: Option<&str>) -> (r: (Option<String>, Option<String>))
    ensures
        (match r.0 {
            Some(s) => Some(s@),
            None => None,
        }, match r.1 {
            Some(s) => Some(s@),
            None => None,
        }) == spec_correlation_scripts(
            match strongest_symbol {
                Some(s) => Some(s@),
                None => None,
            },
        ),
        r.0 is Some <==> r.1 is Some,
{
    match strongest_symbol {
        Some(symbol) => match resolve_pair(symbol) {
            Some((leader, follower)) => (
                Some(generate_correlation_pine_script(&leader, &follower)),
                Some(explain_correlation_script(&leader, &follower)),
            ),
            None => (None, None),
        },
        None => (None, None),
    }
}

} // verus!
