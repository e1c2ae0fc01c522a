//! A correlation pair of two arbitrary tickers chosen by the user.

use vstd::prelude::*;
use crate::commands::error::{CommandError, CommandErrorView};
use crate::text::{ascii_alnum, is_ascii_alnum, spec_trim, str_trim, string_from_str, to_chars};

verus! {

pub const MAX_TICKER_LEN: usize = 15;

/// Yahoo tickers: ASCII letters and digits plus `^ . = -` (^IXIC, GC=F,
/// RDS-A.L).
pub open spec fn ticker_char_ok(c: char) -> bool {
    is_ascii_alnum(c) || c == '^' || c == '.' || c == '=' || c == '-'
}

/// After trimming: 1 to 15 characters, each allowed in a Yahoo ticker. (Every
/// allowed character is one byte, so this is also the length in bytes.)
pub open spec fn spec_valid_ticker(ticker: Seq<char>) -> bool {
    let t = spec_trim(ticker);
    &&& 0 < t.len() <= MAX_TICKER_LEN
    &&& forall|k: int| 0 <= k < t.len() ==> ticker_char_ok(#[trigger] t[k])
}

/// Accepts a ticker the user typed, or reports it (untrimmed) as invalid.
pub fn validate_ticker(ticker: &str) -> (r: Result<(), CommandError>)
    ensures
        spec_valid_ticker(ticker@) ==> r is Ok,
        !spec_valid_ticker(ticker@) ==> (r matches Err(e) && e@ == CommandErrorView::InvalidTicker(ticker@)),
{
    let trimmed = to_chars(str_trim(ticker));
    let n = trimmed.len();
    if n == 0 || n > MAX_TICKER_LEN {
        return Err(CommandError::InvalidTicker(string_from_str(ticker)));
    }
    let mut i: usize = 0;
    while i < n
        invariant
            n == trimmed@.len(),
            trimmed@ == spec_trim(ticker@),
            i <= n,
            forall|k: int| 0 <= k < i ==> ticker_char_ok(#[trigger] trimmed@[k]),
        decreases n - i,
    {
        let c = trimmed[i];
        if !(ascii_alnum(c) || c == '^' || c == '.' || c == '=' || c == '-') {
            assert(!ticker_char_ok(trimmed@[i as int]));
            return Err(CommandError::InvalidTicker(string_from_str(ticker)));
        }
        i = i + 1;
    }
    Ok(())
}

} // verus!
