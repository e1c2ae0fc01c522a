//! The decisions behind tactics.json, the only data the application cannot
//! recreate: where it lives and when it is rewritten. Reading, serialising and
//! the atomic replace (a temporary file in the same directory, then a rename)
//! are the application's.

use vstd::prelude::*;
use crate::text::str_eq;

verus! {

pub const TACTICS_FILE_NAME: &'static str = "tactics.json";

/// Extension of the temporary file written next to the store before the
/// rename: a rename within one directory is atomic, a move across volumes is
/// not.
pub const TEMP_EXTENSION: &'static str = "json.tmp";

/// Whether the store must be written: only when its content would change.
/// Skipping an identical write matters because the track record is recomputed
/// on every view of the statistics, which would otherwise be the path most
/// often rewriting the one file that cannot be recreated.
pub fn write_needed(existing: Option<&str>, serialized: &str) -> (r: bool)
    ensures
        r == !(existing matches Some(e) && e@ == serialized@),
{
    match existing {
        Some(e) => !str_eq(e, serialized),
        None => true,
    }
}

} // verus!
