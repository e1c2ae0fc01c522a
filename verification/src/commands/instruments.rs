//! The narrow questions the commands ask of the catalogue.

use vstd::prelude::*;
use crate::catalog::{find, spec_find, InstrumentClass};

verus! {

pub fn is_supported(instrument: &str) -> (r: bool)
    ensures
        r == (spec_find(instrument@) is Some),
{
    find(instrument).is_some()
}

/// Metals take a different numeric path (GSR, gold-silver correlation) than
/// equities.
pub fn is_metal(instrument: &str) -> (r: bool)
    ensures
        r == (spec_find(instrument@) matches Some(row) && row.class == InstrumentClass::Metal),
{
    match find(instrument) {
        Some(entry) => entry.class == InstrumentClass::Metal,
        None => false,
    }
}

/// `None` for unknown ids, never a substitute market: stored tactics must not
/// be verified against another instrument's prices.
pub fn yahoo_symbol_for(instrument: &str) -> (r: Option<&'static str>)
    ensures
        r == (match spec_find(instrument@) {
            Some(row) => Some(row.yahoo_symbol),
            None => None,
        }),
{
    match find(instrument) {
        Some(entry) => Some(entry.yahoo_symbol),
        None => None,
    }
}

} // verus!
