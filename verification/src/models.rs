//! Plain data shared across modules. Types that carry prices or other
//! floating-point readings live with the application.

use vstd::prelude::*;

verus! {

/// One item of a financial RSS feed.
pub struct NewsItem {
    pub title: String,
    pub description: String,
    pub link: String,
    pub published: String,
}

/// Evidence behind one claim of a briefing.
pub struct Citation {
    pub claim: String,
    /// "news" or "numeric".
    pub evidence_type: String,
    pub evidence_label: String,
    pub evidence_link: Option<String>,
}

/// Outcome of one verification window (24h or 7d). Written once, never
/// overwritten.
pub struct TacticVerification {
    /// "target_hit", "stop_hit" or "neither".
    pub outcome: String,
    pub checked_at: i64,
}

/// Aggregated accuracy statistics, built only from verified outcomes.
#[derive(Debug, Clone, Copy, PartialEq, Eq, Structural)]
pub struct TacticTrackRecord {
    pub verified_24h_total: u32,
    pub verified_24h_hits: u32,
    pub verified_7d_total: u32,
    pub verified_7d_hits: u32,
}

} // verus!
