//! What the scraper stores of a match.

use vstd::prelude::*;

use crate::scraper::pipeline::{conf_rank, Confidence, AUTO_APPLY_THRESHOLD};

verus! {

/// A match as stored for a game.
#[derive(Debug, Clone, PartialEq, Eq)]
pub struct StoredMatch {
    pub game_id: i64,
    pub provider_id: String,
    pub external_id: String,
    pub confidence: Confidence,
    pub confirmed: bool,
}

/// Whether a match is stored already confirmed: its confidence is at
/// least the auto-apply threshold; lower ones wait for the user.
pub fn auto_confirmed(c: Confidence) -> (b: bool)
    ensures
        b == (conf_rank(c) >= conf_rank(AUTO_APPLY_THRESHOLD)),
{
    match c {
        Confidence::High | Confidence::Exact => true,
        _ => false,
    }
}

} // verus!
