//! Play statistics as shells see them. The aggregation itself is SQL over
//! completed play sessions and lives with the application's database code.

use vstd::prelude::*;

verus! {

/// One game's play history.
#[derive(Debug, Clone)]
pub struct GameStats {
    pub game_id: i64,
    pub name: String,
    pub system_slug: String,
    pub play_count: i64,
    pub total_seconds: i64,
    pub last_played_at: Option<i64>,
}

} // verus!
