//! The rows the engine's queries hand to shells.

use vstd::prelude::*;

verus! {

/// A system with the number of games indexed for it.
#[derive(Debug, Clone)]
pub struct SystemRow {
    pub id: i64,
    pub slug: String,
    pub name: String,
    pub game_count: i64,
}

/// A game as listed by a query.
#[derive(Debug, Clone)]
pub struct GameRow {
    pub id: i64,
    pub system_slug: String,
    pub name: String,
    pub favorite: bool,
    pub rel_path: Option<String>,
}

} // verus!
