//! What the engine tells its shells while it works.

use vstd::prelude::*;

verus! {

/// An engine event.
#[derive(Debug, Clone, PartialEq, Eq)]
pub enum Event {
    ScanStarted { library_id: i64 },
    /// `done` of `total` items of a scan processed.
    ScanProgress { library_id: i64, done: u64, total: u64 },
    ScanFinished { library_id: i64, added: u64, removed: u64, unchanged: u64 },
    /// A system's games changed; shells refresh that system.
    GamesChanged { system_id: i64 },
    LaunchStarted { game_id: i64, session_id: i64 },
    LaunchEnded { game_id: i64, session_id: i64, duration_s: i64 },
    /// Something went wrong without stopping the work; `code` is stable.
    Warning { code: String, context: String },
}

} // verus!
