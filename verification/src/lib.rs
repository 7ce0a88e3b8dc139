//! relic — the verified core of a local-first retro game frontend.
//!
//! The library holds the parts of the engine that decide and compute:
//! argument templates, smart-collection predicates, Android intent
//! templates, the platform registry, media discovery, gamelist/DAT parsing,
//! incremental-scan planning, content hashing, the RetroAchievements
//! client's rate-limit/backoff state machine, scraper matching and the
//! theme validator/resolver. Database, filesystem and network access live
//! in the application around it.

use vstd::prelude::*;

pub mod api;
pub mod collections;
pub mod db;
pub mod emulators;
pub mod events;
pub mod ffi;
pub mod intents;
pub mod launch;
pub mod media;
pub mod metadata;
pub mod paths;
pub mod retroachievements;
pub mod scan;
pub mod scraper;
pub mod stats;
pub mod sync;
pub mod systems;
pub mod text;
pub mod themes;

verus! {

/// Core engine version, surfaced through every FFI boundary.
pub fn version() -> (v: &'static str)
    ensures
        v@ == "0.1.0"@,
{
    "0.1.0"
}

} // verus!
