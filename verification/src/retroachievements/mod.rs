//! RetroAchievements companion: matching local files to RA games by
//! content hash, with a polite client (rate limits, backoff, circuit
//! breaker) and a cache of hashes RA does not know.

use vstd::prelude::*;

pub mod client;
pub mod hash;
pub mod store;

verus! {

/// The identifier this module reports among the engine's capabilities.
pub fn capability_id() -> (r: &'static str)
    ensures
        r@ == "retroachievements"@,
{
    "retroachievements"
}

} // verus!
