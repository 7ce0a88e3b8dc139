//! Metadata scraping: matching a game against online providers, ranked by
//! how sure each match is.

use vstd::prelude::*;

pub mod pipeline;
pub mod provider;
pub mod screenscraper;
pub mod store;

verus! {

/// The identifier this module reports among the engine's capabilities.
pub fn capability_id() -> (r: &'static str)
    ensures
        r@ == "scraper"@,
{
    "scraper"
}

} // verus!
