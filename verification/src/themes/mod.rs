//! The theme engine's first layer: design tokens (colors, typography,
//! shape, sounds) from a `theme.toml` manifest, validated offline and
//! resolved per key against the bundled default theme.

use vstd::prelude::*;

pub mod model;
pub mod resolve;
pub mod toml_doc;
pub mod validate;

verus! {

/// The identifier this module reports among the engine's capabilities.
pub fn capability_id() -> (r: &'static str)
    ensures
        r@ == "themes"@,
{
    "themes"
}

} // verus!
