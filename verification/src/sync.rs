//! LAN save and user-data sync between the user's own devices.
//!
//! Only the capability identifier exists so far; discovery and transfer are
//! future work.

use vstd::prelude::*;

verus! {

/// Stable identifier this module reports through the engine's
/// capabilities listing so shells can hide UI for absent modules.
pub fn capability_id() -> (id: &'static str)
    ensures
        id@ == "sync"@,
{
    "sync"
}

} // verus!
