//! What the module stores: confirmed hash matches and the no-match cache.

use vstd::prelude::*;

verus! {

/// A confirmed match of a file's content hash to an RA game.
#[derive(Debug, Clone, PartialEq, Eq)]
pub struct RaGameMatch {
    pub ra_game_id: i64,
    pub console_id: Option<i64>,
    pub title: Option<String>,
    pub hash: String,
    pub relic_file_id: i64,
}

/// Whether a recorded miss is still fresh: it was checked less than
/// `ttl_secs` ago (ages saturate; a check stamped in the future is
/// stale).
pub open spec fn no_match_fresh_spec(now: i64, checked_at: Option<i64>, ttl_secs: u64) -> bool {
    match checked_at {
        Some(t) => {
            let age = if now - t < i64::MIN {
                i64::MIN as int
            } else if now - t > i64::MAX {
                i64::MAX as int
            } else {
                now - t
            };
            age >= 0 && age < ttl_secs
        },
        None => false,
    }
}

/// Whether a hash RA reported unknown at `checked_at` (seconds since the
/// epoch; `None` when never recorded) should still be skipped at `now`.
pub fn no_match_fresh(now: i64, checked_at: Option<i64>, ttl_secs: u64) -> (b: bool)
    ensures
        b == no_match_fresh_spec(now, checked_at, ttl_secs),
{
    match checked_at {
        Some(t) => {
            let d: i128 = now as i128 - t as i128;
            let age: i64 = if d < i64::MIN as i128 {
                i64::MIN
            } else if d > i64::MAX as i128 {
                i64::MAX
            } else {
                d as i64
            };
            age >= 0 && (age as u64) < ttl_secs
        },
        None => false,
    }
}

} // verus!
