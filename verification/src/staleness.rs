//! Staleness evaluation: an entry is valid exactly while its age is below
//! the configured time-to-live.

use vstd::prelude::*;

verus! {

/// An entry last written at `modified` is still fresh at `now` under `ttl`
/// exactly when its age is strictly below `ttl`, all three in one time unit
/// of the caller's choice. A `ttl` of zero is never fresh for a
/// sanely-ordered clock, so every call recomputes.
pub open spec fn is_fresh(now: int, modified: int, ttl: int) -> bool {
    now - modified < ttl
}

/// Decides freshness on machine integers, free of overflow by widening.
pub fn fresh(now: i64, modified: i64, ttl: i64) -> (r: bool)
    ensures
        r == is_fresh(now as int, modified as int, ttl as int),
{
    (now as i128) - (modified as i128) < (ttl as i128)
}

} // verus!
