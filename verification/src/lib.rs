//! The runtime core of a desktop notification client: a bounded, ordered,
//! deduplicated message cache with idempotent reconciliation against
//! fetched snapshots, the streaming-session state machine with liveness
//! probing and epoch-guarded cleanup, the reconnection backoff policy, and
//! the settings and pause rules around them. Sockets, files and timers
//! live outside; every decision the engine makes is stated in a contract
//! and proved.

pub mod cache;
pub mod clock;
pub mod consts;
pub mod dataurl;
pub mod digits;
pub mod fetch;
pub mod message;
pub mod netpolicy;
pub mod norm;
pub mod order;
pub mod pause;
pub mod session;
pub mod settings;
pub mod text;
pub mod urls;

use vstd::prelude::*;

verus! {

/// Clamp a configured cache size to the admissible range.
pub fn normalize_cache_limit(limit: usize) -> (r: usize)
    ensures
        r == if limit < 1 {
            1usize
        } else if limit > crate::consts::MAX_CACHE_LIMIT {
            crate::consts::MAX_CACHE_LIMIT
        } else {
            limit
        },
        1 <= r <= crate::consts::MAX_CACHE_LIMIT,
{
    if limit < 1 {
        1
    } else if limit > crate::consts::MAX_CACHE_LIMIT {
        crate::consts::MAX_CACHE_LIMIT
    } else {
        limit
    }
}

} // verus!
