use vstd::prelude::*;

verus! {

pub const DEFAULT_CACHE_LIMIT: usize = 100;

pub const MAX_API_PAGE_LIMIT: usize = 200;

pub const MAX_CACHE_LIMIT: usize = 2000;

pub const STREAM_CONNECT_TIMEOUT_SECS: u64 = 10;

pub const STREAM_SYNC_INTERVAL_SECS: u64 = 5;

pub const STREAM_LIVENESS_CHECK_INTERVAL_SECS: u64 = 15;

pub const STREAM_LIVENESS_IDLE_SECS: u64 = 90;

pub const STREAM_LIVENESS_PING_GRACE_SECS: u64 = 30;

pub const APP_ICON_MAX_BYTES: usize = 256000;

pub const PAUSE_FOREVER_SENTINEL: u64 = 0;

/// Reconnection delays double from one second and never pass this ceiling.
pub const BACKOFF_CAP_SECS: u64 = 30;

/// Jitter added to each reconnection delay stays below half a second.
pub const BACKOFF_JITTER_CAP_MS: u64 = 500;

} // verus!
