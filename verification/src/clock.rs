use vstd::prelude::*;

verus! {

/// Relies on std's `SystemTime::now` and `duration_since`: the wall clock
/// as seconds since the Unix epoch, or zero where the clock sits before
/// the epoch. Nothing can be promised of a clock reading.
#[verifier::external_body]
pub fn unix_now_secs() -> u64 {
    std::time::SystemTime::now()
        .duration_since(std::time::UNIX_EPOCH)
        .map(|d| d.as_secs())
        .unwrap_or(0)
}

/// Relies on std's `SystemTime::now` and `Duration::subsec_millis`: the
/// sub-second part of the wall clock, documented to stay below one
/// thousand. Nothing more can be promised of a clock reading.
#[verifier::external_body]
pub fn subsec_millis_now() -> (ms: u32)
    ensures
        ms < 1000,
{
    std::time::SystemTime::now()
        .duration_since(std::time::UNIX_EPOCH)
        .map(|d| d.subsec_millis())
        .unwrap_or(0)
}

/// Relies on std's `SystemTime::now` and `duration_since`, chrono's
/// `TimeZone::timestamp_opt` (which answers `None` rather than panicking
/// for a moment outside its range) and `Timelike::hour`, documented to lie
/// in 0..=23: the local hour of day. A clock before the epoch or beyond
/// chrono's range falls back to hour zero rather than panicking. Nothing
/// more can be promised of a clock reading.
#[verifier::external_body]
pub fn local_hour_now() -> (h: u8)
    ensures
        h < 24,
{
    std::time::SystemTime::now()
        .duration_since(std::time::UNIX_EPOCH)
        .ok()
        .and_then(
            |d| chrono::TimeZone::timestamp_opt(&chrono::Local, d.as_secs() as i64, 0).single(),
        )
        .map(|dt| chrono::Timelike::hour(&dt) as u8)
        .unwrap_or(0)
}

/// Successive suffixes for temp-file names: hand out the counter's value
/// and step it, wrapping at the top as the shared counter would.
pub fn unique_time_suffix(counter: &mut u64) -> (r: u64)
    ensures
        r == *old(counter),
        *final(counter) == (if *old(counter) == u64::MAX {
            0u64
        } else {
            (*old(counter) + 1) as u64
        }),
{
    let r = *counter;
    if *counter == u64::MAX {
        *counter = 0;
    } else {
        *counter = *counter + 1;
    }
    r
}

} // verus!
