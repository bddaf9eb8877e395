use vstd::prelude::*;

use crate::consts::PAUSE_FOREVER_SENTINEL;
use crate::digits::dec_rep;
use crate::digits::u64_to_dec;

verus! {

/// Whether notifications are paused at `now`: a stored sentinel pauses
/// forever, any other stored moment pauses until it is reached.
pub open spec fn pause_active_spec(pause_until: Option<u64>, now: int) -> bool {
    match pause_until {
        Some(u) => u == PAUSE_FOREVER_SENTINEL || now < u,
        None => false,
    }
}

pub fn is_pause_active(pause_until: Option<u64>, now: u64) -> (r: bool)
    ensures
        r == pause_active_spec(pause_until, now as int),
{
    match pause_until {
        Some(u) => u == PAUSE_FOREVER_SENTINEL || now < u,
        None => false,
    }
}

/// A stored pause moment has passed and must be cleared; the forever
/// sentinel never expires.
pub fn pause_expired(pause_until: Option<u64>, now: u64) -> (r: bool)
    ensures
        r == (pause_until matches Some(u) && u != PAUSE_FOREVER_SENTINEL && now >= u),
{
    match pause_until {
        Some(u) => u != PAUSE_FOREVER_SENTINEL && now >= u,
        None => false,
    }
}

/// How a remaining pause is shown: seconds under a minute, whole minutes
/// under an hour, else hours with leftover minutes; never below one second.
pub open spec fn pause_remaining_spec(total: int) -> Seq<char> {
    let s = if total < 1 {
        1
    } else {
        total
    };
    if s < 60 {
        dec_rep(s) + "s"@
    } else {
        let m = s / 60;
        if m < 60 {
            dec_rep(m) + "m"@
        } else {
            let h = m / 60;
            let rm = m % 60;
            if rm == 0 {
                dec_rep(h) + "h"@
            } else {
                dec_rep(h) + "h "@ + dec_rep(rm) + "m"@
            }
        }
    }
}

pub fn format_pause_remaining(total_seconds: u64) -> (r: String)
    ensures
        r@ == pause_remaining_spec(total_seconds as int),
{
    let seconds: u64 = if total_seconds < 1 {
        1
    } else {
        total_seconds
    };
    if seconds < 60 {
        let mut out = u64_to_dec(seconds);
        out.append("s");
        return out;
    }
    let minutes: u64 = seconds / 60;
    if minutes < 60 {
        let mut out = u64_to_dec(minutes);
        out.append("m");
        return out;
    }
    let hours: u64 = minutes / 60;
    let rem_minutes: u64 = minutes % 60;
    if rem_minutes == 0 {
        let mut out = u64_to_dec(hours);
        out.append("h");
        out
    } else {
        let mut out = u64_to_dec(hours);
        out.append("h ");
        let rm = u64_to_dec(rem_minutes);
        out.append(rm.as_str());
        out.append("m");
        out
    }
}

pub open spec fn sat_add_u64(a: int, b: int) -> int {
    if a + b > u64::MAX {
        u64::MAX as int
    } else {
        a + b
    }
}

pub open spec fn sat_mul60_u64(a: int) -> int {
    if a * 60 > u64::MAX {
        u64::MAX as int
    } else {
        a * 60
    }
}

/// The stored pause a timed request yields: the moment it ends, and the
/// mode label a menu shows for it. Zero minutes is rejected.
pub fn pause_request(minutes: u64, now: u64) -> (r: Result<(u64, String), String>)
    ensures
        minutes == 0 ==> (r matches Err(e) && e@
            == "Pause duration must be greater than 0 minutes"@),
        minutes > 0 ==> (r matches Ok(p) && p.0 as int == sat_add_u64(
            now as int,
            sat_mul60_u64(minutes as int),
        ) && p.1@ == (if minutes == 15 {
            "15m"@
        } else if minutes == 60 {
            "1h"@
        } else {
            "custom"@
        })),
{
    if minutes == 0 {
        return Err(String::from_str("Pause duration must be greater than 0 minutes"));
    }
    let span: u64 = if minutes > u64::MAX / 60 {
        u64::MAX
    } else {
        minutes * 60
    };
    proof {
        assert(span as int == sat_mul60_u64(minutes as int)) by (nonlinear_arith)
            requires
                span == if minutes > u64::MAX / 60 {
                    u64::MAX
                } else {
                    (minutes * 60) as u64
                },
                minutes <= u64::MAX,
        ;
    }
    let until: u64 = if now > u64::MAX - span {
        u64::MAX
    } else {
        now + span
    };
    let mode = if minutes == 15 {
        String::from_str("15m")
    } else if minutes == 60 {
        String::from_str("1h")
    } else {
        String::from_str("custom")
    };
    Ok((until, mode))
}

/// The stored pause an open-ended request yields: the forever sentinel and
/// its mode label.
pub fn pause_forever_request() -> (r: (u64, String))
    ensures
        r.0 == PAUSE_FOREVER_SENTINEL,
        r.1@ == "forever"@,
{
    (PAUSE_FOREVER_SENTINEL, String::from_str("forever"))
}

/// The status line a menu shows for the stored pause state.
pub open spec fn pause_status_label_spec(pause_until: Option<u64>, now: int) -> Seq<char> {
    match pause_until {
        Some(u) => if u == PAUSE_FOREVER_SENTINEL {
            "Notifications: Paused Forever"@
        } else if u > now {
            "Notifications: Paused "@ + pause_remaining_spec(u - now) + " left"@
        } else {
            "Notifications: On"@
        },
        None => "Notifications: On"@,
    }
}

pub fn pause_status_label(pause_until: Option<u64>, now: u64) -> (r: String)
    ensures
        r@ == pause_status_label_spec(pause_until, now as int),
{
    match pause_until {
        Some(u) => {
            if u == PAUSE_FOREVER_SENTINEL {
                String::from_str("Notifications: Paused Forever")
            } else if u > now {
                let mut out = String::from_str("Notifications: Paused ");
                let rem = format_pause_remaining(u - now);
                out.append(rem.as_str());
                out.append(" left");
                out
            } else {
                String::from_str("Notifications: On")
            }
        },
        None => String::from_str("Notifications: On"),
    }
}

/// Whether a pause menu entry shows as the one in force: the pause must be
/// active and the stored mode must match the entry's.
pub fn pause_mode_flag(active: bool, mode: &Option<String>, expected: &str) -> (r: bool)
    ensures
        r == (active && (mode matches Some(m) && m@ == expected@)),
{
    if !active {
        return false;
    }
    match mode {
        Some(m) => crate::text::str_eq_exec(m.as_str(), expected),
        None => false,
    }
}

/// The quiet-hours window: a start equal to its end silences the whole
/// day; otherwise the window runs from start up to end, wrapping past
/// midnight where start exceeds end. Without both bounds nothing is quiet.
pub open spec fn quiet_hours_spec(start: Option<u8>, end: Option<u8>, hour: int) -> bool {
    match (start, end) {
        (Some(s), Some(e)) => if s == e {
            true
        } else if s < e {
            hour >= s && hour < e
        } else {
            hour >= s || hour < e
        },
        _ => false,
    }
}

pub fn is_quiet_hours(start: Option<u8>, end: Option<u8>, now_hour: u8) -> (r: bool)
    ensures
        r == quiet_hours_spec(start, end, now_hour as int),
{
    let (s, e) = match (start, end) {
        (Some(s), Some(e)) => (s, e),
        _ => {
            return false;
        },
    };
    if s == e {
        return true;
    }
    if s < e {
        now_hour >= s && now_hour < e
    } else {
        now_hour >= s || now_hour < e
    }
}

/// Whether a genuinely new message alerts the user: not while paused, not
/// below the priority threshold, not inside quiet hours.
pub fn should_notify(
    pause_until: Option<u64>,
    min_priority: i64,
    priority: i64,
    quiet_start: Option<u8>,
    quiet_end: Option<u8>,
    now: u64,
    now_hour: u8,
) -> (r: bool)
    ensures
        r == (!pause_active_spec(pause_until, now as int) && priority >= min_priority
            && !quiet_hours_spec(quiet_start, quiet_end, now_hour as int)),
{
    if is_pause_active(pause_until, now) {
        return false;
    }
    if priority < min_priority {
        return false;
    }
    if is_quiet_hours(quiet_start, quiet_end, now_hour) {
        return false;
    }
    true
}

} // verus!
