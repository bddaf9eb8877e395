use vstd::prelude::*;

use crate::consts::BACKOFF_CAP_SECS;
use crate::consts::BACKOFF_JITTER_CAP_MS;
use crate::consts::STREAM_LIVENESS_IDLE_SECS;
use crate::consts::STREAM_LIVENESS_PING_GRACE_SECS;
use crate::text::truncate_message;
use crate::text::truncate_spec;

verus! {

pub open spec fn sat_sub(a: int, b: int) -> int {
    if a >= b {
        a - b
    } else {
        0
    }
}

pub open spec fn wrap_inc(e: int) -> int {
    if e == u64::MAX {
        0
    } else {
        e + 1
    }
}

#[derive(Clone, Copy, PartialEq, Eq, Structural, Debug)]
pub enum ConnPhase {
    Disconnected,
    Connecting,
    Connected,
    Backoff,
}

/// The one mutable record behind the connection lifecycle: operator
/// intent, the epoch of the task generation in charge, the phase shown to
/// observers, activity timestamps, and reconnection bookkeeping.
pub struct RuntimeState {
    pub has_stop_handle: bool,
    pub stream_epoch: u64,
    pub phase: ConnPhase,
    pub should_run: bool,
    pub last_connected_at: Option<u64>,
    pub last_stream_event_at: Option<u64>,
    pub last_message_at: Option<u64>,
    pub last_message_id: Option<i64>,
    pub last_error: Option<String>,
    pub backoff_seconds: u64,
    pub reconnect_attempts: u64,
}

impl RuntimeState {
    pub fn init() -> (rt: RuntimeState)
        ensures
            !rt.has_stop_handle,
            rt.stream_epoch == 0,
            rt.phase == ConnPhase::Disconnected,
            !rt.should_run,
            rt.last_connected_at is None,
            rt.last_stream_event_at is None,
            rt.last_message_at is None,
            rt.last_message_id is None,
            rt.last_error is None,
            rt.backoff_seconds == 0,
            rt.reconnect_attempts == 0,
    {
        RuntimeState {
            has_stop_handle: false,
            stream_epoch: 0,
            phase: ConnPhase::Disconnected,
            should_run: false,
            last_connected_at: None,
            last_stream_event_at: None,
            last_message_at: None,
            last_message_id: None,
            last_error: None,
            backoff_seconds: 0,
            reconnect_attempts: 0,
        }
    }

    /// Begin a new session generation, unless one is already running: a
    /// start while a stop handle exists is a no-op. On a real start the
    /// epoch steps, intent and phase are set, and the transient error and
    /// backoff bookkeeping clears; the returned epoch is what the spawned
    /// task must capture for its cleanup guard.
    pub fn start_session(&mut self) -> (r: Option<u64>)
        ensures
            old(self).has_stop_handle ==> r is None && *final(self) == *old(self),
            !old(self).has_stop_handle ==> {
                &&& r == Some(final(self).stream_epoch)
                &&& final(self).stream_epoch as int == wrap_inc(old(self).stream_epoch as int)
                &&& final(self).has_stop_handle
                &&& final(self).should_run
                &&& final(self).phase == ConnPhase::Connecting
                &&& final(self).last_error is None
                &&& final(self).backoff_seconds == 0
                &&& final(self).reconnect_attempts == 0
                &&& final(self).last_connected_at == old(self).last_connected_at
                &&& final(self).last_stream_event_at == old(self).last_stream_event_at
                &&& final(self).last_message_at == old(self).last_message_at
                &&& final(self).last_message_id == old(self).last_message_id
            },
    {
        if self.has_stop_handle {
            return None;
        }
        self.has_stop_handle = true;
        self.stream_epoch = if self.stream_epoch == u64::MAX {
            0
        } else {
            self.stream_epoch + 1
        };
        self.should_run = true;
        self.last_error = None;
        self.backoff_seconds = 0;
        self.reconnect_attempts = 0;
        self.phase = ConnPhase::Connecting;
        Some(self.stream_epoch)
    }

    /// Record an operator stop: drop the stop handle (the caller signals
    /// it), clear intent and backoff, and show Disconnected. Reports
    /// whether there was a running session to signal.
    pub fn stop_session(&mut self) -> (had: bool)
        ensures
            had == old(self).has_stop_handle,
            !final(self).has_stop_handle,
            !final(self).should_run,
            final(self).backoff_seconds == 0,
            final(self).phase == ConnPhase::Disconnected,
            final(self).stream_epoch == old(self).stream_epoch,
            final(self).last_connected_at == old(self).last_connected_at,
            final(self).last_stream_event_at == old(self).last_stream_event_at,
            final(self).last_message_at == old(self).last_message_at,
            final(self).last_message_id == old(self).last_message_id,
            final(self).last_error == old(self).last_error,
            final(self).reconnect_attempts == old(self).reconnect_attempts,
    {
        let had = self.has_stop_handle;
        self.has_stop_handle = false;
        self.should_run = false;
        self.backoff_seconds = 0;
        self.phase = ConnPhase::Disconnected;
        had
    }

    /// The exit path of a supervisor task: only the task whose captured
    /// epoch still matches the live epoch may clear the stop handle,
    /// intent, and backoff — a superseded task must not clobber state a
    /// newer generation has set. The shown phase drops to Disconnected
    /// either way.
    pub fn session_cleanup(&mut self, task_epoch: u64)
        ensures
            final(self).phase == ConnPhase::Disconnected,
            old(self).stream_epoch == task_epoch ==> {
                &&& !final(self).has_stop_handle
                &&& !final(self).should_run
                &&& final(self).backoff_seconds == 0
            },
            old(self).stream_epoch != task_epoch ==> {
                &&& final(self).has_stop_handle == old(self).has_stop_handle
                &&& final(self).should_run == old(self).should_run
                &&& final(self).backoff_seconds == old(self).backoff_seconds
            },
            final(self).stream_epoch == old(self).stream_epoch,
            final(self).last_connected_at == old(self).last_connected_at,
            final(self).last_stream_event_at == old(self).last_stream_event_at,
            final(self).last_message_at == old(self).last_message_at,
            final(self).last_message_id == old(self).last_message_id,
            final(self).last_error == old(self).last_error,
            final(self).reconnect_attempts == old(self).reconnect_attempts,
    {
        if self.stream_epoch == task_epoch {
            self.has_stop_handle = false;
            self.should_run = false;
            self.backoff_seconds = 0;
        }
        self.phase = ConnPhase::Disconnected;
    }

    /// A transport connection came up: record the moment, clear the error
    /// and backoff, and show Connected.
    pub fn on_connect_established(&mut self, now: u64)
        ensures
            final(self).last_connected_at == Some(now),
            final(self).last_stream_event_at == Some(now),
            final(self).last_error is None,
            final(self).backoff_seconds == 0,
            final(self).phase == ConnPhase::Connected,
            final(self).has_stop_handle == old(self).has_stop_handle,
            final(self).stream_epoch == old(self).stream_epoch,
            final(self).should_run == old(self).should_run,
            final(self).last_message_at == old(self).last_message_at,
            final(self).last_message_id == old(self).last_message_id,
            final(self).reconnect_attempts == old(self).reconnect_attempts,
    {
        self.last_connected_at = Some(now);
        self.last_stream_event_at = Some(now);
        self.last_error = None;
        self.backoff_seconds = 0;
        self.phase = ConnPhase::Connected;
    }

    /// Any frame from the stream counts as liveness evidence.
    pub fn mark_stream_activity(&mut self, at: u64)
        ensures
            final(self).last_stream_event_at == Some(at),
            *final(self) == (RuntimeState { last_stream_event_at: Some(at), ..*old(self) }),
    {
        self.last_stream_event_at = Some(at);
    }

    /// A message entered the cache: remember when and which.
    pub fn on_message_cached(&mut self, id: i64, at: u64)
        ensures
            *final(self) == (RuntimeState {
                last_message_at: Some(at),
                last_message_id: Some(id),
                last_stream_event_at: Some(at),
                ..*old(self)
            }),
    {
        self.last_message_at = Some(at);
        self.last_message_id = Some(id);
        self.last_stream_event_at = Some(at);
    }

    /// A session attempt failed: show Backoff, keep the error (truncated
    /// for display), record the delay about to be slept, and count the
    /// attempt, saturating.
    pub fn on_session_error(&mut self, err: &str, backoff_secs: u64)
        ensures
            final(self).phase == ConnPhase::Backoff,
            final(self).last_error is Some,
            final(self).last_error.unwrap()@ == truncate_spec(err@, 300),
            final(self).backoff_seconds == backoff_secs,
            final(self).reconnect_attempts as int == (if old(self).reconnect_attempts == u64::MAX {
                u64::MAX as int
            } else {
                old(self).reconnect_attempts + 1
            }),
            final(self).has_stop_handle == old(self).has_stop_handle,
            final(self).stream_epoch == old(self).stream_epoch,
            final(self).should_run == old(self).should_run,
            final(self).last_connected_at == old(self).last_connected_at,
            final(self).last_stream_event_at == old(self).last_stream_event_at,
            final(self).last_message_at == old(self).last_message_at,
            final(self).last_message_id == old(self).last_message_id,
    {
        self.phase = ConnPhase::Backoff;
        self.last_error = Some(truncate_message(err, 300));
        self.backoff_seconds = backoff_secs;
        self.reconnect_attempts = if self.reconnect_attempts == u64::MAX {
            u64::MAX
        } else {
            self.reconnect_attempts + 1
        };
    }

    /// Show a phase to observers without touching anything else: the
    /// supervisor announces Connecting before each attempt and
    /// Disconnected after a clean close.
    pub fn show_phase(&mut self, phase: ConnPhase)
        ensures
            *final(self) == (RuntimeState { phase, ..*old(self) }),
    {
        self.phase = phase;
    }

    /// Whether a watchdog should restart the stream: only when the
    /// operator wants it running and no attempt is under way.
    pub fn should_recover(&self) -> (r: bool)
        ensures
            r == (self.should_run && self.phase != ConnPhase::Connected && self.phase
                != ConnPhase::Connecting),
    {
        self.should_run && !(self.phase == ConnPhase::Connected || self.phase
            == ConnPhase::Connecting)
    }
}

/// The next reconnection delay: double the current one, capped.
pub fn next_backoff(current: u64) -> (r: u64)
    ensures
        r as int == (if 2 * current as int >= BACKOFF_CAP_SECS as int {
            BACKOFF_CAP_SECS as int
        } else {
            2 * current as int
        }),
{
    if current >= BACKOFF_CAP_SECS / 2 {
        BACKOFF_CAP_SECS
    } else {
        current * 2
    }
}

/// The jitter added to a reconnection delay, from the clock's sub-second
/// part: always below half a second.
pub fn backoff_jitter_ms(subsec_millis: u32) -> (r: u64)
    ensures
        r as int == subsec_millis as int % (BACKOFF_JITTER_CAP_MS as int),
        r < BACKOFF_JITTER_CAP_MS,
{
    (subsec_millis as u64) % BACKOFF_JITTER_CAP_MS
}

/// The liveness probe's view of one session: when the stream last showed
/// life, and whether a probe is outstanding and since when.
pub struct Liveness {
    pub last_activity_at: u64,
    pub pending_ping_since: Option<u64>,
}

#[derive(Clone, Copy, PartialEq, Eq, Structural, Debug)]
pub enum LivenessAction {
    /// The stream showed life recently: nothing to do.
    Fresh,
    /// Silent too long and no probe out: send one now.
    SendPing,
    /// A probe is out and its grace window still runs: keep waiting.
    Waiting,
    /// A probe is out and the grace window passed: the connection is dead.
    TimedOut,
}

pub open spec fn liveness_decision(lv: Liveness, now: int) -> LivenessAction {
    if sat_sub(now, lv.last_activity_at as int) < STREAM_LIVENESS_IDLE_SECS as int {
        LivenessAction::Fresh
    } else {
        match lv.pending_ping_since {
            None => LivenessAction::SendPing,
            Some(started) => if sat_sub(now, started as int)
                >= STREAM_LIVENESS_PING_GRACE_SECS as int {
                LivenessAction::TimedOut
            } else {
                LivenessAction::Waiting
            },
        }
    }
}

impl Liveness {
    pub fn start(now: u64) -> (lv: Liveness)
        ensures
            lv.last_activity_at == now,
            lv.pending_ping_since is None,
    {
        Liveness { last_activity_at: now, pending_ping_since: None }
    }

    /// Any received frame resets the idle clock and withdraws an
    /// outstanding probe.
    pub fn note_activity(&mut self, now: u64)
        ensures
            final(self).last_activity_at == now,
            final(self).pending_ping_since is None,
    {
        self.last_activity_at = now;
        self.pending_ping_since = None;
    }

    /// A probe went out: start its grace countdown.
    pub fn note_ping_sent(&mut self, now: u64)
        ensures
            final(self).pending_ping_since == Some(now),
            final(self).last_activity_at == old(self).last_activity_at,
    {
        self.pending_ping_since = Some(now);
    }

    /// What the periodic liveness check must do now.
    pub fn check(&self, now: u64) -> (a: LivenessAction)
        ensures
            a == liveness_decision(*self, now as int),
    {
        let idle = if now >= self.last_activity_at {
            now - self.last_activity_at
        } else {
            0
        };
        if idle < STREAM_LIVENESS_IDLE_SECS {
            return LivenessAction::Fresh;
        }
        match self.pending_ping_since {
            None => LivenessAction::SendPing,
            Some(started) => {
                let waited = if now >= started {
                    now - started
                } else {
                    0
                };
                if waited >= STREAM_LIVENESS_PING_GRACE_SECS {
                    LivenessAction::TimedOut
                } else {
                    LivenessAction::Waiting
                }
            },
        }
    }
}

/// One frame as the transport hands it over.
pub enum StreamFrame {
    Text(String),
    Ping(Vec<u8>),
    Pong,
    CloseFrame,
    Other,
    ReadError(String),
    Ended,
}

/// What the session loop must do with one frame.
pub enum FrameStep {
    /// Liveness evidence; parse the payload and cache the message.
    HandleText(String),
    /// Liveness evidence; answer with a pong carrying this payload.
    ReplyPong(Vec<u8>),
    /// Liveness evidence; nothing else.
    Note,
    /// The session ends with this error; a close the operator did not ask
    /// for is an error, since it must drive a reconnect.
    Fail(String),
}

pub fn classify_frame(f: StreamFrame) -> (r: FrameStep)
    ensures
        f matches StreamFrame::Text(t) ==> r == FrameStep::HandleText(t),
        f matches StreamFrame::Ping(p) ==> r == FrameStep::ReplyPong(p),
        f matches StreamFrame::Pong ==> r == FrameStep::Note,
        f matches StreamFrame::Other ==> r == FrameStep::Note,
        f matches StreamFrame::CloseFrame ==> r matches FrameStep::Fail(m) && m@
            == "Stream closed by server"@,
        f matches StreamFrame::ReadError(e) ==> r matches FrameStep::Fail(m) && m@
            == "Stream read error: "@ + e@,
        f matches StreamFrame::Ended ==> r matches FrameStep::Fail(m) && m@
            == "Stream ended unexpectedly"@,
{
    match f {
        StreamFrame::Text(t) => FrameStep::HandleText(t),
        StreamFrame::Ping(p) => FrameStep::ReplyPong(p),
        StreamFrame::Pong => FrameStep::Note,
        StreamFrame::Other => FrameStep::Note,
        StreamFrame::CloseFrame => FrameStep::Fail(String::from_str("Stream closed by server")),
        StreamFrame::ReadError(e) => {
            let mut m = String::from_str("Stream read error: ");
            m.append(e.as_str());
            FrameStep::Fail(m)
        },
        StreamFrame::Ended => FrameStep::Fail(String::from_str("Stream ended unexpectedly")),
    }
}

/// The read-only health projection handed to observers.
pub struct RuntimeDiagnostics {
    pub connection_state: String,
    pub should_run: bool,
    pub last_connected_at: Option<u64>,
    pub last_stream_event_at: Option<u64>,
    pub last_message_at: Option<u64>,
    pub last_message_id: Option<i64>,
    pub stale_for_seconds: Option<u64>,
    pub last_error: Option<String>,
    pub backoff_seconds: u64,
    pub reconnect_attempts: u64,
}

pub fn connection_state_label(phase: ConnPhase) -> (s: String)
    ensures
        phase == ConnPhase::Disconnected ==> s@ == "Disconnected"@,
        phase == ConnPhase::Connecting ==> s@ == "Connecting"@,
        phase == ConnPhase::Connected ==> s@ == "Connected"@,
        phase == ConnPhase::Backoff ==> s@ == "Backoff"@,
{
    match phase {
        ConnPhase::Disconnected => String::from_str("Disconnected"),
        ConnPhase::Connecting => String::from_str("Connecting"),
        ConnPhase::Connected => String::from_str("Connected"),
        ConnPhase::Backoff => String::from_str("Backoff"),
    }
}

/// Project the runtime record for observers: a pure read, safe at any
/// time; staleness is the time since the last stream event, where one is
/// known.
pub fn snapshot_runtime(rt: &RuntimeState, now: u64) -> (d: RuntimeDiagnostics)
    ensures
        rt.phase == ConnPhase::Disconnected ==> d.connection_state@ == "Disconnected"@,
        rt.phase == ConnPhase::Connecting ==> d.connection_state@ == "Connecting"@,
        rt.phase == ConnPhase::Connected ==> d.connection_state@ == "Connected"@,
        rt.phase == ConnPhase::Backoff ==> d.connection_state@ == "Backoff"@,
        d.should_run == rt.should_run,
        d.last_connected_at == rt.last_connected_at,
        d.last_stream_event_at == rt.last_stream_event_at,
        d.last_message_at == rt.last_message_at,
        d.last_message_id == rt.last_message_id,
        d.stale_for_seconds == (match rt.last_stream_event_at {
            Some(l) => Some((sat_sub(now as int, l as int)) as u64),
            None => None::<u64>,
        }),
        d.last_error == rt.last_error,
        d.backoff_seconds == rt.backoff_seconds,
        d.reconnect_attempts == rt.reconnect_attempts,
{
    let stale_for_seconds = match rt.last_stream_event_at {
        Some(l) => Some(
            if now >= l {
                now - l
            } else {
                0
            },
        ),
        None => None,
    };
    RuntimeDiagnostics {
        connection_state: connection_state_label(rt.phase),
        should_run: rt.should_run,
        last_connected_at: rt.last_connected_at,
        last_stream_event_at: rt.last_stream_event_at,
        last_message_at: rt.last_message_at,
        last_message_id: rt.last_message_id,
        stale_for_seconds,
        last_error: crate::message::clone_opt_string(&rt.last_error),
        backoff_seconds: rt.backoff_seconds,
        reconnect_attempts: rt.reconnect_attempts,
    }
}

} // verus!
