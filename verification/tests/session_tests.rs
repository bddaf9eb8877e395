use gotify_core::fetch::Pager;
use gotify_core::message::CachedMessage;
use gotify_core::session::ConnPhase;
use gotify_core::session::FrameStep;
use gotify_core::session::Liveness;
use gotify_core::session::LivenessAction;
use gotify_core::session::RuntimeState;
use gotify_core::session::StreamFrame;
use gotify_core::session::backoff_jitter_ms;
use gotify_core::session::classify_frame;
use gotify_core::session::connection_state_label;
use gotify_core::session::next_backoff;
use gotify_core::session::snapshot_runtime;

fn msg(id: i64, date: &str) -> CachedMessage {
    CachedMessage {
        id,
        app_id: 1,
        title: String::new(),
        message: String::new(),
        priority: 0,
        app: String::new(),
        app_icon: None,
        date: String::from(date),
    }
}

#[test]
fn backoff_doubles_from_one_second_capped_at_thirty() {
    let mut backoff: u64 = 1;
    let mut seen = Vec::new();
    for _ in 0..6 {
        seen.push(backoff);
        backoff = next_backoff(backoff);
    }
    assert_eq!(seen, vec![1, 2, 4, 8, 16, 30]);
    assert_eq!(next_backoff(30), 30);
}

#[test]
fn backoff_jitter_stays_below_half_a_second() {
    assert_eq!(backoff_jitter_ms(0), 0);
    assert_eq!(backoff_jitter_ms(499), 499);
    assert_eq!(backoff_jitter_ms(500), 0);
    assert_eq!(backoff_jitter_ms(999), 499);
    for ms in 0..1000u32 {
        assert!(backoff_jitter_ms(ms) < 500);
    }
}

#[test]
fn stale_task_cleanup_must_not_clobber_newer_generation() {
    let mut rt = RuntimeState::init();
    // first start: the task captures epoch 5 after a few restarts
    for _ in 0..5 {
        let epoch = rt.start_session().expect("start");
        let _ = epoch;
        rt.stop_session();
    }
    let old_epoch = rt.start_session().expect("start");
    assert_eq!(old_epoch, 6);
    // a restart while the epoch-6 task is draining: stop, then start anew
    rt.stop_session();
    let new_epoch = rt.start_session().expect("restart");
    assert_eq!(new_epoch, 7);
    assert!(rt.has_stop_handle);
    assert!(rt.should_run);
    // the stale task finishes its cleanup with its captured epoch
    rt.session_cleanup(old_epoch);
    assert!(rt.has_stop_handle, "stale cleanup must keep the newer stop handle");
    assert!(rt.should_run, "stale cleanup must keep the newer intent");
    // the live task's cleanup clears them
    rt.session_cleanup(new_epoch);
    assert!(!rt.has_stop_handle);
    assert!(!rt.should_run);
}

#[test]
fn start_while_running_is_noop() {
    let mut rt = RuntimeState::init();
    let first = rt.start_session();
    assert!(first.is_some());
    let second = rt.start_session();
    assert!(second.is_none());
    assert_eq!(rt.stream_epoch, 1);
}

#[test]
fn session_error_records_backoff_and_attempts() {
    let mut rt = RuntimeState::init();
    rt.start_session().expect("start");
    rt.on_session_error("Stream closed by server", 1);
    assert_eq!(rt.phase, ConnPhase::Backoff);
    assert_eq!(rt.backoff_seconds, 1);
    assert_eq!(rt.reconnect_attempts, 1);
    assert_eq!(rt.last_error.as_deref(), Some("Stream closed by server"));
    rt.on_session_error("Stream read error: io", 2);
    assert_eq!(rt.reconnect_attempts, 2);
    assert_eq!(rt.backoff_seconds, 2);
}

#[test]
fn connect_clears_error_and_shows_connected() {
    let mut rt = RuntimeState::init();
    rt.start_session().expect("start");
    rt.on_session_error("boom", 1);
    rt.on_connect_established(1000);
    assert_eq!(rt.phase, ConnPhase::Connected);
    assert_eq!(rt.last_connected_at, Some(1000));
    assert_eq!(rt.last_stream_event_at, Some(1000));
    assert!(rt.last_error.is_none());
    assert_eq!(rt.backoff_seconds, 0);
}

#[test]
fn recover_only_when_wanted_and_not_connecting() {
    let mut rt = RuntimeState::init();
    assert!(!rt.should_recover());
    rt.start_session().expect("start");
    assert!(!rt.should_recover(), "connecting already");
    rt.on_connect_established(5);
    assert!(!rt.should_recover(), "connected");
    rt.on_session_error("gone", 1);
    assert!(rt.should_recover(), "wanted but in backoff");
    rt.stop_session();
    assert!(!rt.should_recover(), "operator stopped it");
}

#[test]
fn liveness_pings_after_idle_and_times_out_after_grace() {
    let mut lv = Liveness::start(1000);
    assert_eq!(lv.check(1010), LivenessAction::Fresh);
    // ninety seconds of silence: probe once
    assert_eq!(lv.check(1090), LivenessAction::SendPing);
    lv.note_ping_sent(1090);
    assert_eq!(lv.check(1100), LivenessAction::Waiting);
    // grace of thirty seconds passes without any activity
    assert_eq!(lv.check(1120), LivenessAction::TimedOut);
    // activity withdraws the pending probe
    lv.note_activity(1121);
    assert_eq!(lv.check(1130), LivenessAction::Fresh);
}

#[test]
fn frames_classify_to_actions_and_errors() {
    match classify_frame(StreamFrame::Text(String::from("{\"id\":1}"))) {
        FrameStep::HandleText(t) => assert_eq!(t, "{\"id\":1}"),
        _ => panic!("text frame must be handled"),
    }
    match classify_frame(StreamFrame::Ping(vec![1, 2])) {
        FrameStep::ReplyPong(p) => assert_eq!(p, vec![1, 2]),
        _ => panic!("ping must be answered"),
    }
    assert!(matches!(classify_frame(StreamFrame::Pong), FrameStep::Note));
    assert!(matches!(classify_frame(StreamFrame::Other), FrameStep::Note));
    match classify_frame(StreamFrame::CloseFrame) {
        FrameStep::Fail(e) => assert_eq!(e, "Stream closed by server"),
        _ => panic!("server close drives a reconnect"),
    }
    match classify_frame(StreamFrame::ReadError(String::from("reset"))) {
        FrameStep::Fail(e) => assert_eq!(e, "Stream read error: reset"),
        _ => panic!("read error drives a reconnect"),
    }
    match classify_frame(StreamFrame::Ended) {
        FrameStep::Fail(e) => assert_eq!(e, "Stream ended unexpectedly"),
        _ => panic!("stream end drives a reconnect"),
    }
}

#[test]
fn diagnostics_project_runtime_and_staleness() {
    let mut rt = RuntimeState::init();
    rt.start_session().expect("start");
    rt.on_connect_established(1000);
    rt.on_message_cached(17, 1005);
    let d = snapshot_runtime(&rt, 1035);
    assert_eq!(d.connection_state, "Connected");
    assert!(d.should_run);
    assert_eq!(d.last_connected_at, Some(1000));
    assert_eq!(d.last_stream_event_at, Some(1005));
    assert_eq!(d.last_message_at, Some(1005));
    assert_eq!(d.last_message_id, Some(17));
    assert_eq!(d.stale_for_seconds, Some(30));
    assert_eq!(d.backoff_seconds, 0);
    assert_eq!(d.reconnect_attempts, 0);
    assert!(d.last_error.is_none());

    let fresh_rt = RuntimeState::init();
    let d2 = snapshot_runtime(&fresh_rt, 50);
    assert_eq!(d2.connection_state, "Disconnected");
    assert_eq!(d2.stale_for_seconds, None);
}

#[test]
fn connection_labels_cover_all_phases() {
    assert_eq!(connection_state_label(ConnPhase::Disconnected), "Disconnected");
    assert_eq!(connection_state_label(ConnPhase::Connecting), "Connecting");
    assert_eq!(connection_state_label(ConnPhase::Connected), "Connected");
    assert_eq!(connection_state_label(ConnPhase::Backoff), "Backoff");
}

#[test]
fn error_text_is_truncated_for_display() {
    let mut rt = RuntimeState::init();
    let long = "x".repeat(400);
    rt.on_session_error(&long, 1);
    let stored = rt.last_error.clone().expect("recorded");
    assert_eq!(stored.chars().count(), 303);
    assert!(stored.ends_with("..."));
}

#[test]
fn pager_requests_until_target_and_caps_page_size() {
    let pager = Pager::new(450);
    let req = pager.next_request().expect("first request");
    assert_eq!(req.limit, 200);
    assert_eq!(req.since, None);
}

#[test]
fn pager_stops_on_stagnant_cursor() {
    let mut pager = Pager::new(260);
    let req = pager.next_request().expect("first request");
    assert_eq!(req.limit, 200);
    assert_eq!(req.since, None);
    // a full page, ids 1000 down to 801
    let page1: Vec<CachedMessage> =
        (801..=1000).rev().map(|id| msg(id, "2024-01-01T00:00:00Z")).collect();
    pager.accept_page(&page1);
    assert!(!pager.done);
    let req2 = pager.next_request().expect("second request");
    assert_eq!(req2.since, Some(801));
    assert_eq!(req2.limit, 60);
    // the server misbehaves and repeats the same minimum id
    let page2: Vec<CachedMessage> =
        (801..=855).rev().map(|id| msg(id, "2024-01-01T00:00:00Z")).collect();
    pager.accept_page(&page2);
    assert!(pager.done, "a stagnant cursor must end the fetch");
    assert!(pager.next_request().is_none());
    let fresh = pager.into_fresh();
    assert_eq!(fresh.len(), 255, "what was accumulated is returned");
}

#[test]
fn pager_stops_on_short_page_and_empty_page() {
    let mut pager = Pager::new(10);
    let short: Vec<CachedMessage> = vec![msg(3, "2024-01-01T00:00:00Z")];
    pager.accept_page(&short);
    assert!(pager.done, "a short page means the history is exhausted");
    assert_eq!(pager.into_fresh().len(), 1);

    let mut pager2 = Pager::new(10);
    let empty: Vec<CachedMessage> = Vec::new();
    pager2.accept_page(&empty);
    assert!(pager2.done);
    assert!(pager2.into_fresh().is_empty());
}

#[test]
fn pager_stops_asking_once_target_reached() {
    let mut pager = Pager::new(3);
    let page: Vec<CachedMessage> =
        vec![msg(9, "x"), msg(8, "x"), msg(7, "x"), msg(6, "x"), msg(5, "x")];
    pager.accept_page(&page);
    // only three were wanted; the pass is over because enough accumulated
    assert!(pager.next_request().is_none());
    let fresh = pager.into_fresh();
    assert_eq!(fresh.len(), 3);
    assert_eq!(fresh[0].id, 9);
    assert_eq!(fresh[2].id, 7);
}

#[test]
fn show_phase_changes_only_the_phase() {
    let mut rt = RuntimeState::init();
    rt.start_session().expect("start");
    rt.show_phase(ConnPhase::Disconnected);
    assert_eq!(rt.phase, ConnPhase::Disconnected);
    assert!(rt.should_run);
    assert!(rt.has_stop_handle);
}
