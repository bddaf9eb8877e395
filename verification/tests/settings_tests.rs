use gotify_core::message::AppDirectory;
use gotify_core::message::AppMeta;
use gotify_core::message::MessageWire;
use gotify_core::settings::connection_test_result;
use gotify_core::settings::StoredSettings;
use gotify_core::settings::get_settings_path;
use gotify_core::settings::merged_settings;
use gotify_core::settings::pause_state_view;
use gotify_core::settings::set_pause;
use gotify_core::settings::settings_view;
use gotify_core::settings::token_of;

fn stored_with_token(token: &str) -> StoredSettings {
    let mut s = StoredSettings::default();
    s.base_url = String::from("https://old.example.com");
    s.token = Some(String::from(token));
    s
}

#[test]
fn defaults_are_empty_and_bounded() {
    let s = StoredSettings::default();
    assert_eq!(s.base_url, "");
    assert!(s.token.is_none());
    assert_eq!(s.min_priority, 0);
    assert_eq!(s.cache_limit, 100);
    assert!(!s.launch_at_login);
    assert!(!s.start_minimized_to_tray);
    assert!(s.pause_until.is_none());
    assert!(s.pause_mode.is_none());
    assert!(s.quiet_hours_start.is_none());
    assert!(s.quiet_hours_end.is_none());
}

#[test]
fn token_counts_only_when_non_blank() {
    assert_eq!(token_of(&stored_with_token("abc")), Some(String::from("abc")));
    assert_eq!(token_of(&stored_with_token("   ")), None);
    assert_eq!(token_of(&StoredSettings::default()), None);
}

#[test]
fn settings_view_hides_token_and_normalizes_limit() {
    let mut s = stored_with_token("tok");
    s.cache_limit = 0;
    let v = settings_view(&s);
    assert!(v.has_token);
    assert_eq!(v.cache_limit, 1);
    assert_eq!(v.base_url, "https://old.example.com");

    let mut s2 = StoredSettings::default();
    s2.cache_limit = 999999;
    let v2 = settings_view(&s2);
    assert!(!v2.has_token);
    assert_eq!(v2.cache_limit, 2000);
}

#[test]
fn pause_view_and_set_pause() {
    let mut s = StoredSettings::default();
    set_pause(&mut s, Some(123), Some(String::from("custom")));
    let v = pause_state_view(&s);
    assert_eq!(v.pause_until, Some(123));
    assert_eq!(v.pause_mode, Some(String::from("custom")));
    set_pause(&mut s, None, None);
    assert!(s.pause_until.is_none());
    assert!(s.pause_mode.is_none());
}

#[test]
fn merge_takes_new_token_trimmed() {
    let current = stored_with_token("old-token");
    let merged = merged_settings(
        &current,
        "https://new.example.com/",
        "  new-token  ",
        Some(4),
        Some(50),
        Some(true),
        None,
        Some(25),
        None,
    )
    .expect("merge");
    assert_eq!(merged.base_url, "https://new.example.com");
    assert_eq!(merged.token, Some(String::from("new-token")));
    assert_eq!(merged.min_priority, 4);
    assert_eq!(merged.cache_limit, 50);
    assert!(merged.launch_at_login);
    assert!(!merged.start_minimized_to_tray);
    assert_eq!(merged.quiet_hours_start, Some(1));
    assert_eq!(merged.quiet_hours_end, None);
}

#[test]
fn merge_keeps_stored_token_when_blank() {
    let current = stored_with_token("kept");
    let merged = merged_settings(
        &current,
        "https://new.example.com",
        "   ",
        None,
        None,
        None,
        None,
        None,
        None,
    )
    .expect("merge");
    assert_eq!(merged.token, Some(String::from("kept")));
    assert_eq!(merged.min_priority, 0);
    assert_eq!(merged.cache_limit, 100);
}

#[test]
fn merge_fails_without_any_token() {
    let current = StoredSettings::default();
    let r = merged_settings(
        &current,
        "https://new.example.com",
        "",
        None,
        None,
        None,
        None,
        None,
        None,
    );
    assert_eq!(r.err(), Some(String::from("Token is required")));
}

#[test]
fn merge_clamps_priority_and_limit_and_rejects_bad_url() {
    let current = stored_with_token("tok");
    let merged = merged_settings(
        &current,
        "https://h.example.com",
        "tok",
        Some(99),
        Some(0),
        None,
        None,
        None,
        None,
    )
    .expect("merge");
    assert_eq!(merged.min_priority, 10);
    assert_eq!(merged.cache_limit, 1);

    let low = merged_settings(
        &current,
        "https://h.example.com",
        "tok",
        Some(-7),
        Some(50000),
        None,
        None,
        None,
        None,
    )
    .expect("merge");
    assert_eq!(low.min_priority, 0);
    assert_eq!(low.cache_limit, 2000);

    let bad = merged_settings(&current, "nope", "tok", None, None, None, None, None, None);
    assert_eq!(bad.err(), Some(String::from("Invalid server URL")));
}

#[test]
fn merge_carries_pause_state_over() {
    let mut current = stored_with_token("tok");
    current.pause_until = Some(777);
    current.pause_mode = Some(String::from("forever"));
    let merged = merged_settings(
        &current,
        "https://h.example.com",
        "",
        None,
        None,
        None,
        None,
        None,
        None,
    )
    .expect("merge");
    assert_eq!(merged.pause_until, Some(777));
    assert_eq!(merged.pause_mode, Some(String::from("forever")));
}

#[test]
fn settings_path_needs_registration() {
    let registered = Some(String::from("/tmp/settings.json"));
    assert_eq!(get_settings_path(&registered), Ok(&String::from("/tmp/settings.json")));
    assert_eq!(
        get_settings_path(&None),
        Err(String::from("Settings path not initialised (setup not complete)"))
    );
}

#[test]
fn app_directory_resolves_labels_and_icons() {
    let mut dir = AppDirectory::new();
    let (label, icon) = dir.resolve_app_meta(7);
    assert_eq!(label, "app:7");
    assert!(icon.is_none());
    let (neg_label, _) = dir.resolve_app_meta(-3);
    assert_eq!(neg_label, "app:-3");

    dir.replace_all(vec![
        (7, AppMeta { name: String::from("Chat"), icon_url: String::from("  ") }),
        (8, AppMeta { name: String::from("CI"), icon_url: String::from("data:image/png;base64,aGk=") }),
    ]);
    let (l7, i7) = dir.resolve_app_meta(7);
    assert_eq!(l7, "Chat");
    assert!(i7.is_none(), "a blank icon reference resolves to none");
    let (l8, i8) = dir.resolve_app_meta(8);
    assert_eq!(l8, "CI");
    assert_eq!(i8.as_deref(), Some("data:image/png;base64,aGk="));
}

#[test]
fn app_directory_later_entry_wins() {
    let mut dir = AppDirectory::new();
    dir.replace_all(vec![
        (1, AppMeta { name: String::from("first"), icon_url: String::new() }),
        (1, AppMeta { name: String::from("second"), icon_url: String::new() }),
    ]);
    let (label, _) = dir.resolve_app_meta(1);
    assert_eq!(label, "second");
}

#[test]
fn wire_messages_are_decorated_on_conversion() {
    let mut dir = AppDirectory::new();
    dir.replace_all(vec![(3, AppMeta { name: String::from("Backup"), icon_url: String::new() })]);
    let wire = MessageWire {
        id: 11,
        appid: 3,
        message: String::from("done"),
        title: String::from("nightly"),
        priority: 6,
        date: String::from("2024-05-01T10:00:00Z"),
    };
    let m = dir.convert_wire_message(wire);
    assert_eq!(m.id, 11);
    assert_eq!(m.app_id, 3);
    assert_eq!(m.title, "nightly");
    assert_eq!(m.message, "done");
    assert_eq!(m.priority, 6);
    assert_eq!(m.app, "Backup");
    assert!(m.app_icon.is_none());
    assert_eq!(m.date, "2024-05-01T10:00:00Z");

    let wire_unknown = MessageWire {
        id: 12,
        appid: 99,
        message: String::new(),
        title: String::new(),
        priority: 0,
        date: String::new(),
    };
    let m2 = dir.convert_wire_message(wire_unknown);
    assert_eq!(m2.app, "app:99");
}

#[test]
fn connection_test_reports_status_and_body() {
    assert_eq!(connection_test_result(200, ""), Ok(String::from("Connection successful")));
    assert_eq!(connection_test_result(204, "x"), Ok(String::from("Connection successful")));
    assert_eq!(
        connection_test_result(401, "denied"),
        Err(String::from("Gotify request failed (HTTP 401): denied"))
    );
    let long = "y".repeat(250);
    let err = connection_test_result(503, &long).unwrap_err();
    assert!(err.starts_with("Gotify request failed (HTTP 503): "));
    assert!(err.ends_with("..."));
}
