use gotify_core::clock::unique_time_suffix;
use gotify_core::clock::unix_now_secs;
use gotify_core::digits::i64_to_dec;
use gotify_core::digits::u64_to_dec;
use gotify_core::normalize_cache_limit;
use gotify_core::pause::format_pause_remaining;
use gotify_core::pause::is_pause_active;
use gotify_core::pause::is_quiet_hours;
use gotify_core::pause::pause_expired;
use gotify_core::pause::pause_forever_request;
use gotify_core::pause::pause_mode_flag;
use gotify_core::pause::pause_request;
use gotify_core::pause::pause_status_label;
use gotify_core::pause::should_notify;
use gotify_core::text::trim_end_char;
use gotify_core::text::trim_str;
use gotify_core::text::truncate_message;
use gotify_core::text::xml_escape;

#[test]
fn truncate_keeps_short_input() {
    assert_eq!(truncate_message("hello", 10), "hello");
    assert_eq!(truncate_message("", 0), "");
    assert_eq!(truncate_message("abcde", 5), "abcde");
}

#[test]
fn truncate_cuts_long_input_with_ellipsis() {
    assert_eq!(truncate_message("hello world", 5), "hello...");
    assert_eq!(truncate_message("abcdef", 0), "...");
    // characters, not bytes
    assert_eq!(truncate_message("ééééé!", 5), "ééééé...");
}

#[test]
fn xml_escape_replaces_markup_characters() {
    assert_eq!(xml_escape("a<b&c>\"d'"), "a&lt;b&amp;c&gt;&quot;d&apos;");
    assert_eq!(xml_escape("plain"), "plain");
    assert_eq!(xml_escape(""), "");
    assert_eq!(xml_escape("&&"), "&amp;&amp;");
}

#[test]
fn trim_removes_whitespace_both_ends() {
    assert_eq!(trim_str("  a b \t\n"), "a b");
    assert_eq!(trim_str("x"), "x");
    assert_eq!(trim_str(" \t "), "");
    assert_eq!(trim_end_char("path///", '/'), "path");
    assert_eq!(trim_end_char("///", '/'), "");
}

#[test]
fn decimal_rendering_is_exact() {
    assert_eq!(u64_to_dec(0), "0");
    assert_eq!(u64_to_dec(7), "7");
    assert_eq!(u64_to_dec(1234567890), "1234567890");
    assert_eq!(u64_to_dec(u64::MAX), "18446744073709551615");
    assert_eq!(i64_to_dec(-42), "-42");
    assert_eq!(i64_to_dec(0), "0");
    assert_eq!(i64_to_dec(i64::MIN), "-9223372036854775808");
}

#[test]
fn cache_limit_is_clamped() {
    assert_eq!(normalize_cache_limit(0), 1);
    assert_eq!(normalize_cache_limit(1), 1);
    assert_eq!(normalize_cache_limit(100), 100);
    assert_eq!(normalize_cache_limit(2000), 2000);
    assert_eq!(normalize_cache_limit(2001), 2000);
    assert_eq!(normalize_cache_limit(usize::MAX), 2000);
}

#[test]
fn suffix_counter_steps_and_wraps() {
    let mut counter: u64 = 5;
    assert_eq!(unique_time_suffix(&mut counter), 5);
    assert_eq!(unique_time_suffix(&mut counter), 6);
    assert_eq!(counter, 7);
    let mut top: u64 = u64::MAX;
    assert_eq!(unique_time_suffix(&mut top), u64::MAX);
    assert_eq!(top, 0);
}

#[test]
fn wall_clock_is_past_twenty_twenty() {
    assert!(unix_now_secs() > 1_577_836_800);
}

#[test]
fn pause_remaining_formats_by_magnitude() {
    assert_eq!(format_pause_remaining(0), "1s");
    assert_eq!(format_pause_remaining(1), "1s");
    assert_eq!(format_pause_remaining(59), "59s");
    assert_eq!(format_pause_remaining(60), "1m");
    assert_eq!(format_pause_remaining(3599), "59m");
    assert_eq!(format_pause_remaining(3600), "1h");
    assert_eq!(format_pause_remaining(3660), "1h 1m");
    assert_eq!(format_pause_remaining(7320), "2h 2m");
}

#[test]
fn pause_activity_by_sentinel_and_deadline() {
    assert!(is_pause_active(Some(0), 123456));
    assert!(is_pause_active(Some(100), 99));
    assert!(!is_pause_active(Some(100), 100));
    assert!(!is_pause_active(None, 0));
}

#[test]
fn pause_expiry_never_hits_the_sentinel() {
    assert!(!pause_expired(Some(0), u64::MAX));
    assert!(pause_expired(Some(100), 100));
    assert!(!pause_expired(Some(100), 99));
    assert!(!pause_expired(None, 100));
}

#[test]
fn pause_requests_map_minutes_to_modes() {
    assert_eq!(
        pause_request(0, 1000),
        Err(String::from("Pause duration must be greater than 0 minutes"))
    );
    assert_eq!(pause_request(15, 1000), Ok((1900, String::from("15m"))));
    assert_eq!(pause_request(60, 1000), Ok((4600, String::from("1h"))));
    assert_eq!(pause_request(30, 1000), Ok((2800, String::from("custom"))));
    assert_eq!(pause_request(u64::MAX, 5), Ok((u64::MAX, String::from("custom"))));
    assert_eq!(pause_forever_request(), (0, String::from("forever")));
}

#[test]
fn pause_status_labels() {
    assert_eq!(pause_status_label(Some(0), 99), "Notifications: Paused Forever");
    assert_eq!(pause_status_label(Some(1090), 1000), "Notifications: Paused 1m left");
    assert_eq!(pause_status_label(Some(1030), 1000), "Notifications: Paused 30s left");
    assert_eq!(pause_status_label(Some(50), 100), "Notifications: On");
    assert_eq!(pause_status_label(None, 100), "Notifications: On");
}

#[test]
fn pause_menu_flag_needs_active_and_matching_mode() {
    assert!(pause_mode_flag(true, &Some(String::from("15m")), "15m"));
    assert!(!pause_mode_flag(true, &Some(String::from("1h")), "15m"));
    assert!(!pause_mode_flag(false, &Some(String::from("15m")), "15m"));
    assert!(!pause_mode_flag(true, &None, "15m"));
}

#[test]
fn quiet_hours_windows() {
    assert!(is_quiet_hours(Some(9), Some(17), 10));
    assert!(!is_quiet_hours(Some(9), Some(17), 17));
    assert!(!is_quiet_hours(Some(9), Some(17), 8));
    // wrapping past midnight
    assert!(is_quiet_hours(Some(22), Some(6), 23));
    assert!(is_quiet_hours(Some(22), Some(6), 3));
    assert!(!is_quiet_hours(Some(22), Some(6), 10));
    // equal bounds silence the whole day
    assert!(is_quiet_hours(Some(5), Some(5), 12));
    assert!(!is_quiet_hours(None, Some(6), 3));
    assert!(!is_quiet_hours(Some(6), None, 3));
}

#[test]
fn notify_decision_combines_all_filters() {
    // free to notify
    assert!(should_notify(None, 3, 5, None, None, 1000, 12));
    // paused forever
    assert!(!should_notify(Some(0), 3, 5, None, None, 1000, 12));
    // paused until later
    assert!(!should_notify(Some(2000), 3, 5, None, None, 1000, 12));
    // pause already over
    assert!(should_notify(Some(500), 3, 5, None, None, 1000, 12));
    // below the threshold
    assert!(!should_notify(None, 6, 5, None, None, 1000, 12));
    // quiet hours
    assert!(!should_notify(None, 3, 5, Some(9), Some(17), 1000, 12));
    assert!(should_notify(None, 3, 5, Some(9), Some(17), 1000, 20));
}
