use vstd::prelude::*;

use crate::consts::DEFAULT_CACHE_LIMIT;
use crate::consts::MAX_CACHE_LIMIT;
use crate::message::clone_opt_string;
use crate::text::trim_spec;
use crate::text::trim_str;
use crate::urls::normalize_base_url;

verus! {

/// Everything the settings file persists. The engine only consumes these
/// values; reading and writing the file stays outside it.
pub struct StoredSettings {
    pub base_url: String,
    pub token: Option<String>,
    pub min_priority: i64,
    pub cache_limit: usize,
    pub launch_at_login: bool,
    pub start_minimized_to_tray: bool,
    pub pause_until: Option<u64>,
    pub pause_mode: Option<String>,
    pub quiet_hours_start: Option<u8>,
    pub quiet_hours_end: Option<u8>,
}

impl Default for StoredSettings {
    fn default() -> (r: StoredSettings)
        ensures
            r.base_url@.len() == 0,
            r.token is None,
            r.min_priority == 0,
            r.cache_limit == DEFAULT_CACHE_LIMIT,
            !r.launch_at_login,
            !r.start_minimized_to_tray,
            r.pause_until is None,
            r.pause_mode is None,
            r.quiet_hours_start is None,
            r.quiet_hours_end is None,
    {
        StoredSettings {
            base_url: String::new(),
            token: None,
            min_priority: 0,
            cache_limit: DEFAULT_CACHE_LIMIT,
            launch_at_login: false,
            start_minimized_to_tray: false,
            pause_until: None,
            pause_mode: None,
            quiet_hours_start: None,
            quiet_hours_end: None,
        }
    }
}

/// A token counts only when it holds something beyond whitespace.
pub open spec fn token_present(token: Option<String>) -> bool {
    match token {
        Some(t) => trim_spec(t@).len() > 0,
        None => false,
    }
}

/// The stored token, where a non-blank one is stored.
pub fn token_of(s: &StoredSettings) -> (r: Option<String>)
    ensures
        r is Some <==> token_present(s.token),
        r is Some ==> r.unwrap()@ == s.token.unwrap()@,
{
    match &s.token {
        Some(t) => {
            let trimmed = trim_str(t.as_str());
            if trimmed.is_empty() {
                None
            } else {
                Some(t.clone())
            }
        },
        None => None,
    }
}

/// What a settings read hands to observers: the token itself never leaves,
/// only whether one is stored.
pub struct SettingsResponse {
    pub base_url: String,
    pub has_token: bool,
    pub min_priority: i64,
    pub cache_limit: usize,
    pub launch_at_login: bool,
    pub start_minimized_to_tray: bool,
    pub pause_until: Option<u64>,
    pub pause_mode: Option<String>,
    pub quiet_hours_start: Option<u8>,
    pub quiet_hours_end: Option<u8>,
}

pub fn settings_view(s: &StoredSettings) -> (r: SettingsResponse)
    ensures
        r.base_url@ == s.base_url@,
        r.has_token == token_present(s.token),
        r.min_priority == s.min_priority,
        r.cache_limit == (if s.cache_limit < 1 {
            1usize
        } else if s.cache_limit > MAX_CACHE_LIMIT {
            MAX_CACHE_LIMIT
        } else {
            s.cache_limit
        }),
        r.launch_at_login == s.launch_at_login,
        r.start_minimized_to_tray == s.start_minimized_to_tray,
        r.pause_until == s.pause_until,
        r.pause_mode == s.pause_mode,
        r.quiet_hours_start == s.quiet_hours_start,
        r.quiet_hours_end == s.quiet_hours_end,
{
    let has_token = match token_of(s) {
        Some(_) => true,
        None => false,
    };
    SettingsResponse {
        base_url: s.base_url.clone(),
        has_token,
        min_priority: s.min_priority,
        cache_limit: crate::normalize_cache_limit(s.cache_limit),
        launch_at_login: s.launch_at_login,
        start_minimized_to_tray: s.start_minimized_to_tray,
        pause_until: s.pause_until,
        pause_mode: clone_opt_string(&s.pause_mode),
        quiet_hours_start: s.quiet_hours_start,
        quiet_hours_end: s.quiet_hours_end,
    }
}

/// The pause fields alone, for observers that ask only about pausing.
pub struct PauseStateResponse {
    pub pause_until: Option<u64>,
    pub pause_mode: Option<String>,
}

pub fn pause_state_view(s: &StoredSettings) -> (r: PauseStateResponse)
    ensures
        r.pause_until == s.pause_until,
        r.pause_mode == s.pause_mode,
{
    PauseStateResponse {
        pause_until: s.pause_until,
        pause_mode: clone_opt_string(&s.pause_mode),
    }
}

/// Record a pause decision in the settings; nothing else moves.
pub fn set_pause(s: &mut StoredSettings, pause_until: Option<u64>, pause_mode: Option<String>)
    ensures
        *final(s) == (StoredSettings { pause_until, pause_mode, ..*old(s) }),
{
    s.pause_until = pause_until;
    s.pause_mode = pause_mode;
}

fn clamp_priority(p: i64) -> (r: i64)
    ensures
        r == if p < 0 {
            0int
        } else if p > 10 {
            10int
        } else {
            p as int
        },
{
    if p < 0 {
        0
    } else if p > 10 {
        10
    } else {
        p
    }
}

/// What a save request leaves in the settings. The URL is normalized and
/// must be a well-formed http(s) URL; a blank incoming token keeps the
/// stored one and fails where none is stored; absent optional fields keep
/// their stored values; the priority threshold is clamped to 0..=10, the
/// cache limit to its admissible range, quiet hours to hours of the day.
/// The pause fields always carry over unchanged.
pub fn merged_settings(
    current: &StoredSettings,
    base_url: &str,
    token: &str,
    min_priority: Option<i64>,
    cache_limit: Option<usize>,
    launch_at_login: Option<bool>,
    start_minimized_to_tray: Option<bool>,
    quiet_hours_start: Option<u8>,
    quiet_hours_end: Option<u8>,
) -> (r: Result<StoredSettings, String>)
    ensures
        ({
            let t = crate::text::trim_end_char_spec(trim_spec(base_url@), '/');
            &&& ((t.len() == 0 || crate::urls::parsed_scheme_of(t) != Some("http"@)
                && crate::urls::parsed_scheme_of(t) != Some("https"@)) ==> r is Err)
            &&& (r matches Ok(s) ==> {
                &&& s.base_url@ == t
                &&& (trim_spec(token@).len() == 0 ==> token_present(current.token)
                    && s.token.unwrap()@ == current.token.unwrap()@)
                &&& (trim_spec(token@).len() > 0 ==> (s.token matches Some(nt) && nt@ == trim_spec(
                    token@,
                )))
                &&& s.min_priority as int == (if min_priority is Some {
                    let p = min_priority.unwrap() as int;
                    if p < 0 {
                        0
                    } else if p > 10 {
                        10
                    } else {
                        p
                    }
                } else {
                    let p = current.min_priority as int;
                    if p < 0 {
                        0
                    } else if p > 10 {
                        10
                    } else {
                        p
                    }
                })
                &&& s.cache_limit as int == ({
                    let c = if cache_limit is Some {
                        cache_limit.unwrap() as int
                    } else {
                        current.cache_limit as int
                    };
                    if c < 1 {
                        1
                    } else if c > MAX_CACHE_LIMIT as int {
                        MAX_CACHE_LIMIT as int
                    } else {
                        c
                    }
                })
                &&& s.launch_at_login == (if launch_at_login is Some {
                    launch_at_login.unwrap()
                } else {
                    current.launch_at_login
                })
                &&& s.start_minimized_to_tray == (if start_minimized_to_tray is Some {
                    start_minimized_to_tray.unwrap()
                } else {
                    current.start_minimized_to_tray
                })
                &&& s.pause_until == current.pause_until
                &&& s.pause_mode == current.pause_mode
                &&& s.quiet_hours_start == (match (quiet_hours_start, current.quiet_hours_start) {
                    (Some(h), _) => Some((h as int % 24) as u8),
                    (None, Some(h)) => Some((h as int % 24) as u8),
                    (None, None) => None::<u8>,
                })
                &&& s.quiet_hours_end == (match (quiet_hours_end, current.quiet_hours_end) {
                    (Some(h), _) => Some((h as int % 24) as u8),
                    (None, Some(h)) => Some((h as int % 24) as u8),
                    (None, None) => None::<u8>,
                })
            })
            &&& (t.len() > 0 && (crate::urls::parsed_scheme_of(t) == Some("http"@)
                || crate::urls::parsed_scheme_of(t) == Some("https"@)) && (trim_spec(token@).len()
                > 0 || token_present(current.token)) ==> r is Ok)
            &&& (t.len() > 0 && (crate::urls::parsed_scheme_of(t) == Some("http"@)
                || crate::urls::parsed_scheme_of(t) == Some("https"@)) && trim_spec(token@).len()
                == 0 && !token_present(current.token) ==> (r matches Err(e) && e@
                == "Token is required"@))
        }),
{
    let normalized_url = match normalize_base_url(base_url) {
        Ok(u) => u,
        Err(e) => {
            return Err(e);
        },
    };
    let token_trimmed = trim_str(token);
    let new_token: Option<String> = if token_trimmed.is_empty() {
        match token_of(current) {
            Some(t) => Some(t),
            None => {
                return Err(String::from_str("Token is required"));
            },
        }
    } else {
        Some(token_trimmed.to_owned())
    };
    let min_priority_merged = clamp_priority(
        match min_priority {
            Some(p) => p,
            None => current.min_priority,
        },
    );
    let cache_limit_merged = crate::normalize_cache_limit(
        match cache_limit {
            Some(c) => c,
            None => current.cache_limit,
        },
    );
    let quiet_start = match (quiet_hours_start, current.quiet_hours_start) {
        (Some(h), _) => Some(h % 24),
        (None, Some(h)) => Some(h % 24),
        (None, None) => None,
    };
    let quiet_end = match (quiet_hours_end, current.quiet_hours_end) {
        (Some(h), _) => Some(h % 24),
        (None, Some(h)) => Some(h % 24),
        (None, None) => None,
    };
    Ok(
        StoredSettings {
            base_url: normalized_url,
            token: new_token,
            min_priority: min_priority_merged,
            cache_limit: cache_limit_merged,
            launch_at_login: match launch_at_login {
                Some(b) => b,
                None => current.launch_at_login,
            },
            start_minimized_to_tray: match start_minimized_to_tray {
                Some(b) => b,
                None => current.start_minimized_to_tray,
            },
            pause_until: current.pause_until,
            pause_mode: clone_opt_string(&current.pause_mode),
            quiet_hours_start: quiet_start,
            quiet_hours_end: quiet_end,
        },
    )
}

/// What a connection test reports for the server's answer: plain success
/// for any 2xx, else an error naming the status and carrying the response
/// body, truncated for display.
pub fn connection_test_result(status: u16, body: &str) -> (r: Result<String, String>)
    ensures
        200 <= status < 300 ==> (r matches Ok(m) && m@ == "Connection successful"@),
        !(200 <= status < 300) ==> (r matches Err(e) && e@ == "Gotify request failed (HTTP "@
            + crate::digits::dec_rep(status as int) + "): "@ + crate::text::truncate_spec(
            body@,
            200,
        )),
{
    if 200 <= status && status < 300 {
        Ok(String::from_str("Connection successful"))
    } else {
        let mut e = String::from_str("Gotify request failed (HTTP ");
        let status_str = crate::digits::u64_to_dec(status as u64);
        e.append(status_str.as_str());
        e.append("): ");
        let shown = crate::text::truncate_message(body, 200);
        e.append(shown.as_str());
        Err(e)
    }
}

/// Where the settings file sits, once startup has registered it; asking
/// before registration is the startup-order fault the message names.
pub fn get_settings_path(registered: &Option<String>) -> (r: Result<&String, String>)
    ensures
        registered is Some ==> (r matches Ok(p) && p@ == registered.unwrap()@),
        registered is None ==> (r matches Err(e) && e@
            == "Settings path not initialised (setup not complete)"@),
{
    match registered {
        Some(p) => Ok(p),
        None => Err(String::from_str("Settings path not initialised (setup not complete)")),
    }
}

} // verus!
