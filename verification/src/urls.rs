use vstd::prelude::*;

use crate::digits::dec_rep;
use crate::digits::dec_rep_i64;
use crate::digits::i64_to_dec;
use crate::digits::u64_to_dec;
use crate::text::eq_ci;
use crate::text::eq_ci_exec;
use crate::text::str_eq_exec;
use crate::text::trim_end_char;
use crate::text::trim_end_char_spec;
use crate::text::trim_spec;
use crate::text::trim_str;

verus! {

/// The scheme of the URL that the characters denote, or `None` where they
/// do not parse as a URL. Fixed by the characters alone; only the parser
/// below computes it.
pub uninterp spec fn parsed_scheme_of(s: Seq<char>) -> Option<Seq<char>>;

/// The (normalized) path of the URL that the characters denote; only
/// meaningful where they parse as a URL.
pub uninterp spec fn parsed_path_of(s: Seq<char>) -> Seq<char>;

/// The string form of the URL the characters denote, after its scheme and
/// path are replaced; only meaningful where the replacement is admissible.
pub uninterp spec fn rebuilt_url_of(s: Seq<char>, scheme: Seq<char>, path: Seq<char>) -> Seq<
    char,
>;

/// Relies on url's `Url::parse` and `Url::scheme`: a parsed URL's scheme
/// is a function of the input characters alone, and parsing never panics.
#[verifier::external_body]
fn parse_url_scheme(s: &str) -> (r: Option<String>)
    ensures
        r is Some <==> parsed_scheme_of(s@) is Some,
        r is Some ==> r.unwrap()@ == parsed_scheme_of(s@).unwrap(),
{
    url::Url::parse(s).ok().map(|u| u.scheme().to_string())
}

/// Relies on url's `Url::parse` and `Url::path`: a parsed URL's path is a
/// function of the input characters alone; parse failure is the same
/// condition `parsed_scheme_of` reports.
#[verifier::external_body]
fn parse_url_path(s: &str) -> (r: Option<String>)
    ensures
        r is Some <==> parsed_scheme_of(s@) is Some,
        r is Some ==> r.unwrap()@ == parsed_path_of(s@),
{
    url::Url::parse(s).ok().map(|u| u.path().to_string())
}

/// Relies on url's `Url::parse`, `Url::set_scheme`, `Url::set_path` and
/// `Display`: the rebuilt string is a function of the input characters
/// alone, and changing an http URL's scheme to ws (an https URL's to wss)
/// cannot fail, both sides being "special" schemes with a host.
#[verifier::external_body]
fn rebuild_url(s: &str, scheme: &str, path: &str) -> (r: Option<String>)
    ensures
        ((parsed_scheme_of(s@) == Some("http"@) && scheme@ == "ws"@) || (parsed_scheme_of(s@)
            == Some("https"@) && scheme@ == "wss"@)) ==> r is Some,
        r is Some ==> r.unwrap()@ == rebuilt_url_of(s@, scheme@, path@),
{
    let mut u = match url::Url::parse(s) {
        Ok(u) => u,
        Err(_) => return None,
    };
    if u.set_scheme(scheme).is_err() {
        return None;
    }
    u.set_path(path);
    Some(u.to_string())
}

/// The base URL a configuration is kept as: trimmed of whitespace and
/// trailing slashes, and required to be a well-formed http(s) URL.
pub fn normalize_base_url(input: &str) -> (r: Result<String, String>)
    ensures
        ({
            let t = trim_end_char_spec(trim_spec(input@), '/');
            &&& (t.len() == 0 ==> (r matches Err(e) && e@ == "Server URL is required"@))
            &&& (t.len() > 0 && (parsed_scheme_of(t) is None) ==> (r matches Err(e) && e@
                == "Invalid server URL"@))
            &&& (t.len() > 0 && (parsed_scheme_of(t) is Some) ==> (if parsed_scheme_of(t) == Some(
                "http"@,
            ) || parsed_scheme_of(t) == Some("https"@) {
                r matches Ok(u) && u@ == t
            } else {
                r matches Err(e) && e@ == "Server URL must start with http:// or https://"@
            }))
        }),
{
    let trimmed = trim_end_char(trim_str(input), '/');
    if trimmed.is_empty() {
        return Err(String::from_str("Server URL is required"));
    }
    match parse_url_scheme(trimmed) {
        None => Err(String::from_str("Invalid server URL")),
        Some(scheme) => {
            if str_eq_exec(scheme.as_str(), "http") || str_eq_exec(scheme.as_str(), "https") {
                Ok(trimmed.to_owned())
            } else {
                Err(String::from_str("Server URL must start with http:// or https://"))
            }
        },
    }
}

/// The path the streaming endpoint sits on: the base URL's path without
/// trailing slashes, with the fixed stream suffix appended.
pub open spec fn stream_path_spec(base_path: Seq<char>) -> Seq<char> {
    trim_end_char_spec(base_path, '/') + "/stream"@
}

/// The streaming endpoint for a base URL: scheme mapped http to ws (https
/// to wss), path extended by the fixed stream suffix. Anything but an
/// http(s) URL is rejected.
pub fn build_stream_ws_url(base_url: &str) -> (r: Result<String, String>)
    ensures
        ({
            let sch = parsed_scheme_of(base_url@);
            &&& (sch is None ==> (r matches Err(e) && e@ == "Invalid server URL"@))
            &&& ((sch is Some) && sch != Some("http"@) && sch != Some("https"@) ==> (r matches Err(e)
                && e@ == "Server URL must start with http:// or https://"@))
            &&& (sch == Some("http"@) ==> (r matches Ok(u) && u@ == rebuilt_url_of(
                base_url@,
                "ws"@,
                stream_path_spec(parsed_path_of(base_url@)),
            )))
            &&& (sch == Some("https"@) ==> (r matches Ok(u) && u@ == rebuilt_url_of(
                base_url@,
                "wss"@,
                stream_path_spec(parsed_path_of(base_url@)),
            )))
        }),
{
    proof {
        reveal_strlit("http");
        reveal_strlit("https");
    }
    let scheme = match parse_url_scheme(base_url) {
        None => {
            return Err(String::from_str("Invalid server URL"));
        },
        Some(s) => s,
    };
    let target: &str = if str_eq_exec(scheme.as_str(), "http") {
        "ws"
    } else if str_eq_exec(scheme.as_str(), "https") {
        "wss"
    } else {
        return Err(String::from_str("Server URL must start with http:// or https://"));
    };
    let path = match parse_url_path(base_url) {
        None => {
            return Err(String::from_str("Invalid server URL"));
        },
        Some(p) => p,
    };
    let mut ws_path = trim_end_char(path.as_str(), '/').to_owned();
    ws_path.append("/stream");
    proof {
        // the scheme literals differ in length, so only one branch can
        // have bound `target`
        assert("http"@.len() == 4);
        assert("https"@.len() == 5);
        assert(ws_path@ == stream_path_spec(parsed_path_of(base_url@)));
        assert(parsed_scheme_of(base_url@) == Some("http"@) ==> target@ == "ws"@);
        assert(parsed_scheme_of(base_url@) == Some("https"@) ==> target@ == "wss"@);
    }
    match rebuild_url(base_url, target, ws_path.as_str()) {
        Some(u) => Ok(u),
        None => Err(String::from_str("Server URL must start with http:// or https://")),
    }
}

/// Whether a link handed to the OS opener is acceptable: trimmed, it must
/// parse, and its scheme must be http, https or mailto.
pub fn check_external_url(raw: &str) -> (r: Result<String, String>)
    ensures
        ({
            let t = trim_spec(raw@);
            &&& (t.len() == 0 ==> (r matches Err(e) && e@ == "Missing URL"@))
            &&& (t.len() > 0 && (parsed_scheme_of(t) is None) ==> (r matches Err(e) && e@
                == "Invalid URL"@))
            &&& (t.len() > 0 && (parsed_scheme_of(t) is Some) ==> (if eq_ci(
                parsed_scheme_of(t).unwrap(),
                "http"@,
            ) || eq_ci(parsed_scheme_of(t).unwrap(), "https"@) || eq_ci(
                parsed_scheme_of(t).unwrap(),
                "mailto"@,
            ) {
                r matches Ok(u) && u@ == t
            } else {
                r matches Err(e) && e@ == "Unsupported URL scheme: "@ + parsed_scheme_of(
                    t,
                ).unwrap()
            }))
        }),
{
    let candidate = trim_str(raw);
    if candidate.is_empty() {
        return Err(String::from_str("Missing URL"));
    }
    match parse_url_scheme(candidate) {
        None => Err(String::from_str("Invalid URL")),
        Some(scheme) => {
            if eq_ci_exec(scheme.as_str(), "http") || eq_ci_exec(scheme.as_str(), "https")
                || eq_ci_exec(scheme.as_str(), "mailto") {
                Ok(candidate.to_owned())
            } else {
                let mut e = String::from_str("Unsupported URL scheme: ");
                e.append(scheme.as_str());
                Err(e)
            }
        },
    }
}

/// The paginated history endpoint: page size, and the exclusive older-than
/// cursor where one is known.
pub fn recent_messages_endpoint(base_url: &str, limit: usize, since: Option<i64>) -> (r: String)
    ensures
        r@ == base_url@ + "/message?limit="@ + dec_rep(limit as int) + (match since {
            Some(c) => "&since="@ + dec_rep_i64(c as int),
            None => Seq::<char>::empty(),
        }),
{
    let mut out = String::from_str(base_url);
    out.append("/message?limit=");
    let limit_str = u64_to_dec(limit as u64);
    out.append(limit_str.as_str());
    match since {
        Some(c) => {
            out.append("&since=");
            let cursor_str = i64_to_dec(c);
            out.append(cursor_str.as_str());
        },
        None => {},
    }
    out
}

/// The application-list endpoint.
pub fn applications_endpoint(base_url: &str) -> (r: String)
    ensures
        r@ == base_url@ + "/application"@,
{
    let mut out = String::from_str(base_url);
    out.append("/application");
    out
}

/// The endpoint a message is deleted at.
pub fn delete_message_endpoint(base_url: &str, message_id: i64) -> (r: String)
    ensures
        r@ == base_url@ + "/message/"@ + dec_rep_i64(message_id as int),
{
    let mut out = String::from_str(base_url);
    out.append("/message/");
    let id_str = i64_to_dec(message_id);
    out.append(id_str.as_str());
    out
}

/// Which id a delete request names: the snake_case field wins over its
/// camelCase twin, a missing id and a non-positive id are rejected.
pub fn validate_delete_request(message_id: Option<i64>, message_id_alt: Option<i64>) -> (r: Result<
    i64,
    String,
>)
    ensures
        message_id is None && message_id_alt is None ==> (r matches Err(e) && e@
            == "Missing message id"@),
        ({
            let chosen = if message_id is Some {
                message_id
            } else {
                message_id_alt
            };
            chosen matches Some(id) ==> (if id <= 0 {
                r matches Err(e) && e@ == "Invalid message id"@
            } else {
                r == Ok::<i64, String>(id)
            })
        }),
{
    let chosen = match message_id {
        Some(id) => Some(id),
        None => message_id_alt,
    };
    match chosen {
        None => Err(String::from_str("Missing message id")),
        Some(id) => {
            if id <= 0 {
                Err(String::from_str("Invalid message id"))
            } else {
                Ok(id)
            }
        },
    }
}

/// Whether the server's answer to a delete counts as success: any 2xx, and
/// 404 for an already absent message — deleting twice succeeds twice.
pub fn delete_status_acceptable(status: u16) -> (r: bool)
    ensures
        r == ((200 <= status && status < 300) || status == 404),
{
    (200 <= status && status < 300) || status == 404
}

} // verus!
