use vstd::prelude::*;

use crate::text::contains_ci;
use crate::text::contains_ci_exec;
use crate::text::starts_with_ci;
use crate::text::starts_with_ci_exec;
use crate::text::starts_with_exec;
use crate::text::starts_with_spec;
use crate::text::trim_spec;
use crate::text::trim_str;

verus! {

/// The bytes a standard-alphabet base64 string decodes to, or `None` where
/// it is not valid base64. Fixed by the characters alone; only the decoder
/// below computes it.
pub uninterp spec fn base64_standard_decode_of(s: Seq<char>) -> Option<Seq<u8>>;

/// Relies on base64's `Engine::decode` with the STANDARD engine: the
/// decoded bytes are a function of the input characters alone, and
/// decoding never panics.
#[verifier::external_body]
fn b64_decode_standard(s: &str) -> (r: Option<Vec<u8>>)
    ensures
        r is Some <==> base64_standard_decode_of(s@) is Some,
        r is Some ==> r.unwrap()@ == base64_standard_decode_of(s@).unwrap(),
{
    base64::Engine::decode(&base64::engine::general_purpose::STANDARD, s).ok()
}

/// The position of the first comma, splitting a data URL into its metadata
/// and payload.
pub open spec fn first_comma(s: Seq<char>) -> Option<int>
    decreases s.len(),
{
    if s.len() == 0 {
        None
    } else if s[0] == ',' {
        Some(0)
    } else {
        match first_comma(s.drop_first()) {
            Some(k) => Some(k + 1),
            None => None,
        }
    }
}

proof fn lemma_first_comma_at(s: Seq<char>, j: int)
    requires
        0 <= j < s.len(),
        s[j] == ',',
        forall|k: int| 0 <= k < j ==> s[k] != ',',
    ensures
        first_comma(s) == Some(j),
    decreases j,
{
    if j == 0 {
    } else {
        let rest = s.drop_first();
        assert(forall|k: int| 0 <= k < j - 1 ==> rest[k] == s[k + 1]);
        assert(rest[j - 1] == s[j]);
        lemma_first_comma_at(rest, j - 1);
    }
}

proof fn lemma_first_comma_none(s: Seq<char>)
    requires
        forall|k: int| 0 <= k < s.len() ==> s[k] != ',',
    ensures
        first_comma(s) is None,
    decreases s.len(),
{
    if s.len() > 0 {
        let rest = s.drop_first();
        assert(forall|k: int| 0 <= k < rest.len() ==> rest[k] == s[k + 1]);
        lemma_first_comma_none(rest);
    }
}

/// What to do with a fetched application icon response.
#[derive(Clone, Copy, PartialEq, Eq, Structural, Debug)]
pub enum IconDecision {
    /// The response does not declare an image content type: refuse it.
    NotImage,
    /// The body is empty: keep no icon, without an error.
    Skip,
    /// The body passes the size cap: keep it as the icon.
    Keep,
    /// The body is over the size cap: refuse it.
    TooLarge,
}

/// Whether a fetched application icon may be kept: the declared content
/// type must name an image (folding ASCII case), an empty body yields no
/// icon, and the body must fit the icon size cap.
pub fn icon_response_decision(content_type: &str, body_len: usize) -> (r: IconDecision)
    ensures
        !starts_with_ci(content_type@, "image/"@) ==> r == IconDecision::NotImage,
        starts_with_ci(content_type@, "image/"@) && body_len == 0 ==> r == IconDecision::Skip,
        starts_with_ci(content_type@, "image/"@) && 0 < body_len <= crate::consts::APP_ICON_MAX_BYTES
            ==> r == IconDecision::Keep,
        starts_with_ci(content_type@, "image/"@) && body_len > crate::consts::APP_ICON_MAX_BYTES
            ==> r == IconDecision::TooLarge,
{
    if !starts_with_ci_exec(content_type, "image/") {
        IconDecision::NotImage
    } else if body_len == 0 {
        IconDecision::Skip
    } else if body_len > crate::consts::APP_ICON_MAX_BYTES {
        IconDecision::TooLarge
    } else {
        IconDecision::Keep
    }
}

/// Pull the bytes out of a `data:` URL carrying a base64-encoded image.
/// The URL is trimmed; its metadata (before the first comma) must name an
/// image type and the base64 marker, case-insensitively; the payload
/// (after the comma, trimmed) must decode; and the decoded size is capped.
pub fn decode_data_url_bytes(data_url: &str, max_bytes: usize) -> (r: Result<Vec<u8>, String>)
    ensures
        ({
            let t = trim_spec(data_url@);
            &&& (!starts_with_spec(t, "data:"@) ==> (r matches Err(e) && e@ == "Not a data URL"@))
            &&& (starts_with_spec(t, "data:"@) && (first_comma(t) is None) ==> (r matches Err(e)
                && e@ == "Malformed data URL"@))
            &&& (starts_with_spec(t, "data:"@) && (first_comma(t) is Some) ==> {
                let j = first_comma(t).unwrap();
                let meta = t.subrange(0, j);
                let payload = trim_spec(t.subrange(j + 1, t.len() as int));
                if !starts_with_ci(meta, "data:image/"@) {
                    r matches Err(e) && e@ == "Data URL is not an image"@
                } else if !contains_ci(meta, ";base64"@) {
                    r matches Err(e) && e@ == "Data URL is not base64 encoded"@
                } else {
                    match base64_standard_decode_of(payload) {
                        None => r matches Err(e) && e@ == "Invalid base64 payload"@,
                        Some(bytes) => if bytes.len() > max_bytes {
                            r matches Err(e) && e@ == "Data URL image too large"@
                        } else {
                            r matches Ok(v) && v@ == bytes
                        },
                    }
                }
            })
        }),
{
    let trimmed = trim_str(data_url);
    if !starts_with_exec(trimmed, "data:") {
        return Err(String::from_str("Not a data URL"));
    }
    let n: usize = trimmed.unicode_len();
    let mut j: usize = 0;
    let mut found: bool = false;
    while j < n && !found
        invariant
            j <= n == trimmed@.len(),
            found ==> j < n && trimmed@[j as int] == ',',
            forall|k: int| 0 <= k < j ==> trimmed@[k] != ',',
        decreases n - j, (if found {
            0int
        } else {
            1int
        }),
    {
        if trimmed.get_char(j) == ',' {
            found = true;
        } else {
            j = j + 1;
        }
    }
    if !found {
        proof {
            lemma_first_comma_none(trimmed@);
        }
        return Err(String::from_str("Malformed data URL"));
    }
    proof {
        lemma_first_comma_at(trimmed@, j as int);
    }
    let meta = trimmed.substring_char(0, j);
    let payload_raw = trimmed.substring_char(j + 1, n);
    if !starts_with_ci_exec(meta, "data:image/") {
        return Err(String::from_str("Data URL is not an image"));
    }
    if !contains_ci_exec(meta, ";base64") {
        return Err(String::from_str("Data URL is not base64 encoded"));
    }
    let payload = trim_str(payload_raw);
    match b64_decode_standard(payload) {
        None => Err(String::from_str("Invalid base64 payload")),
        Some(bytes) => {
            if bytes.len() > max_bytes {
                Err(String::from_str("Data URL image too large"))
            } else {
                Ok(bytes)
            }
        },
    }
}

} // verus!
