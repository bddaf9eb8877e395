use vstd::prelude::*;

use crate::text::ends_with_ci;
use crate::text::ends_with_ci_exec;
use crate::text::eq_ci;
use crate::text::eq_ci_exec;
use crate::text::trim_end_char;
use crate::text::trim_end_char_spec;
use crate::text::trim_spec;
use crate::text::trim_str;

verus! {

/// A hostname as the blocklist sees it: whitespace trimmed, trailing dots
/// stripped; comparisons then fold ASCII case.
pub open spec fn normalized_host(h: Seq<char>) -> Seq<char> {
    trim_end_char_spec(trim_spec(h), '.')
}

/// Hostnames a link preview must never be fetched from: anything blank or
/// local, and the cloud metadata endpoints.
pub open spec fn blocked_hostname_spec(h: Seq<char>) -> bool {
    let n = normalized_host(h);
    n.len() == 0 || eq_ci(n, "localhost"@) || ends_with_ci(n, ".localhost"@) || eq_ci(
        n,
        "metadata"@,
    ) || eq_ci(n, "metadata.google.internal"@) || eq_ci(n, "metadata.azure.internal"@) || eq_ci(
        n,
        "instance-data.ec2.internal"@,
    )
}

pub fn is_blocked_preview_hostname(host: &str) -> (r: bool)
    ensures
        r == blocked_hostname_spec(host@),
{
    let normalized = trim_end_char(trim_str(host), '.');
    if normalized.is_empty() {
        return true;
    }
    if eq_ci_exec(normalized, "localhost") || ends_with_ci_exec(normalized, ".localhost") {
        return true;
    }
    eq_ci_exec(normalized, "metadata") || eq_ci_exec(normalized, "metadata.google.internal")
        || eq_ci_exec(normalized, "metadata.azure.internal") || eq_ci_exec(
        normalized,
        "instance-data.ec2.internal",
    )
}

/// Why a preview target with this IPv4 address is refused, if it is:
/// unspecified, loopback and link-local ranges, and the pinned metadata
/// service addresses.
pub fn preview_block_reason_v4(a: u8, b: u8, c: u8, d: u8) -> (r: Option<&'static str>)
    ensures
        a == 0 && b == 0 && c == 0 && d == 0 ==> (r matches Some(m) && m@ == "unspecified"@),
        a == 127 ==> (r matches Some(m) && m@ == "loopback"@),
        a == 169 && b == 254 ==> (r matches Some(m) && m@ == "link-local"@),
        a == 100 && b == 100 && c == 100 && d == 200 ==> (r matches Some(m) && m@
            == "metadata endpoint"@),
        !(a == 0 && b == 0 && c == 0 && d == 0) && a != 127 && !(a == 169 && b == 254) && !(a == 100
            && b == 100 && c == 100 && d == 200) ==> r is None,
{
    if a == 0 && b == 0 && c == 0 && d == 0 {
        return Some("unspecified");
    }
    if a == 127 {
        return Some("loopback");
    }
    if a == 169 && b == 254 {
        return Some("link-local");
    }
    if a == 100 && b == 100 && c == 100 && d == 200 {
        return Some("metadata endpoint");
    }
    None
}

/// Why a preview target with this IPv6 address (as eight segments) is
/// refused, if it is: unspecified, loopback, unicast link-local, and the
/// pinned metadata service address.
pub fn preview_block_reason_v6(
    s0: u16,
    s1: u16,
    s2: u16,
    s3: u16,
    s4: u16,
    s5: u16,
    s6: u16,
    s7: u16,
) -> (r: Option<&'static str>)
    ensures
        s0 == 0 && s1 == 0 && s2 == 0 && s3 == 0 && s4 == 0 && s5 == 0 && s6 == 0 && s7 == 0 ==> (
        r matches Some(m) && m@ == "unspecified"@),
        s0 == 0 && s1 == 0 && s2 == 0 && s3 == 0 && s4 == 0 && s5 == 0 && s6 == 0 && s7 == 1 ==> (
        r matches Some(m) && m@ == "loopback"@),
        s0 & 0xffc0 == 0xfe80 ==> (r matches Some(m) && m@ == "link-local"@),
        s0 == 0xfd00 && s1 == 0x0ec2 && s2 == 0 && s3 == 0 && s4 == 0 && s5 == 0 && s6 == 0 && s7
            == 0x0254 ==> (r matches Some(m) && m@ == "metadata endpoint"@),
        !(s0 == 0 && s1 == 0 && s2 == 0 && s3 == 0 && s4 == 0 && s5 == 0 && s6 == 0 && (s7 == 0
            || s7 == 1)) && s0 & 0xffc0 != 0xfe80 && !(s0 == 0xfd00 && s1 == 0x0ec2 && s2 == 0 && s3
            == 0 && s4 == 0 && s5 == 0 && s6 == 0 && s7 == 0x0254) ==> r is None,
{
    proof {
        assert((s0 & 0xffc0 == 0xfe80) ==> s0 != 0 && s0 != 0xfd00) by (bit_vector);
    }
    if s0 == 0 && s1 == 0 && s2 == 0 && s3 == 0 && s4 == 0 && s5 == 0 && s6 == 0 {
        if s7 == 0 {
            return Some("unspecified");
        }
        if s7 == 1 {
            return Some("loopback");
        }
    }
    if s0 & 0xffc0 == 0xfe80 {
        return Some("link-local");
    }
    if s0 == 0xfd00 && s1 == 0x0ec2 && s2 == 0 && s3 == 0 && s4 == 0 && s5 == 0 && s6 == 0 && s7
        == 0x0254 {
        return Some("metadata endpoint");
    }
    None
}

} // verus!
