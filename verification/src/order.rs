use vstd::prelude::*;

use crate::message::CachedMessage;

verus! {

/// The epoch second that an RFC 3339 timestamp string denotes, or `None`
/// where the string is not a valid RFC 3339 timestamp. The value is fixed
/// by the characters alone; only the parser below is trusted to compute it.
pub uninterp spec fn rfc3339_epoch_of(s: Seq<char>) -> Option<i64>;

/// Relies on chrono's `DateTime::parse_from_rfc3339` and
/// `DateTime::timestamp`: the parsed epoch second is a function of the
/// input characters alone, and parsing never panics.
#[verifier::external_body]
pub fn parse_rfc3339_epoch(s: &str) -> (r: Option<i64>)
    ensures
        r == rfc3339_epoch_of(s@),
{
    chrono::DateTime::parse_from_rfc3339(s).map(|v| v.timestamp()).ok()
}

/// The cache ordering rule: newest first by timestamp, entries with an
/// unparsable timestamp after all entries with a valid one, ties and
/// unparsable pairs by descending id.
pub open spec fn msg_le(a: CachedMessage, b: CachedMessage) -> bool {
    match (rfc3339_epoch_of(a.date@), rfc3339_epoch_of(b.date@)) {
        (Some(ta), Some(tb)) => ta > tb || (ta == tb && a.id >= b.id),
        (Some(ta), None) => true,
        (None, Some(tb)) => false,
        (None, None) => a.id >= b.id,
    }
}

/// Strict version of the ordering rule: `a` comes before `b` and they do
/// not share a position in the order.
pub open spec fn msg_lt(a: CachedMessage, b: CachedMessage) -> bool {
    msg_le(a, b) && !msg_le(b, a)
}

pub proof fn lemma_msg_le_total(a: CachedMessage, b: CachedMessage)
    ensures
        msg_le(a, b) || msg_le(b, a),
{
}

pub proof fn lemma_msg_le_trans(a: CachedMessage, b: CachedMessage, c: CachedMessage)
    requires
        msg_le(a, b),
        msg_le(b, c),
    ensures
        msg_le(a, c),
{
}

/// Two messages share a position in the order only when their parsed
/// timestamps agree and their ids agree; distinct ids therefore order
/// strictly.
pub proof fn lemma_msg_le_antisym_ids(a: CachedMessage, b: CachedMessage)
    requires
        msg_le(a, b),
        msg_le(b, a),
    ensures
        a.id == b.id,
{
}

pub fn msg_le_exec(a: &CachedMessage, b: &CachedMessage) -> (r: bool)
    ensures
        r == msg_le(*a, *b),
{
    let ta = parse_rfc3339_epoch(a.date.as_str());
    let tb = parse_rfc3339_epoch(b.date.as_str());
    match (ta, tb) {
        (Some(x), Some(y)) => x > y || (x == y && a.id >= b.id),
        (Some(_), None) => true,
        (None, Some(_)) => false,
        (None, None) => a.id >= b.id,
    }
}

} // verus!
