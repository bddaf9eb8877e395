use vstd::prelude::*;

use crate::message::CachedMessage;
use crate::message::clone_messages;
use crate::norm::contains_id;
use crate::norm::dedup_ids;
use crate::norm::dedup_messages;
use crate::norm::lemma_contains_id_unsnoc;
use crate::norm::lemma_dedup_ids_props;
use crate::norm::lemma_normalize_props;
use crate::norm::normalize_messages;
use crate::norm::normalize_seq;
use crate::norm::sorted;
use crate::norm::unique_ids;
use crate::order::msg_le;

verus! {

/// Every entry of the sequence whose id differs from `id`, in order.
pub open spec fn remove_id(s: Seq<CachedMessage>, id: i64) -> Seq<CachedMessage>
    decreases s.len(),
{
    if s.len() == 0 {
        Seq::<CachedMessage>::empty()
    } else if s.last().id == id {
        remove_id(s.drop_last(), id)
    } else {
        remove_id(s.drop_last(), id).push(s.last())
    }
}

pub proof fn lemma_remove_id_absent(s: Seq<CachedMessage>, id: i64)
    requires
        !contains_id(s, id),
    ensures
        remove_id(s, id) == s,
    decreases s.len(),
{
    if s.len() > 0 {
        let pre = s.drop_last();
        lemma_contains_id_unsnoc(s, id);
        lemma_remove_id_absent(pre, id);
        assert(remove_id(s, id) =~= s);
    }
}

pub proof fn lemma_remove_id_props(s: Seq<CachedMessage>, id: i64)
    ensures
        remove_id(s, id).len() <= s.len(),
        !contains_id(remove_id(s, id), id),
        forall|o: i64| o != id ==> (#[trigger] contains_id(remove_id(s, id), o) <==> contains_id(
            s,
            o,
        )),
        forall|x: CachedMessage| #[trigger] remove_id(s, id).contains(x) ==> s.contains(x),
        unique_ids(s) ==> unique_ids(remove_id(s, id)),
    decreases s.len(),
{
    if s.len() == 0 {
    } else {
        let pre = s.drop_last();
        let last = s.last();
        lemma_remove_id_props(pre, id);
        let rpre = remove_id(pre, id);
        let r = remove_id(s, id);
        assert(s.contains(last)) by {
            assert(s[s.len() - 1] == last);
        }
        assert forall|x: CachedMessage| #[trigger] pre.contains(x) implies s.contains(x) by {
            let k = choose|k: int| 0 <= k < pre.len() && pre[k] == x;
            assert(s[k] == x);
        }
        assert(unique_ids(s) ==> unique_ids(pre)) by {
            if unique_ids(s) {
                assert(forall|i: int, j: int|
                    0 <= i < j < pre.len() ==> pre[i] == s[i] && pre[j] == s[j]);
            }
        }
        if last.id == id {
            assert(r == rpre);
            assert forall|o: i64| o != id implies (#[trigger] contains_id(r, o) <==> contains_id(
                s,
                o,
            )) by {
                lemma_contains_id_unsnoc(s, o);
            }
        } else {
            assert(r == rpre.push(last));
            assert(r.drop_last() =~= rpre);
            assert(r.last() == last);
            assert(!contains_id(r, id)) by {
                lemma_contains_id_unsnoc(r, id);
            }
            assert forall|o: i64| o != id implies (#[trigger] contains_id(r, o) <==> contains_id(
                s,
                o,
            )) by {
                lemma_contains_id_unsnoc(r, o);
                lemma_contains_id_unsnoc(s, o);
            }
            assert forall|x: CachedMessage| #[trigger] r.contains(x) implies s.contains(x) by {
                let k = choose|k: int| 0 <= k < r.len() && r[k] == x;
                if k < r.len() - 1 {
                    assert(rpre[k] == x);
                    assert(rpre.contains(x));
                }
            }
            if unique_ids(s) {
                assert(!contains_id(pre, last.id)) by {
                    if contains_id(pre, last.id) {
                        let i = choose|i: int| 0 <= i < pre.len() && pre[i].id == last.id;
                        assert(s[i].id == s[s.len() - 1].id);
                    }
                }
                assert(!contains_id(rpre, last.id));
                assert forall|i: int, j: int| 0 <= i < j < r.len() implies r[i].id != r[j].id by {
                    if j == r.len() - 1 {
                        assert(r[i] == rpre[i]);
                        if r[i].id == last.id {
                            assert(contains_id(rpre, last.id));
                        }
                    } else {
                        assert(r[i] == rpre[i] && r[j] == rpre[j]);
                    }
                }
            }
        }
    }
}

/// Where the first occurrence of `id` sits at `p` and no other entry has
/// that id, dropping the id is exactly cutting out position `p`.
pub proof fn lemma_remove_id_split(s: Seq<CachedMessage>, id: i64, p: int)
    requires
        0 <= p < s.len(),
        s[p].id == id,
        forall|k: int| 0 <= k < s.len() && k != p ==> s[k].id != id,
    ensures
        remove_id(s, id) == s.subrange(0, p) + s.subrange(p + 1, s.len() as int),
    decreases s.len(),
{
    let pre = s.drop_last();
    if p == s.len() - 1 {
        assert(!contains_id(pre, id)) by {
            if contains_id(pre, id) {
                let i = choose|i: int| 0 <= i < pre.len() && pre[i].id == id;
                assert(s[i].id == id);
            }
        }
        lemma_remove_id_absent(pre, id);
        assert(remove_id(s, id) =~= s.subrange(0, p) + s.subrange(p + 1, s.len() as int));
    } else {
        assert(forall|k: int| 0 <= k < pre.len() && k != p ==> pre[k] == s[k]);
        assert(pre[p] == s[p]);
        lemma_remove_id_split(pre, id, p);
        assert(s.last().id != id);
        assert(remove_id(s, id) == remove_id(pre, id).push(s.last()));
        assert(remove_id(s, id) =~= s.subrange(0, p) + s.subrange(p + 1, s.len() as int));
    }
}

/// What one live upsert does to the cache contents: the incoming message
/// goes to the front, any entry with the same id goes away, and the tail
/// is cut to the limit.
pub open spec fn upsert_step(
    cache: Seq<CachedMessage>,
    m: CachedMessage,
    limit: int,
) -> Seq<CachedMessage> {
    let merged = seq![m] + remove_id(cache, m.id);
    if merged.len() <= limit {
        merged
    } else {
        merged.subrange(0, limit)
    }
}

/// However the cache mutates through live upserts, it never exceeds the
/// limit and never holds two entries with one id.
pub proof fn lemma_upsert_invariant(cache: Seq<CachedMessage>, m: CachedMessage, limit: int)
    requires
        unique_ids(cache),
        limit >= 1,
    ensures
        unique_ids(upsert_step(cache, m, limit)),
        upsert_step(cache, m, limit).len() <= limit,
        contains_id(upsert_step(cache, m, limit), m.id),
        upsert_step(cache, m, limit)[0] == m,
{
    lemma_remove_id_props(cache, m.id);
    let removed = remove_id(cache, m.id);
    let merged = seq![m] + removed;
    assert(merged[0] == m);
    assert(forall|i: int| 1 <= i < merged.len() ==> merged[i] == removed[i - 1]);
    assert forall|i: int, j: int| 0 <= i < j < merged.len() implies merged[i].id
        != merged[j].id by {
        if i == 0 {
            if merged[j].id == m.id {
                assert(removed[j - 1].id == m.id);
                assert(contains_id(removed, m.id));
            }
        }
    }
    let r = upsert_step(cache, m, limit);
    if merged.len() <= limit {
        assert(r == merged);
    } else {
        assert(r == merged.subrange(0, limit));
        assert(forall|i: int| 0 <= i < limit ==> r[i] == merged[i]);
    }
    assert(r[0] == m);
    assert(contains_id(r, m.id));
}

/// Pointwise equality of the fields that a reconciliation compares:
/// id, timestamp string, priority, title and body.
pub open spec fn content_eq_at(a: CachedMessage, b: CachedMessage) -> bool {
    a.id == b.id && a.date@ == b.date@ && a.priority == b.priority && a.title@ == b.title@
        && a.message@ == b.message@
}

pub open spec fn content_eq(x: Seq<CachedMessage>, y: Seq<CachedMessage>) -> bool {
    x.len() == y.len() && forall|i: int| 0 <= i < x.len() ==> content_eq_at(x[i], y[i])
}

pub proof fn lemma_content_eq_refl(x: Seq<CachedMessage>)
    ensures
        content_eq(x, x),
{
}

/// The ordering rule and id uniqueness read only compared fields, so they
/// carry across content equality.
pub proof fn lemma_content_eq_order(x: Seq<CachedMessage>, y: Seq<CachedMessage>)
    requires
        content_eq(x, y),
    ensures
        sorted(y) ==> sorted(x),
        unique_ids(y) ==> unique_ids(x),
{
    if sorted(y) {
        assert forall|i: int, j: int| 0 <= i < j < x.len() implies msg_le(x[i], x[j]) by {
            assert(content_eq_at(x[i], y[i]));
            assert(content_eq_at(x[j], y[j]));
            assert(msg_le(y[i], y[j]));
        }
    }
    if unique_ids(y) {
        assert forall|i: int, j: int| 0 <= i < j < x.len() implies x[i].id != x[j].id by {
            assert(content_eq_at(x[i], y[i]));
            assert(content_eq_at(x[j], y[j]));
        }
    }
}

/// What one reconciliation does: where the cache already matches the
/// normalized page content, nothing moves and no change is reported;
/// otherwise the normalized page replaces the cache wholesale.
pub open spec fn reconcile_step(
    cache: Seq<CachedMessage>,
    fresh: Seq<CachedMessage>,
    limit: int,
) -> (Seq<CachedMessage>, bool) {
    let norm = normalize_seq(fresh, limit);
    if content_eq(cache, norm) {
        (cache, false)
    } else {
        (norm, true)
    }
}

/// Reconciling a second time with the same page, after one reconciliation
/// already brought the cache to that page, moves nothing and reports no
/// change: no persistence write and no change event follow.
pub proof fn lemma_reconcile_idempotent(
    cache: Seq<CachedMessage>,
    fresh: Seq<CachedMessage>,
    limit: int,
)
    ensures
        ({
            let first = reconcile_step(cache, fresh, limit);
            let second = reconcile_step(first.0, fresh, limit);
            second.0 == first.0 && !second.1
        }),
{
    let norm = normalize_seq(fresh, limit);
    lemma_content_eq_refl(norm);
    let first = reconcile_step(cache, fresh, limit);
    if content_eq(cache, norm) {
    } else {
        assert(first.0 == norm);
    }
}

/// Removing an id twice removes nothing the second time.
pub proof fn lemma_remove_idempotent(s: Seq<CachedMessage>, id: i64)
    ensures
        remove_id(remove_id(s, id), id) == remove_id(s, id),
{
    lemma_remove_id_props(s, id);
    lemma_remove_id_absent(remove_id(s, id), id);
}

/// The in-memory message cache: an ordered, deduplicated, size-bounded
/// sequence of messages, newest first.
pub struct MessageCache {
    pub entries: Vec<CachedMessage>,
}

/// What came out of reading the persisted cache at startup: the entries to
/// start from, and whether a corrupt file must be renamed aside.
pub struct LoadOutcome {
    pub messages: Vec<CachedMessage>,
    pub quarantine_corrupt: bool,
}

impl MessageCache {
    /// The cache's standing invariant: no two entries share an id.
    pub open spec fn wf(self) -> bool {
        unique_ids(self.entries@)
    }

    pub fn new() -> (c: MessageCache)
        ensures
            c.entries@.len() == 0,
            c.wf(),
    {
        MessageCache { entries: Vec::new() }
    }

    /// Start from entries read back from disk; entries with a repeated id
    /// (a tampered or damaged file) lose all but their first occurrence.
    pub fn hydrate(entries: Vec<CachedMessage>) -> (c: MessageCache)
        ensures
            unique_ids(entries@) ==> c.entries@ == entries@,
            !unique_ids(entries@) ==> c.entries@ == dedup_ids(entries@),
            c.wf(),
    {
        proof {
            lemma_dedup_ids_props(entries@);
        }
        let d = dedup_messages(&entries);
        if d.len() == entries.len() {
            MessageCache { entries }
        } else {
            MessageCache { entries: d }
        }
    }

    /// Insert a live message at the front, replacing any entry with the
    /// same id, and cut the cache to the limit. Returns whether the id is
    /// newly seen; only a newly seen id may alert the user.
    pub fn upsert_front(&mut self, m: CachedMessage, limit: usize) -> (fresh: bool)
        requires
            old(self).wf(),
            limit >= 1,
        ensures
            final(self).entries@ == upsert_step(old(self).entries@, m, limit as int),
            fresh == !contains_id(old(self).entries@, m.id),
            final(self).wf(),
            final(self).entries@.len() <= limit,
            final(self).entries@[0] == m,
    {
        let ghost s0 = self.entries@;
        let mut pos: Option<usize> = None;
        let mut k: usize = 0;
        while k < self.entries.len() && pos.is_none()
            invariant
                k <= self.entries.len(),
                self.entries@ == s0,
                match pos {
                    Some(p) => p < k && s0[p as int].id == m.id && (forall|i: int|
                        0 <= i < p ==> s0[i].id != m.id),
                    None => forall|i: int| 0 <= i < k ==> s0[i].id != m.id,
                },
            decreases self.entries.len() - k,
        {
            if self.entries[k].id == m.id {
                pos = Some(k);
            }
            k = k + 1;
        }
        proof {
            if pos is None {
                assert(k == s0.len());
            }
        }
        match pos {
            Some(p) => {
                proof {
                    assert(s0[p as int].id == m.id);
                    assert forall|j: int| 0 <= j < s0.len() && j != p implies s0[j].id
                        != m.id by {
                        if j > p {
                            assert(old(self).wf());
                        }
                    }
                    lemma_remove_id_split(s0, m.id, p as int);
                }
                self.entries.remove(p);
                proof {
                    assert(self.entries@ =~= s0.subrange(0, p as int) + s0.subrange(
                        p + 1,
                        s0.len() as int,
                    ));
                }
            },
            None => {
                proof {
                    lemma_remove_id_absent(s0, m.id);
                }
            },
        }
        let fresh = pos.is_none();
        proof {
            assert(self.entries@ == remove_id(s0, m.id));
            if contains_id(s0, m.id) {
                assert(!(pos is None));
            }
            if pos is Some {
                assert(contains_id(s0, m.id)) by {
                    assert(s0[pos.unwrap() as int].id == m.id);
                }
            }
        }
        self.entries.insert(0, m);
        proof {
            assert(self.entries@ =~= seq![m] + remove_id(s0, m.id));
        }
        if self.entries.len() > limit {
            self.entries.truncate(limit);
        }
        proof {
            lemma_upsert_invariant(s0, m, limit as int);
            assert(self.entries@ =~= upsert_step(s0, m, limit as int));
        }
        fresh
    }

    /// Replace the cache with the normalized fetched page, unless the cache
    /// already matches it in content; reports whether anything changed, and
    /// only a change is followed by a persistence write and a change event.
    pub fn reconcile(&mut self, fresh: &Vec<CachedMessage>, limit: usize) -> (changed: bool)
        requires
            limit >= 1,
        ensures
            final(self).entries@ == reconcile_step(old(self).entries@, fresh@, limit as int).0,
            changed == reconcile_step(old(self).entries@, fresh@, limit as int).1,
            sorted(final(self).entries@),
            unique_ids(final(self).entries@),
            final(self).entries@.len() <= limit,
    {
        let normalized = normalize_messages(fresh, limit);
        proof {
            lemma_normalize_props(fresh@, limit as int);
        }
        let same = content_eq_exec(&self.entries, &normalized);
        proof {
            if same {
                lemma_content_eq_order(self.entries@, normalized@);
            }
        }
        if same {
            false
        } else {
            self.entries = normalized;
            true
        }
    }

    /// Delete by id wherever it sits; deleting an absent id changes nothing,
    /// but the caller persists and notifies either way. Returns the
    /// post-removal snapshot handed to observers.
    pub fn remove(&mut self, id: i64) -> (snap: Vec<CachedMessage>)
        ensures
            final(self).entries@ == remove_id(old(self).entries@, id),
            snap@ == final(self).entries@,
            old(self).wf() ==> final(self).wf(),
            !contains_id(final(self).entries@, id),
    {
        let ghost s0 = self.entries@;
        let mut kept: Vec<CachedMessage> = Vec::new();
        let mut k: usize = 0;
        while k < self.entries.len()
            invariant
                k <= self.entries.len(),
                self.entries@ == s0,
                kept@ == remove_id(s0.subrange(0, k as int), id),
            decreases self.entries.len() - k,
        {
            proof {
                let next = s0.subrange(0, (k + 1) as int);
                assert(next.drop_last() =~= s0.subrange(0, k as int));
                assert(next.last() == s0[k as int]);
            }
            if self.entries[k].id != id {
                kept.push(crate::message::clone_message(&self.entries[k]));
            }
            k = k + 1;
        }
        proof {
            assert(s0.subrange(0, s0.len() as int) =~= s0);
            lemma_remove_id_props(s0, id);
        }
        self.entries = kept;
        clone_messages(&self.entries)
    }

    /// An independent copy of the current contents, for read access.
    pub fn snapshot(&self) -> (snap: Vec<CachedMessage>)
        ensures
            snap@ == self.entries@,
    {
        clone_messages(&self.entries)
    }
}

fn content_eq_exec(a: &Vec<CachedMessage>, b: &Vec<CachedMessage>) -> (r: bool)
    ensures
        r == content_eq(a@, b@),
{
    if a.len() != b.len() {
        return false;
    }
    let mut i: usize = 0;
    while i < a.len()
        invariant
            i <= a.len(),
            a.len() == b.len(),
            forall|k: int| 0 <= k < i ==> content_eq_at(a@[k], b@[k]),
        decreases a.len() - i,
    {
        let same = a[i].id == b[i].id && a[i].date == b[i].date && a[i].priority == b[i].priority
            && a[i].title == b[i].title && a[i].message == b[i].message;
        if !same {
            proof {
                assert(!content_eq_at(a@[i as int], b@[i as int]));
            }
            return false;
        }
        i = i + 1;
    }
    true
}

/// What startup does with the persisted cache file: a missing file starts
/// empty; a decoded file hydrates; a file that failed to decode starts
/// empty and is renamed aside rather than deleted or fatal.
pub fn load_cache_outcome(file_exists: bool, decoded: Option<Vec<CachedMessage>>) -> (r:
    LoadOutcome)
    ensures
        !file_exists ==> r.messages@.len() == 0 && !r.quarantine_corrupt,
        file_exists && decoded is Some ==> r.messages@ == decoded.unwrap()@
            && !r.quarantine_corrupt,
        file_exists && decoded is None ==> r.messages@.len() == 0 && r.quarantine_corrupt,
{
    if !file_exists {
        LoadOutcome { messages: Vec::new(), quarantine_corrupt: false }
    } else {
        match decoded {
            Some(v) => LoadOutcome { messages: v, quarantine_corrupt: false },
            None => LoadOutcome { messages: Vec::new(), quarantine_corrupt: true },
        }
    }
}

} // verus!
