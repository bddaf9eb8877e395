use vstd::prelude::*;

use crate::message::CachedMessage;
use crate::message::clone_message;
use crate::order::lemma_msg_le_antisym_ids;
use crate::order::lemma_msg_le_total;
use crate::order::lemma_msg_le_trans;
use crate::order::msg_le;
use crate::order::msg_le_exec;
use crate::order::msg_lt;

verus! {

/// No two entries of the sequence share an id.
pub open spec fn unique_ids(s: Seq<CachedMessage>) -> bool {
    forall|i: int, j: int| 0 <= i < j < s.len() ==> s[i].id != s[j].id
}

/// Some entry of the sequence has the given id.
pub open spec fn contains_id(s: Seq<CachedMessage>, id: i64) -> bool {
    exists|i: int| 0 <= i < s.len() && s[i].id == id
}

/// The sequence respects the cache ordering rule, pairwise.
pub open spec fn sorted(s: Seq<CachedMessage>) -> bool {
    forall|i: int, j: int| 0 <= i < j < s.len() ==> msg_le(s[i], s[j])
}

/// A sequence that is sorted and free of duplicate ids is strictly sorted:
/// every earlier entry is strictly before every later one.
pub proof fn lemma_sorted_unique_strict(s: Seq<CachedMessage>)
    requires
        sorted(s),
        unique_ids(s),
    ensures
        forall|i: int, j: int| 0 <= i < j < s.len() ==> msg_lt(s[i], s[j]),
{
    assert forall|i: int, j: int| 0 <= i < j < s.len() implies msg_lt(s[i], s[j]) by {
        if msg_le(s[j], s[i]) {
            lemma_msg_le_antisym_ids(s[i], s[j]);
        }
    }
}

/// Where `m` belongs in an already sorted sequence: after every entry that
/// orders at or before it, else in front of the rest.
pub open spec fn insert_sorted(m: CachedMessage, s: Seq<CachedMessage>) -> Seq<CachedMessage>
    decreases s.len(),
{
    if s.len() == 0 {
        seq![m]
    } else if msg_le(s[0], m) {
        seq![s[0]] + insert_sorted(m, s.drop_first())
    } else {
        seq![m] + s
    }
}

/// Insertion sort of the whole sequence, one entry at a time from the left.
pub open spec fn sort_spec(s: Seq<CachedMessage>) -> Seq<CachedMessage>
    decreases s.len(),
{
    if s.len() == 0 {
        Seq::<CachedMessage>::empty()
    } else {
        insert_sorted(s.last(), sort_spec(s.drop_last()))
    }
}

pub proof fn lemma_insert_sorted_props(m: CachedMessage, s: Seq<CachedMessage>)
    requires
        sorted(s),
    ensures
        insert_sorted(m, s).len() == s.len() + 1,
        sorted(insert_sorted(m, s)),
        forall|x: CachedMessage|
            #![trigger insert_sorted(m, s).contains(x)]
            #![trigger s.contains(x)]
            insert_sorted(m, s).contains(x) <==> s.contains(x) || x == m,
    decreases s.len(),
{
    let r = insert_sorted(m, s);
    if s.len() == 0 {
        assert(r =~= seq![m]);
        assert(r.contains(m)) by {
            assert(r[0] == m);
        }
    } else if msg_le(s[0], m) {
        let rest = s.drop_first();
        assert(sorted(rest)) by {
            assert(forall|i: int, j: int|
                0 <= i < j < rest.len() ==> rest[i] == s[i + 1] && rest[j] == s[j + 1]);
        }
        lemma_insert_sorted_props(m, rest);
        let ri = insert_sorted(m, rest);
        assert(r =~= seq![s[0]] + ri);
        // the head is at or before everything that follows it
        assert forall|j: int| 0 < j < r.len() implies msg_le(r[0], r[j]) by {
            assert(r[j] == ri[j - 1]);
            assert(ri.contains(ri[j - 1]));
            if ri[j - 1] == m {
                assert(msg_le(s[0], m));
            } else {
                assert(rest.contains(ri[j - 1]));
                let k = choose|k: int| 0 <= k < rest.len() && rest[k] == ri[j - 1];
                assert(rest[k] == s[k + 1]);
                assert(msg_le(s[0], s[k + 1]));
            }
        }
        assert forall|i: int, j: int| 0 <= i < j < r.len() implies msg_le(r[i], r[j]) by {
            if i > 0 {
                assert(r[i] == ri[i - 1] && r[j] == ri[j - 1]);
                assert(msg_le(ri[i - 1], ri[j - 1]));
            }
        }
        assert forall|x: CachedMessage| r.contains(x) <==> s.contains(x) || x == m by {
            if r.contains(x) {
                let k = choose|k: int| 0 <= k < r.len() && r[k] == x;
                if k == 0 {
                    assert(s[0] == x);
                    assert(s.contains(x));
                } else {
                    assert(ri[k - 1] == x);
                    assert(ri.contains(x));
                    if x != m {
                        assert(rest.contains(x));
                        let k2 = choose|k2: int| 0 <= k2 < rest.len() && rest[k2] == x;
                        assert(s[k2 + 1] == x);
                        assert(s.contains(x));
                    }
                }
            }
            if s.contains(x) {
                let k = choose|k: int| 0 <= k < s.len() && s[k] == x;
                if k == 0 {
                    assert(r[0] == x);
                    assert(r.contains(x));
                } else {
                    assert(rest[k - 1] == x);
                    assert(rest.contains(x));
                    assert(ri.contains(x));
                    let k2 = choose|k2: int| 0 <= k2 < ri.len() && ri[k2] == x;
                    assert(r[k2 + 1] == x);
                    assert(r.contains(x));
                }
            }
            if x == m {
                assert(ri.contains(m));
                let k2 = choose|k2: int| 0 <= k2 < ri.len() && ri[k2] == m;
                assert(r[k2 + 1] == m);
                assert(r.contains(m));
            }
        }
    } else {
        assert(r =~= seq![m] + s);
        // m is strictly before the old head, hence at or before every entry
        assert forall|i: int, j: int| 0 <= i < j < r.len() implies msg_le(r[i], r[j]) by {
            if i == 0 {
                assert(r[j] == s[j - 1]);
                lemma_msg_le_total(m, s[0]);
                if j - 1 > 0 {
                    assert(msg_le(s[0], s[j - 1]));
                    lemma_msg_le_trans(m, s[0], s[j - 1]);
                }
            } else {
                assert(r[i] == s[i - 1] && r[j] == s[j - 1]);
            }
        }
        assert forall|x: CachedMessage| r.contains(x) <==> s.contains(x) || x == m by {
            if r.contains(x) {
                let k = choose|k: int| 0 <= k < r.len() && r[k] == x;
                if k > 0 {
                    assert(s[k - 1] == x);
                    assert(s.contains(x));
                }
            }
            if s.contains(x) {
                let k = choose|k: int| 0 <= k < s.len() && s[k] == x;
                assert(r[k + 1] == x);
                assert(r.contains(x));
            }
            assert(r[0] == m);
            assert(r.contains(m));
        }
    }
}

pub proof fn lemma_sort_spec_props(s: Seq<CachedMessage>)
    ensures
        sort_spec(s).len() == s.len(),
        sorted(sort_spec(s)),
        forall|x: CachedMessage|
            #![trigger sort_spec(s).contains(x)]
            #![trigger s.contains(x)]
            sort_spec(s).contains(x) <==> s.contains(x),
    decreases s.len(),
{
    if s.len() == 0 {
    } else {
        let pre = s.drop_last();
        lemma_sort_spec_props(pre);
        lemma_insert_sorted_props(s.last(), sort_spec(pre));
        let r = sort_spec(s);
        assert(r == insert_sorted(s.last(), sort_spec(pre)));
        assert forall|x: CachedMessage| r.contains(x) <==> s.contains(x) by {
            assert(r.contains(x) <==> sort_spec(pre).contains(x) || x == s.last());
            assert(sort_spec(pre).contains(x) <==> pre.contains(x));
            if pre.contains(x) {
                let k = choose|k: int| 0 <= k < pre.len() && pre[k] == x;
                assert(s[k] == x);
                assert(s.contains(x));
            }
            if x == s.last() {
                assert(s[s.len() - 1] == x);
                assert(s.contains(x));
            }
            if s.contains(x) {
                let k = choose|k: int| 0 <= k < s.len() && s[k] == x;
                if k == s.len() - 1 {
                    assert(x == s.last());
                } else {
                    assert(pre[k] == x);
                    assert(pre.contains(x));
                }
            }
        }
    }
}

/// `contains_id` restated through element containment.
pub proof fn lemma_contains_id_iff(s: Seq<CachedMessage>, id: i64)
    ensures
        contains_id(s, id) <==> exists|x: CachedMessage| s.contains(x) && x.id == id,
{
    if contains_id(s, id) {
        let i = choose|i: int| 0 <= i < s.len() && s[i].id == id;
        assert(s.contains(s[i]));
    }
    if exists|x: CachedMessage| s.contains(x) && x.id == id {
        let x = choose|x: CachedMessage| s.contains(x) && x.id == id;
        let i = choose|i: int| 0 <= i < s.len() && s[i] == x;
        assert(s[i].id == id);
    }
}

pub proof fn lemma_sort_spec_ids(s: Seq<CachedMessage>, id: i64)
    ensures
        contains_id(sort_spec(s), id) <==> contains_id(s, id),
{
    lemma_sort_spec_props(s);
    lemma_contains_id_iff(s, id);
    lemma_contains_id_iff(sort_spec(s), id);
}

pub proof fn lemma_contains_id_unsnoc(s: Seq<CachedMessage>, id: i64)
    requires
        s.len() > 0,
    ensures
        contains_id(s, id) <==> contains_id(s.drop_last(), id) || s.last().id == id,
{
    let pre = s.drop_last();
    if contains_id(s, id) {
        let i = choose|i: int| 0 <= i < s.len() && s[i].id == id;
        if i < s.len() - 1 {
            assert(pre[i].id == id);
            assert(contains_id(pre, id));
        }
    }
    if contains_id(pre, id) {
        let i = choose|i: int| 0 <= i < pre.len() && pre[i].id == id;
        assert(s[i].id == id);
    }
    if s.last().id == id {
        assert(s[s.len() - 1].id == id);
    }
}

/// Duplicate removal by id, keeping the first occurrence, in order.
pub open spec fn dedup_ids(s: Seq<CachedMessage>) -> Seq<CachedMessage>
    decreases s.len(),
{
    if s.len() == 0 {
        Seq::<CachedMessage>::empty()
    } else {
        let pre = dedup_ids(s.drop_last());
        if contains_id(s.drop_last(), s.last().id) {
            pre
        } else {
            pre.push(s.last())
        }
    }
}

pub proof fn lemma_dedup_ids_props(s: Seq<CachedMessage>)
    ensures
        dedup_ids(s).len() <= s.len(),
        unique_ids(dedup_ids(s)),
        forall|id: i64|
            #![trigger contains_id(dedup_ids(s), id)]
            #![trigger contains_id(s, id)]
            contains_id(dedup_ids(s), id) <==> contains_id(s, id),
        forall|x: CachedMessage| #[trigger] dedup_ids(s).contains(x) ==> s.contains(x),
        sorted(s) ==> sorted(dedup_ids(s)),
        unique_ids(s) ==> dedup_ids(s) == s,
        dedup_ids(s).len() == s.len() ==> unique_ids(s),
    decreases s.len(),
{
    if s.len() == 0 {
    } else {
        let pre = s.drop_last();
        let last = s.last();
        lemma_dedup_ids_props(pre);
        let dpre = dedup_ids(pre);
        let d = dedup_ids(s);
        assert(sorted(s) ==> sorted(pre)) by {
            if sorted(s) {
                assert(forall|i: int, j: int|
                    0 <= i < j < pre.len() ==> pre[i] == s[i] && pre[j] == s[j]);
            }
        }
        assert forall|x: CachedMessage| #[trigger] pre.contains(x) implies s.contains(x) by {
            let k = choose|k: int| 0 <= k < pre.len() && pre[k] == x;
            assert(s[k] == x);
        }
        assert(s.contains(last)) by {
            assert(s[s.len() - 1] == last);
        }
        lemma_contains_id_unsnoc(s, last.id);
        assert forall|id: i64| contains_id(s, id) <==> contains_id(pre, id) || last.id == id by {
            lemma_contains_id_unsnoc(s, id);
        }
        if contains_id(pre, last.id) {
            assert(d == dpre);
        } else {
            assert(d == dpre.push(last));
            assert(d.len() == dpre.len() + 1);
            assert(d[d.len() - 1] == last);
            assert(forall|i: int| 0 <= i < dpre.len() ==> d[i] == dpre[i]);
            // the appended entry brings a fresh id, so uniqueness is kept
            assert forall|i: int, j: int| 0 <= i < j < d.len() implies d[i].id != d[j].id by {
                if j == d.len() - 1 {
                    assert(d[i] == dpre[i]);
                    if d[i].id == last.id {
                        assert(contains_id(dpre, last.id));
                    }
                }
            }
            assert forall|id: i64| contains_id(d, id) <==> contains_id(s, id) by {
                lemma_contains_id_unsnoc(d, id);
                assert(d.drop_last() =~= dpre);
            }
            assert forall|x: CachedMessage| #[trigger] d.contains(x) implies s.contains(x) by {
                let k = choose|k: int| 0 <= k < d.len() && d[k] == x;
                if k < d.len() - 1 {
                    assert(dpre[k] == x);
                    assert(dpre.contains(x));
                }
            }
            if sorted(s) {
                // everything already kept comes from the prefix, which sorts
                // at or before the appended last entry
                assert forall|i: int, j: int| 0 <= i < j < d.len() implies msg_le(d[i], d[j]) by {
                    if j == d.len() - 1 {
                        assert(dpre.contains(d[i]));
                        assert(pre.contains(d[i]));
                        let k = choose|k: int| 0 <= k < pre.len() && pre[k] == d[i];
                        assert(s[k] == d[i]);
                        assert(msg_le(s[k], s[s.len() - 1]));
                    }
                }
            }
            if unique_ids(s) {
                assert(unique_ids(pre)) by {
                    assert(forall|i: int, j: int|
                        0 <= i < j < pre.len() ==> pre[i] == s[i] && pre[j] == s[j]);
                }
                assert(d =~= s);
            }
            if d.len() == s.len() {
                assert(dpre.len() == pre.len());
                assert(unique_ids(pre));
                assert forall|i: int, j: int| 0 <= i < j < s.len() implies s[i].id != s[j].id by {
                    if j == s.len() - 1 {
                        if s[i].id == last.id {
                            assert(pre[i].id == last.id);
                            assert(contains_id(pre, last.id));
                        }
                    } else {
                        assert(pre[i] == s[i] && pre[j] == s[j]);
                    }
                }
            }
        }
        if unique_ids(s) && contains_id(pre, last.id) {
            // impossible: the last id would repeat an earlier one
            let i = choose|i: int| 0 <= i < pre.len() && pre[i].id == last.id;
            assert(s[i].id == s[s.len() - 1].id);
            assert(false);
        }
    }
}

pub proof fn lemma_prefix_props(s: Seq<CachedMessage>, n: int)
    requires
        0 <= n <= s.len(),
    ensures
        sorted(s) ==> sorted(s.subrange(0, n)),
        unique_ids(s) ==> unique_ids(s.subrange(0, n)),
        forall|id: i64| #[trigger]
            contains_id(s.subrange(0, n), id) ==> contains_id(s, id),
{
    let p = s.subrange(0, n);
    assert(forall|i: int| 0 <= i < n ==> p[i] == s[i]);
    assert forall|id: i64| #[trigger] contains_id(p, id) implies contains_id(s, id) by {
        let i = choose|i: int| 0 <= i < p.len() && p[i].id == id;
        assert(s[i].id == id);
    }
}

/// The full normalization rule for a fetched page: sort by the cache
/// ordering rule, drop duplicate ids keeping the first occurrence, then
/// keep at most `limit` entries from the front.
pub open spec fn normalize_seq(s: Seq<CachedMessage>, limit: int) -> Seq<CachedMessage> {
    let d = dedup_ids(sort_spec(s));
    if d.len() <= limit {
        d
    } else {
        d.subrange(0, limit)
    }
}

pub proof fn lemma_normalize_props(s: Seq<CachedMessage>, limit: int)
    requires
        limit >= 0,
    ensures
        sorted(normalize_seq(s, limit)),
        unique_ids(normalize_seq(s, limit)),
        normalize_seq(s, limit).len() <= limit,
        forall|id: i64| #[trigger]
            contains_id(normalize_seq(s, limit), id) ==> contains_id(s, id),
        dedup_ids(sort_spec(s)).len() <= limit ==> forall|id: i64| #[trigger]
            contains_id(normalize_seq(s, limit), id) <==> contains_id(s, id),
{
    lemma_sort_spec_props(s);
    lemma_dedup_ids_props(sort_spec(s));
    let d = dedup_ids(sort_spec(s));
    lemma_prefix_props(d, if d.len() <= limit { d.len() as int } else { limit });
    if d.len() > limit {
        assert(normalize_seq(s, limit) == d.subrange(0, limit));
    } else {
        assert(normalize_seq(s, limit) == d);
    }
    assert forall|id: i64| #[trigger]
        contains_id(normalize_seq(s, limit), id) implies contains_id(s, id) by {
        assert(contains_id(d, id));
        assert(contains_id(sort_spec(s), id));
        lemma_sort_spec_ids(s, id);
    }
    if d.len() <= limit {
        assert forall|id: i64| #[trigger]
            contains_id(s, id) implies contains_id(normalize_seq(s, limit), id) by {
            lemma_sort_spec_ids(s, id);
            assert(contains_id(sort_spec(s), id));
            assert(contains_id(d, id));
        }
    }
}

pub proof fn lemma_insert_sorted_split(m: CachedMessage, s: Seq<CachedMessage>, j: int)
    requires
        0 <= j <= s.len(),
        forall|k: int| 0 <= k < j ==> msg_le(s[k], m),
        j < s.len() ==> !msg_le(s[j], m),
    ensures
        insert_sorted(m, s) == s.subrange(0, j) + seq![m] + s.subrange(j, s.len() as int),
    decreases j,
{
    if j == 0 {
        if s.len() == 0 {
            assert(insert_sorted(m, s) =~= s.subrange(0, 0) + seq![m] + s.subrange(0, 0));
        } else {
            assert(insert_sorted(m, s) =~= s.subrange(0, 0) + seq![m] + s.subrange(
                0,
                s.len() as int,
            ));
        }
    } else {
        let rest = s.drop_first();
        assert(msg_le(s[0], m));
        assert(forall|k: int| 0 <= k < j - 1 ==> rest[k] == s[k + 1]);
        assert(j - 1 < rest.len() ==> !msg_le(rest[j - 1], m));
        lemma_insert_sorted_split(m, rest, j - 1);
        assert(insert_sorted(m, s) == seq![s[0]] + insert_sorted(m, rest));
        assert(insert_sorted(m, s) =~= s.subrange(0, j) + seq![m] + s.subrange(
            j,
            s.len() as int,
        ));
    }
}

pub fn sort_messages(v: &Vec<CachedMessage>) -> (r: Vec<CachedMessage>)
    ensures
        r@ == sort_spec(v@),
{
    let mut out: Vec<CachedMessage> = Vec::new();
    let mut i: usize = 0;
    while i < v.len()
        invariant
            i <= v.len(),
            out@ == sort_spec(v@.subrange(0, i as int)),
        decreases v.len() - i,
    {
        let ghost pre = v@.subrange(0, i as int);
        proof {
            lemma_sort_spec_props(pre);
        }
        let m = clone_message(&v[i]);
        let mut j: usize = 0;
        while j < out.len() && msg_le_exec(&out[j], &m)
            invariant
                j <= out.len(),
                forall|k: int| 0 <= k < j ==> msg_le(out@[k], m),
            decreases out.len() - j,
        {
            j = j + 1;
        }
        proof {
            lemma_insert_sorted_split(m, out@, j as int);
        }
        let ghost old_out = out@;
        out.insert(j, m);
        proof {
            assert(out@ =~= old_out.subrange(0, j as int) + seq![m] + old_out.subrange(
                j as int,
                old_out.len() as int,
            ));
            let next = v@.subrange(0, (i + 1) as int);
            assert(next.drop_last() =~= pre);
            assert(next.last() == v@[i as int]);
            assert(out@ == sort_spec(next));
        }
        i = i + 1;
    }
    proof {
        assert(v@.subrange(0, v.len() as int) =~= v@);
    }
    out
}

fn prefix_has_id(v: &Vec<CachedMessage>, upto: usize, id: i64) -> (r: bool)
    requires
        upto <= v.len(),
    ensures
        r == contains_id(v@.subrange(0, upto as int), id),
{
    let mut k: usize = 0;
    while k < upto
        invariant
            k <= upto <= v.len(),
            !contains_id(v@.subrange(0, k as int), id),
        decreases upto - k,
    {
        if v[k].id == id {
            proof {
                assert(v@.subrange(0, upto as int)[k as int].id == id);
            }
            return true;
        }
        k = k + 1;
        proof {
            let p = v@.subrange(0, k as int);
            if contains_id(p, id) {
                let i = choose|i: int| 0 <= i < p.len() && p[i].id == id;
                if i < k - 1 {
                    assert(v@.subrange(0, (k - 1) as int)[i].id == id);
                }
                assert(false);
            }
        }
    }
    false
}

pub fn dedup_messages(v: &Vec<CachedMessage>) -> (r: Vec<CachedMessage>)
    ensures
        r@ == dedup_ids(v@),
{
    let mut out: Vec<CachedMessage> = Vec::new();
    let mut i: usize = 0;
    while i < v.len()
        invariant
            i <= v.len(),
            out@ == dedup_ids(v@.subrange(0, i as int)),
        decreases v.len() - i,
    {
        let seen = prefix_has_id(v, i, v[i].id);
        if !seen {
            out.push(clone_message(&v[i]));
        }
        proof {
            let next = v@.subrange(0, (i + 1) as int);
            assert(next.drop_last() =~= v@.subrange(0, i as int));
            assert(next.last() == v@[i as int]);
            assert(out@ == dedup_ids(next));
        }
        i = i + 1;
    }
    proof {
        assert(v@.subrange(0, v.len() as int) =~= v@);
    }
    out
}

/// Normalize a fetched page: sort, drop duplicate ids, truncate.
pub fn normalize_messages(v: &Vec<CachedMessage>, limit: usize) -> (r: Vec<CachedMessage>)
    ensures
        r@ == normalize_seq(v@, limit as int),
{
    let sorted_v = sort_messages(v);
    let mut d = dedup_messages(&sorted_v);
    if d.len() > limit {
        d.truncate(limit);
    }
    d
}

} // verus!

