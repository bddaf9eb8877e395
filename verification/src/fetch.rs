use vstd::prelude::*;

use crate::consts::MAX_API_PAGE_LIMIT;
use crate::message::CachedMessage;
use crate::message::clone_message;

verus! {

/// The smallest id among the page entries taken so far; the next page is
/// asked for strictly older entries than this.
pub open spec fn min_id_of(s: Seq<CachedMessage>) -> int
    decreases s.len(),
{
    if s.len() == 0 {
        0
    } else if s.len() == 1 {
        s[0].id as int
    } else {
        let rest = min_id_of(s.drop_last());
        if s.last().id as int <= rest {
            s.last().id as int
        } else {
            rest
        }
    }
}

/// How many entries of a page the pager takes: all of them, unless fewer
/// are still wanted.
pub open spec fn consumed_count(target: int, have: int, page_len: int) -> int {
    if page_len <= target - have {
        page_len
    } else {
        target - have
    }
}

/// The page size to request: what is still wanted, capped at the server's
/// page ceiling.
pub open spec fn request_limit(target: int, have: int) -> int {
    if target - have <= MAX_API_PAGE_LIMIT as int {
        target - have
    } else {
        MAX_API_PAGE_LIMIT as int
    }
}

/// One backward pagination pass: parameters of the next page request.
pub struct PageRequest {
    pub limit: usize,
    pub since: Option<i64>,
}

/// The cursor state of one backward pagination pass over the message
/// history. It stops when enough is accumulated, a page comes back empty
/// or short, or the cursor fails to advance — a server that repeats the
/// same minimum id twice must not trap the fetcher in a loop.
pub struct Pager {
    pub target: usize,
    pub fresh: Vec<CachedMessage>,
    pub since: Option<i64>,
    pub done: bool,
}

impl Pager {
    pub fn new(cache_limit: usize) -> (p: Pager)
        ensures
            p.target == cache_limit,
            p.fresh@.len() == 0,
            p.since is None,
            !p.done,
    {
        Pager { target: cache_limit, fresh: Vec::new(), since: None, done: false }
    }

    /// The next request to send, or nothing where the pass is over: ended
    /// by a stop condition, or because enough entries are accumulated.
    pub fn next_request(&self) -> (r: Option<PageRequest>)
        ensures
            r is Some <==> (!self.done && self.fresh@.len() < self.target),
            r is Some ==> {
                &&& r.unwrap().limit as int == request_limit(
                    self.target as int,
                    self.fresh@.len() as int,
                )
                &&& r.unwrap().limit >= 1
                &&& r.unwrap().since == self.since
            },
    {
        if self.done || self.fresh.len() >= self.target {
            return None;
        }
        let remaining = self.target - self.fresh.len();
        let limit: usize = if remaining <= MAX_API_PAGE_LIMIT {
            remaining
        } else {
            MAX_API_PAGE_LIMIT
        };
        Some(PageRequest { limit, since: self.since })
    }

    /// Take one fetched page (already converted): append what is still
    /// wanted, and decide whether the pass goes on. An empty page, a page
    /// shorter than requested, and a cursor that fails to advance all end
    /// the pass; otherwise the cursor moves to the page's minimum id.
    pub fn accept_page(&mut self, page: &Vec<CachedMessage>)
        requires
            !old(self).done,
            old(self).fresh@.len() < old(self).target,
        ensures
            ({
                let c = consumed_count(
                    old(self).target as int,
                    old(self).fresh@.len() as int,
                    page@.len() as int,
                );
                let consumed = page@.subrange(0, c);
                let req = request_limit(old(self).target as int, old(self).fresh@.len() as int);
                &&& final(self).target == old(self).target
                &&& final(self).fresh@ == old(self).fresh@ + consumed
                &&& (page@.len() == 0 ==> final(self).done && final(self).since == old(self).since)
                &&& (page@.len() > 0 ==> {
                    let mid = min_id_of(consumed);
                    if (old(self).since matches Some(sv) && sv as int == mid) {
                        // the cursor did not advance: stop rather than loop
                        &&& final(self).done
                        &&& final(self).since == old(self).since
                    } else {
                        &&& final(self).since matches Some(sv2) && sv2 as int == mid
                        &&& (final(self).done <==> c < req)
                    }
                })
            }),
    {
        let ghost old_fresh = old(self).fresh@;
        let remaining = self.target - self.fresh.len();
        let c: usize = if page.len() <= remaining {
            page.len()
        } else {
            remaining
        };
        let requested: usize = if remaining <= MAX_API_PAGE_LIMIT {
            remaining
        } else {
            MAX_API_PAGE_LIMIT
        };
        let mut i: usize = 0;
        let mut min_id: Option<i64> = None;
        while i < c
            invariant
                i <= c <= page@.len(),
                self.target == old(self).target,
                self.since == old(self).since,
                self.done == old(self).done,
                self.fresh@ == old_fresh + page@.subrange(0, i as int),
                i == 0 ==> min_id is None,
                i > 0 ==> (min_id matches Some(mv) && mv as int == min_id_of(
                    page@.subrange(0, i as int),
                )),
            decreases c - i,
        {
            let m = clone_message(&page[i]);
            min_id = match min_id {
                None => Some(m.id),
                Some(cur) => if m.id <= cur {
                    Some(m.id)
                } else {
                    Some(cur)
                },
            };
            self.fresh.push(m);
            i = i + 1;
            proof {
                let now_pre = page@.subrange(0, i as int);
                assert(now_pre.drop_last() =~= page@.subrange(0, (i - 1) as int));
                assert(now_pre.last() == page@[i - 1]);
                assert(self.fresh@ =~= old_fresh + now_pre);
            }
        }
        proof {
            assert(page@.subrange(0, c as int) =~= page@.subrange(0, i as int));
        }
        match min_id {
            None => {
                // the page was empty: nothing more will come
                self.done = true;
            },
            Some(mid) => {
                let stagnant = match self.since {
                    Some(sv) => sv == mid,
                    None => false,
                };
                if stagnant {
                    self.done = true;
                } else {
                    self.since = Some(mid);
                    if c < requested {
                        self.done = true;
                    }
                }
            },
        }
    }

    /// Hand over what the pass accumulated, for reconciliation.
    pub fn into_fresh(self) -> (r: Vec<CachedMessage>)
        ensures
            r@ == self.fresh@,
    {
        self.fresh
    }
}

} // verus!
