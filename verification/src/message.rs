use vstd::prelude::*;

use crate::digits::dec_rep_i64;
use crate::digits::i64_to_dec;
use crate::text::trim_spec;
use crate::text::trim_str;

verus! {

/// One message as the engine caches it: identity, origin, content,
/// urgency, display decoration, and the server-supplied timestamp string.
pub struct CachedMessage {
    pub id: i64,
    pub app_id: i64,
    pub title: String,
    pub message: String,
    pub priority: i64,
    pub app: String,
    pub app_icon: Option<String>,
    pub date: String,
}

/// One message as the server sends it on the wire, before the engine
/// decorates it with an origin label and icon.
pub struct MessageWire {
    pub id: i64,
    pub appid: i64,
    pub message: String,
    pub title: String,
    pub priority: i64,
    pub date: String,
}

/// Display metadata for one producing application: its name and an icon
/// reference (a data URL, or empty where none could be fetched).
pub struct AppMeta {
    pub name: String,
    pub icon_url: String,
}

/// The application metadata map, replaced wholesale on each successful
/// application-list fetch. Later entries for the same id win, as they
/// would in a keyed map filled front to back.
pub struct AppDirectory {
    pub entries: Vec<(i64, AppMeta)>,
}

/// The metadata the directory yields for an id: the last entry with that
/// id, or nothing.
pub open spec fn lookup_pairs(s: Seq<(i64, AppMeta)>, id: i64) -> Option<AppMeta>
    decreases s.len(),
{
    if s.len() == 0 {
        None
    } else if s.last().0 == id {
        Some(s.last().1)
    } else {
        lookup_pairs(s.drop_last(), id)
    }
}

/// The display label a message from `app_id` gets: the directory's name
/// where one is known, else a synthesized `app:<id>` placeholder.
pub open spec fn resolved_label(entries: Seq<(i64, AppMeta)>, app_id: i64) -> Seq<char> {
    match lookup_pairs(entries, app_id) {
        Some(meta) => meta.name@,
        None => "app:"@ + dec_rep_i64(app_id as int),
    }
}

/// The icon a message from `app_id` gets: the directory's icon reference
/// unless it is blank after trimming, else none.
pub open spec fn resolved_icon(entries: Seq<(i64, AppMeta)>, app_id: i64) -> Option<Seq<char>> {
    match lookup_pairs(entries, app_id) {
        Some(meta) => if trim_spec(meta.icon_url@).len() == 0 {
            None
        } else {
            Some(meta.icon_url@)
        },
        None => None,
    }
}

proof fn lemma_lookup_pairs_at(s: Seq<(i64, AppMeta)>, id: i64, j: int)
    requires
        0 <= j < s.len(),
        s[j].0 == id,
        forall|k: int| j < k < s.len() ==> s[k].0 != id,
    ensures
        lookup_pairs(s, id) == Some(s[j].1),
    decreases s.len(),
{
    if j == s.len() - 1 {
    } else {
        let pre = s.drop_last();
        assert(forall|k: int| 0 <= k < pre.len() ==> pre[k] == s[k]);
        lemma_lookup_pairs_at(pre, id, j);
    }
}

proof fn lemma_lookup_pairs_none(s: Seq<(i64, AppMeta)>, id: i64)
    requires
        forall|k: int| 0 <= k < s.len() ==> s[k].0 != id,
    ensures
        lookup_pairs(s, id) == None::<AppMeta>,
    decreases s.len(),
{
    if s.len() > 0 {
        let pre = s.drop_last();
        assert(forall|k: int| 0 <= k < pre.len() ==> pre[k] == s[k]);
        lemma_lookup_pairs_none(pre, id);
    }
}

impl AppDirectory {
    pub fn new() -> (d: AppDirectory)
        ensures
            d.entries@.len() == 0,
    {
        AppDirectory { entries: Vec::new() }
    }

    /// Swap in a freshly fetched application list, wholesale.
    pub fn replace_all(&mut self, pairs: Vec<(i64, AppMeta)>)
        ensures
            final(self).entries@ == pairs@,
    {
        self.entries = pairs;
    }

    /// The label and icon for a producer id, with the synthesized fallback
    /// where the directory knows nothing.
    pub fn resolve_app_meta(&self, app_id: i64) -> (r: (String, Option<String>))
        ensures
            r.0@ == resolved_label(self.entries@, app_id),
            r.1 is Some <==> resolved_icon(self.entries@, app_id) is Some,
            r.1 is Some ==> r.1.unwrap()@ == resolved_icon(self.entries@, app_id).unwrap(),
    {
        let mut i: usize = self.entries.len();
        let mut found: Option<usize> = None;
        while i > 0 && found.is_none()
            invariant
                i <= self.entries@.len(),
                match found {
                    Some(f) => i <= f < self.entries@.len() && self.entries@[f as int].0 == app_id
                        && (forall|k: int|
                        f < k < self.entries@.len() ==> self.entries@[k].0 != app_id),
                    None => forall|k: int|
                        i <= k < self.entries@.len() ==> self.entries@[k].0 != app_id,
                },
            decreases i,
        {
            i = i - 1;
            if self.entries[i].0 == app_id {
                found = Some(i);
            }
        }
        match found {
            Some(f) => {
                proof {
                    lemma_lookup_pairs_at(self.entries@, app_id, f as int);
                }
                let meta = &self.entries[f].1;
                let trimmed_icon = trim_str(meta.icon_url.as_str());
                let icon: Option<String> = if trimmed_icon.is_empty() {
                    None
                } else {
                    Some(meta.icon_url.clone())
                };
                (meta.name.clone(), icon)
            },
            None => {
                proof {
                    lemma_lookup_pairs_none(self.entries@, app_id);
                }
                let mut label = String::from_str("app:");
                let id_str = i64_to_dec(app_id);
                label.append(id_str.as_str());
                (label, None)
            },
        }
    }

    /// Decorate a wire message with its origin label and icon; everything
    /// else carries over unchanged.
    pub fn convert_wire_message(&self, wire: MessageWire) -> (m: CachedMessage)
        ensures
            m.id == wire.id,
            m.app_id == wire.appid,
            m.title == wire.title,
            m.message == wire.message,
            m.priority == wire.priority,
            m.date == wire.date,
            m.app@ == resolved_label(self.entries@, wire.appid),
            m.app_icon is Some <==> resolved_icon(self.entries@, wire.appid) is Some,
            m.app_icon is Some ==> m.app_icon.unwrap()@ == resolved_icon(
                self.entries@,
                wire.appid,
            ).unwrap(),
    {
        let (app_label, app_icon) = self.resolve_app_meta(wire.appid);
        CachedMessage {
            id: wire.id,
            app_id: wire.appid,
            title: wire.title,
            message: wire.message,
            priority: wire.priority,
            app: app_label,
            app_icon,
            date: wire.date,
        }
    }
}

pub fn clone_opt_string(s: &Option<String>) -> (r: Option<String>)
    ensures
        r == *s,
{
    match s {
        Some(v) => Some(v.clone()),
        None => None,
    }
}

pub fn clone_message(m: &CachedMessage) -> (r: CachedMessage)
    ensures
        r == *m,
{
    CachedMessage {
        id: m.id,
        app_id: m.app_id,
        title: m.title.clone(),
        message: m.message.clone(),
        priority: m.priority,
        app: m.app.clone(),
        app_icon: clone_opt_string(&m.app_icon),
        date: m.date.clone(),
    }
}

pub fn clone_messages(v: &Vec<CachedMessage>) -> (r: Vec<CachedMessage>)
    ensures
        r@ == v@,
{
    let mut out: Vec<CachedMessage> = Vec::new();
    let mut i: usize = 0;
    while i < v.len()
        invariant
            i <= v.len(),
            out@ == v@.subrange(0, i as int),
        decreases v.len() - i,
    {
        out.push(clone_message(&v[i]));
        i = i + 1;
        proof {
            assert(out@ =~= v@.subrange(0, i as int));
        }
    }
    proof {
        assert(out@ =~= v@);
    }
    out
}

} // verus!
