//! Session history: the newest-first list of past queries, bounded in
//! length, with removal by id.

use vstd::prelude::*;

verus! {

#[verifier::external_type_specification]
#[verifier::external_body]
pub struct ExJsonValue(serde_json::Value);

/// A tool call made while answering a query.
#[derive(Debug)]
pub struct AuditEntry {
    pub tool: String,
    /// The tool's arguments, as JSON; carried through unread.
    pub args: serde_json::Value,
    pub result: String,
    pub duration_ms: u64,
    pub approved_by: String,
}

/// One answered query.
#[derive(Debug)]
pub struct SessionEntry {
    pub id: String,
    pub timestamp: String,
    pub content_type: String,
    pub context_preview: String,
    pub query: String,
    pub response: String,
    pub tool_calls: Vec<AuditEntry>,
}

/// The history after recording `entry`: it goes first, and the list is cut
/// to `max_entries`.
pub open spec fn with_recorded(h: Seq<SessionEntry>, entry: SessionEntry, max_entries: usize) -> Seq<
    SessionEntry,
> {
    let all = seq![entry] + h;
    if all.len() > max_entries {
        all.take(max_entries as int)
    } else {
        all
    }
}

/// The history without the entries whose id is `id`, in the same order.
pub open spec fn without_id(h: Seq<SessionEntry>, id: Seq<char>) -> Seq<SessionEntry>
    decreases h.len(),
{
    if h.len() == 0 {
        h
    } else {
        let rest = without_id(h.drop_last(), id);
        if h.last().id@ == id {
            rest
        } else {
            rest.push(h.last())
        }
    }
}

/// Puts `entry` first and keeps at most `max_entries` entries.
pub fn record_session(history: &mut Vec<SessionEntry>, entry: SessionEntry, max_entries: usize)
    ensures
        final(history)@ == with_recorded(old(history)@, entry, max_entries),
{
    history.insert(0, entry);
    history.truncate(max_entries);
    assert(final(history)@ =~= with_recorded(old(history)@, entry, max_entries));
}

/// Removes every entry whose id is `id`.
pub fn remove_session(history: &mut Vec<SessionEntry>, id: &str)
    ensures
        final(history)@ == without_id(old(history)@, id@),
{
    let target = id.to_string();
    let mut rest: Vec<SessionEntry> = Vec::new();
    std::mem::swap(&mut rest, history);
    let ghost orig = rest@;
    let ghost mut k: int = 0;
    while rest.len() > 0
        invariant
            0 <= k <= orig.len(),
            rest@ == orig.subrange(k, orig.len() as int),
            history@ == without_id(orig.subrange(0, k), id@),
            target@ == id@,
        decreases rest@.len(),
    {
        let e = rest.remove(0);
        proof {
            assert(orig.subrange(0, k + 1).drop_last() =~= orig.subrange(0, k));
            assert(orig.subrange(0, k + 1).last() == e);
        }
        if e.id != target {
            history.push(e);
        }
        proof {
            k = k + 1;
            assert(rest@ =~= orig.subrange(k, orig.len() as int));
        }
    }
    assert(orig.subrange(0, k) =~= orig);
}

/// Calls `uuid::Uuid::new_v4` and renders the id with `to_string`. Random;
/// the contract claims only the hyphenated shape that the crate's `Display`
/// writes: 36 characters with hyphens at positions 8, 13, 18 and 23.
#[verifier::external_body]
pub fn new_session_id() -> (id: String)
    ensures
        id@.len() == 36,
        id@[8] == '-' && id@[13] == '-' && id@[18] == '-' && id@[23] == '-',
{
    uuid::Uuid::new_v4().to_string()
}

/// Calls `chrono::Utc::now` and renders it with `to_rfc3339`. Nothing is
/// stated of the result: it depends on the time.
#[verifier::external_body]
pub fn now_iso() -> String {
    chrono::Utc::now().to_rfc3339()
}

/// A new history entry for an answered query, with a fresh id, the current
/// time and no tool calls.
pub fn new_session_entry(content_type: String, context_preview: String, query: String, response: String) -> (e: SessionEntry)
    ensures
        e.content_type == content_type,
        e.context_preview == context_preview,
        e.query == query,
        e.response == response,
        e.tool_calls@.len() == 0,
        e.id@.len() == 36,
{
    SessionEntry {
        id: new_session_id(),
        timestamp: now_iso(),
        content_type,
        context_preview,
        query,
        response,
        tool_calls: Vec::new(),
    }
}

/// Recording keeps the history newest first and bounded: the new entry is
/// first (when anything is kept), the earlier entries follow in their order,
/// and there are never more than `max_entries`.
pub proof fn lemma_record_newest_first(h: Seq<SessionEntry>, entry: SessionEntry, max_entries: usize)
    ensures
        with_recorded(h, entry, max_entries).len() <= max_entries,
        with_recorded(h, entry, max_entries).len() == if h.len() + 1 <= max_entries {
            h.len() + 1int
        } else {
            max_entries as int
        },
        max_entries > 0 ==> with_recorded(h, entry, max_entries)[0] == entry,
        forall|i: int|
            1 <= i < with_recorded(h, entry, max_entries).len() ==> #[trigger] with_recorded(
                h,
                entry,
                max_entries,
            )[i] == h[i - 1],
{
    let all = seq![entry] + h;
    assert forall|i: int| 1 <= i < all.len() implies #[trigger] all[i] == h[i - 1] by {}
}

/// After removal no entry has the id, every kept entry was there before, and
/// every entry with another id is kept.
pub proof fn lemma_remove_drops_exactly_the_id(h: Seq<SessionEntry>, id: Seq<char>)
    ensures
        forall|i: int|
            0 <= i < without_id(h, id).len() ==> (#[trigger] without_id(h, id)[i]).id@ != id
                && h.contains(without_id(h, id)[i]),
        forall|i: int| 0 <= i < h.len() && (#[trigger] h[i]).id@ != id ==> without_id(h, id).contains(h[i]),
    decreases h.len(),
{
    if h.len() > 0 {
        let p = h.drop_last();
        lemma_remove_drops_exactly_the_id(p, id);
        let rest = without_id(p, id);
        let r = without_id(h, id);
        assert forall|i: int| 0 <= i < r.len() implies (#[trigger] r[i]).id@ != id && h.contains(r[i]) by {
            if i < rest.len() {
                assert(r[i] == rest[i]);
                let j = choose|j: int| 0 <= j < p.len() && p[j] == rest[i];
                assert(h[j] == p[j]);
            } else {
                assert(r[i] == h.last());
                assert(h[h.len() - 1] == h.last());
            }
        }
        assert forall|i: int| 0 <= i < h.len() && (#[trigger] h[i]).id@ != id implies r.contains(h[i]) by {
            if i < h.len() - 1 {
                assert(p[i] == h[i]);
                let j = choose|j: int| 0 <= j < rest.len() && rest[j] == p[i];
                assert(r[j] == rest[j]);
            } else {
                assert(r[r.len() - 1] == h.last());
            }
        }
    }
}

/// Removing an id twice is the same as removing it once.
pub proof fn lemma_remove_idempotent(h: Seq<SessionEntry>, id: Seq<char>)
    ensures
        without_id(without_id(h, id), id) == without_id(h, id),
    decreases h.len(),
{
    if h.len() > 0 {
        lemma_remove_idempotent(h.drop_last(), id);
        let rest = without_id(h.drop_last(), id);
        if h.last().id@ != id {
            assert(rest.push(h.last()).drop_last() =~= rest);
        }
    }
}

} // verus!
