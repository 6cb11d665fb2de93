//! Reusing the prepared context of an earlier turn: when it still fits the
//! session, and what it becomes with the entries added since.

use vstd::prelude::*;
use crate::compaction::{ContextRef, has_file};
use crate::json::{Json, JsonV, items_view, lemma_items_view};
use crate::text::str_eq;

verus! {

/// What the reuse decision reads of an earlier prepared context.
pub struct PreparedView {
    pub use_session_tree: bool,
    pub conversation_file_id: String,
    pub session_file_id: String,
    pub session_leaf_id: String,
    pub workspace_id: String,
    pub prune_tool_results_after_turns: u64,
    pub messages: Vec<Json>,
    pub entries_loaded: u64,
    pub content_files_loaded: u64,
}

/// The entries a session tree adds after the prepared leaf, up to the
/// current leaf, and whether a compaction is among them.
pub struct ContextDelta {
    pub refs: Vec<ContextRef>,
    pub includes_compaction: bool,
}

/// What becomes of a prepared context.
#[derive(Debug)]
pub enum ReusePlan {
    /// It cannot be reused, for this reason.
    RebuildRequired { reason: &'static str },
    /// It is reused; the added entries are resolved into messages when there
    /// are any.
    Reuse { delta_entries_loaded: u64, delta_content_files_loaded: u64, resolve_delta: bool },
}

/// How many of the entries are stored in files.
pub open spec fn file_count(refs: Seq<ContextRef>) -> nat
    decreases refs.len(),
{
    if refs.len() == 0 {
        0
    } else {
        file_count(refs.drop_last()) + if has_file(refs.last()) {
            1nat
        } else {
            0nat
        }
    }
}

/// The file count never exceeds the number of entries.
proof fn lemma_file_count_bound(refs: Seq<ContextRef>)
    ensures
        file_count(refs) <= refs.len(),
    decreases refs.len(),
{
    if refs.len() > 0 {
        lemma_file_count_bound(refs.drop_last());
    }
}

/// A plan as plain values: the rebuild reason, or the delta's counts and
/// whether it is resolved.
pub open spec fn plan_view(p: ReusePlan) -> Result<(u64, u64, bool), Seq<char>> {
    match p {
        ReusePlan::RebuildRequired { reason } => Err(reason@),
        ReusePlan::Reuse { delta_entries_loaded, delta_content_files_loaded, resolve_delta } => Ok(
            (delta_entries_loaded, delta_content_files_loaded, resolve_delta),
        ),
    }
}

/// The prepared context is rebuilt when it is not session-tree based, when
/// the conversation file, session file, workspace or prune window changed,
/// when it has no leaf, when its leaf is not an ancestor of the current
/// leaf (no delta), or when a compaction entered the delta, in that order;
/// else it is reused with the delta's entries, resolved when there are any.
pub open spec fn spec_reuse_plan(
    p: PreparedView,
    delta: Option<(Seq<ContextRef>, bool)>,
    conversation_file_id: Seq<char>,
    session_file_id: Seq<char>,
    workspace_id: Seq<char>,
    prune_after_turns: u64,
) -> Result<(u64, u64, bool), Seq<char>> {
    if !p.use_session_tree {
        Err("prepared artifact is not session-tree based"@)
    } else if p.conversation_file_id@ != conversation_file_id {
        Err("conversation file changed"@)
    } else if p.session_file_id@ != session_file_id {
        Err("session file changed"@)
    } else if p.workspace_id@ != workspace_id {
        Err("workspace changed"@)
    } else if p.prune_tool_results_after_turns != prune_after_turns {
        Err("prune window changed"@)
    } else if p.session_leaf_id@.len() == 0 {
        Err("prepared artifact has no session leaf"@)
    } else {
        match delta {
            None => Err("prepared leaf is not an ancestor of current leaf"@),
            Some((refs, compaction)) => if compaction {
                Err("delta includes compaction"@)
            } else {
                Ok((refs.len() as u64, file_count(refs) as u64, refs.len() > 0))
            },
        }
    }
}

/// The delta's entries as read from an optional delta.
pub open spec fn delta_view(d: Option<&ContextDelta>) -> Option<(Seq<ContextRef>, bool)> {
    match d {
        Some(x) => Some((x.refs@, x.includes_compaction)),
        None => None,
    }
}

/// Counts the entries stored in files.
fn count_files(refs: &Vec<ContextRef>) -> (res: u64)
    requires
        refs@.len() <= u64::MAX,
    ensures
        res == file_count(refs@),
{
    let mut n: u64 = 0;
    let mut i: usize = 0;
    while i < refs.len()
        invariant
            i <= refs@.len(),
            refs@.len() <= u64::MAX,
            n == file_count(refs@.take(i as int)),
        decreases refs@.len() - i,
    {
        proof {
            assert(refs@.take(i + 1).drop_last() =~= refs@.take(i as int));
            lemma_file_count_bound(refs@.take(i as int));
        }
        if refs[i].content_file_id.is_some() || refs[i].content_file_version_id.is_some() {
            n = n + 1;
        }
        i += 1;
    }
    assert(refs@.take(i as int) =~= refs@);
    n
}

/// Decides whether the prepared context of an earlier turn is reused, given
/// the delta the session tree gives from its leaf to the current one (none
/// when the prepared leaf is not an ancestor).
pub fn plan_prepared_reuse(
    prepared: &PreparedView,
    delta: Option<&ContextDelta>,
    conversation_file_id: &str,
    session_file_id: &str,
    workspace_id: &str,
    prune_after_turns: u64,
) -> (res: ReusePlan)
    requires
        delta matches Some(d) ==> d.refs@.len() <= u64::MAX,
    ensures
        plan_view(res) == spec_reuse_plan(
            *prepared,
            delta_view(delta),
            conversation_file_id@,
            session_file_id@,
            workspace_id@,
            prune_after_turns,
        ),
{
    if !prepared.use_session_tree {
        return ReusePlan::RebuildRequired { reason: "prepared artifact is not session-tree based" };
    }
    if !str_eq(prepared.conversation_file_id.as_str(), conversation_file_id) {
        return ReusePlan::RebuildRequired { reason: "conversation file changed" };
    }
    if !str_eq(prepared.session_file_id.as_str(), session_file_id) {
        return ReusePlan::RebuildRequired { reason: "session file changed" };
    }
    if !str_eq(prepared.workspace_id.as_str(), workspace_id) {
        return ReusePlan::RebuildRequired { reason: "workspace changed" };
    }
    if prepared.prune_tool_results_after_turns != prune_after_turns {
        return ReusePlan::RebuildRequired { reason: "prune window changed" };
    }
    if crate::text::chars_of(prepared.session_leaf_id.as_str()).len() == 0 {
        return ReusePlan::RebuildRequired { reason: "prepared artifact has no session leaf" };
    }
    match delta {
        None => ReusePlan::RebuildRequired { reason: "prepared leaf is not an ancestor of current leaf" },
        Some(d) => {
            if d.includes_compaction {
                ReusePlan::RebuildRequired { reason: "delta includes compaction" }
            } else {
                let files = count_files(&d.refs);
                ReusePlan::Reuse {
                    delta_entries_loaded: d.refs.len() as u64,
                    delta_content_files_loaded: files,
                    resolve_delta: d.refs.len() > 0,
                }
            }
        },
    }
}

/// A reused prepared context: its messages followed by the delta's, and the
/// totals of entries and content files loaded.
pub struct ReusedContext {
    pub messages: Vec<Json>,
    pub entries_loaded: u64,
    pub content_files_loaded: u64,
    pub delta_entries_loaded: u64,
    pub delta_content_files_loaded: u64,
}

/// Extends a reused prepared context with the delta's messages and counts.
pub fn reuse_prepared_context(
    prepared: &PreparedView,
    delta_entries_loaded: u64,
    delta_content_files_loaded: u64,
    delta_messages: Vec<Json>,
) -> (res: ReusedContext)
    requires
        prepared.entries_loaded + delta_entries_loaded <= u64::MAX,
        prepared.content_files_loaded + delta_content_files_loaded <= u64::MAX,
    ensures
        items_view(res.messages@) == items_view(prepared.messages@) + items_view(delta_messages@),
        res.entries_loaded == prepared.entries_loaded + delta_entries_loaded,
        res.content_files_loaded == prepared.content_files_loaded + delta_content_files_loaded,
        res.delta_entries_loaded == delta_entries_loaded,
        res.delta_content_files_loaded == delta_content_files_loaded,
{
    let ghost dv = items_view(delta_messages@);
    let mut messages: Vec<Json> = Vec::new();
    proof {
        lemma_items_view(prepared.messages@);
        lemma_items_view(delta_messages@);
        lemma_items_view(messages@);
    }
    let mut i: usize = 0;
    while i < prepared.messages.len()
        invariant
            i <= prepared.messages@.len(),
            items_view(messages@) =~= items_view(prepared.messages@).take(i as int),
            items_view(prepared.messages@).len() == prepared.messages@.len(),
            forall|k: int| 0 <= k < prepared.messages@.len() ==> #[trigger] items_view(prepared.messages@)[k]
                == prepared.messages@[k]@,
        decreases prepared.messages@.len() - i,
    {
        let ghost before = messages@;
        crate::json::push_item(&mut messages, prepared.messages[i].duplicate());
        proof {
            lemma_items_view(before);
            lemma_items_view(messages@);
        }
        i += 1;
    }
    let ghost base = items_view(messages@);
    let mut j: usize = 0;
    while j < delta_messages.len()
        invariant
            j <= delta_messages@.len(),
            dv == items_view(delta_messages@),
            dv.len() == delta_messages@.len(),
            forall|k: int| 0 <= k < delta_messages@.len() ==> #[trigger] dv[k] == delta_messages@[k]@,
            items_view(messages@) =~= base + dv.take(j as int),
        decreases delta_messages@.len() - j,
    {
        let ghost before = messages@;
        crate::json::push_item(&mut messages, delta_messages[j].duplicate());
        proof {
            lemma_items_view(before);
            lemma_items_view(messages@);
        }
        j += 1;
    }
    assert(dv.take(j as int) =~= dv);
    assert(items_view(prepared.messages@).take(prepared.messages@.len() as int) =~= items_view(prepared.messages@));
    ReusedContext {
        messages,
        entries_loaded: prepared.entries_loaded + delta_entries_loaded,
        content_files_loaded: prepared.content_files_loaded + delta_content_files_loaded,
        delta_entries_loaded,
        delta_content_files_loaded,
    }
}

} // verus!
