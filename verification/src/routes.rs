//! Where an agent reply is delivered: the channel route a session carries,
//! and the ChannelSession lookups that recover one.

use vstd::prelude::*;
use vstd::string::StringExecFns;
use crate::json::{Json, JsonV, entity_field_str, spec_entity_field_str, spec_get};
use crate::text::{str_trim, trim, str_replace, replace_all, str_eq};

verus! {

/// The channel and thread a reply goes to.
#[derive(Debug)]
pub struct DeliveryRoute {
    pub channel_id: String,
    pub thread_id: String,
    pub channel_entity_id: Option<String>,
    pub channel_type: Option<String>,
}

/// One ChannelSession query and the id the found binding belongs to.
#[derive(Debug)]
pub struct ChannelSessionLookup {
    pub filter: String,
    pub bound_id: String,
}

/// Text that is not blank after trimming.
pub open spec fn nonblank(s: Seq<char>) -> bool {
    trim(s).len() > 0
}

/// A present, non-blank value.
pub open spec fn keep_nonblank(v: Option<Seq<char>>) -> Option<Seq<char>> {
    match v {
        Some(s) => if nonblank(s) { Some(s) } else { None },
        None => None,
    }
}

/// A route as plain values.
pub open spec fn route_view(r: DeliveryRoute) -> (Seq<char>, Seq<char>, Option<Seq<char>>, Option<Seq<char>>) {
    (
        r.channel_id@,
        r.thread_id@,
        match r.channel_entity_id {
            Some(s) => Some(s@),
            None => None,
        },
        match r.channel_type {
            Some(s) => Some(s@),
            None => None,
        },
    )
}

/// An optional route as plain values.
pub open spec fn opt_route_view(r: Option<DeliveryRoute>) -> Option<
    (Seq<char>, Seq<char>, Option<Seq<char>>, Option<Seq<char>>),
> {
    match r {
        Some(r) => Some(route_view(r)),
        None => None,
    }
}

/// The reply route recorded on a session's fields: both the channel and the
/// thread must be non-blank; the channel entity and type are kept when
/// non-blank.
pub open spec fn spec_route_from_session_fields(fields: JsonV) -> Option<
    (Seq<char>, Seq<char>, Option<Seq<char>>, Option<Seq<char>>),
> {
    let channel = keep_nonblank(spec_entity_field_str(fields, seq!["reply_channel_id", "ReplyChannelId"]));
    let thread = keep_nonblank(spec_entity_field_str(fields, seq!["reply_thread_id", "ReplyThreadId"]));
    if channel is Some && thread is Some {
        Some(
            (
                channel->0,
                thread->0,
                keep_nonblank(
                    spec_entity_field_str(fields, seq!["reply_channel_entity_id", "ReplyChannelEntityId"]),
                ),
                keep_nonblank(spec_entity_field_str(fields, seq!["reply_channel_type", "ReplyChannelType"])),
            ),
        )
    } else {
        None
    }
}

/// The field under the first of `keys` when it is non-blank.
fn nonblank_field(value: &Json, keys: &[&str]) -> (res: Option<String>)
    ensures
        match res {
            Some(s) => keep_nonblank(spec_entity_field_str(value@, keys@)) == Some(s@),
            None => keep_nonblank(spec_entity_field_str(value@, keys@)) is None,
        },
{
    match entity_field_str(value, keys) {
        Some(s) => {
            let trimmed = str_trim(s);
            if trimmed.as_str().unicode_len() == 0 {
                None
            } else {
                Some(String::from_str(s))
            }
        },
        None => None,
    }
}

/// The reply route a session recorded, when both channel and thread are set.
pub fn delivery_route_from_session_fields(fields: &Json) -> (res: Option<DeliveryRoute>)
    ensures
        opt_route_view(res) == spec_route_from_session_fields(fields@),
{
    let channel_keys: [&str; 2] = ["reply_channel_id", "ReplyChannelId"];
    let thread_keys: [&str; 2] = ["reply_thread_id", "ReplyThreadId"];
    let entity_keys: [&str; 2] = ["reply_channel_entity_id", "ReplyChannelEntityId"];
    let type_keys: [&str; 2] = ["reply_channel_type", "ReplyChannelType"];
    assert(channel_keys@ == seq!["reply_channel_id", "ReplyChannelId"]);
    assert(thread_keys@ == seq!["reply_thread_id", "ReplyThreadId"]);
    assert(entity_keys@ == seq!["reply_channel_entity_id", "ReplyChannelEntityId"]);
    assert(type_keys@ == seq!["reply_channel_type", "ReplyChannelType"]);
    let channel_id = nonblank_field(fields, &channel_keys)?;
    let thread_id = nonblank_field(fields, &thread_keys)?;
    let channel_entity_id = nonblank_field(fields, &entity_keys);
    let channel_type = nonblank_field(fields, &type_keys);
    Some(DeliveryRoute { channel_id, thread_id, channel_entity_id, channel_type })
}

/// The route a ChannelSession row names: its channel and thread, both non-blank.
pub open spec fn spec_route_from_channel_session(session: JsonV) -> Option<
    (Seq<char>, Seq<char>, Option<Seq<char>>, Option<Seq<char>>),
> {
    let channel = keep_nonblank(spec_entity_field_str(session, seq!["ChannelId", "channel_id"]));
    let thread = keep_nonblank(spec_entity_field_str(session, seq!["ThreadId", "thread_id"]));
    if channel is Some && thread is Some {
        Some((channel->0, thread->0, None, None))
    } else {
        None
    }
}

/// The route a ChannelSession row names.
pub fn delivery_route_from_channel_session(session: &Json) -> (res: Option<DeliveryRoute>)
    ensures
        opt_route_view(res) == spec_route_from_channel_session(session@),
{
    let channel_keys: [&str; 2] = ["ChannelId", "channel_id"];
    let thread_keys: [&str; 2] = ["ThreadId", "thread_id"];
    assert(channel_keys@ == seq!["ChannelId", "channel_id"]);
    assert(thread_keys@ == seq!["ThreadId", "thread_id"]);
    let channel_id = nonblank_field(session, &channel_keys)?;
    let thread_id = nonblank_field(session, &thread_keys)?;
    Some(DeliveryRoute { channel_id, thread_id, channel_entity_id: None, channel_type: None })
}

/// A ChannelSession row whose `ChannelId` and `ThreadId` hold non-blank
/// text routes the reply to that channel and that thread, with no channel
/// entity or type; a row whose `ChannelId` or `ThreadId` holds blank text
/// gives no route.
pub proof fn law_channel_session_route(session: JsonV, channel: Seq<char>, thread: Seq<char>)
    requires
        spec_get(session, "ChannelId"@) == Some(JsonV::String(channel)),
        spec_get(session, "ThreadId"@) == Some(JsonV::String(thread)),
    ensures
        nonblank(channel) && nonblank(thread) ==> spec_route_from_channel_session(session) == Some(
            (channel, thread, None::<Seq<char>>, None::<Seq<char>>),
        ),
        !nonblank(channel) || !nonblank(thread) ==> spec_route_from_channel_session(session) is None,
{
    let ck: Seq<&str> = seq!["ChannelId", "channel_id"];
    let tk: Seq<&str> = seq!["ThreadId", "thread_id"];
    assert(ck[0]@ == "ChannelId"@);
    assert(tk[0]@ == "ThreadId"@);
    assert(crate::json::first_key_str(session, ck) == Some(channel));
    assert(crate::json::first_key_str(session, tk) == Some(thread));
}

/// A session whose fields hold non-blank `reply_channel_id` and
/// `reply_thread_id` text routes the reply to that channel and that thread.
pub proof fn law_session_fields_route(fields: JsonV, channel: Seq<char>, thread: Seq<char>)
    requires
        spec_get(fields, "reply_channel_id"@) == Some(JsonV::String(channel)),
        spec_get(fields, "reply_thread_id"@) == Some(JsonV::String(thread)),
        nonblank(channel),
        nonblank(thread),
    ensures
        spec_route_from_session_fields(fields) matches Some(r) && r.0 == channel && r.1 == thread,
{
    let ck: Seq<&str> = seq!["reply_channel_id", "ReplyChannelId"];
    let tk: Seq<&str> = seq!["reply_thread_id", "ReplyThreadId"];
    assert(ck[0]@ == "reply_channel_id"@);
    assert(tk[0]@ == "reply_thread_id"@);
    assert(crate::json::first_key_str(fields, ck) == Some(channel));
    assert(crate::json::first_key_str(fields, tk) == Some(thread));
}

/// A direct session (its own agent binding, no parent) has no channel to look up.
pub open spec fn spec_should_skip(current: Seq<char>, agent: Seq<char>, parent: Seq<char>) -> bool {
    let c = trim(current);
    c.len() > 0 && c == trim(agent) && trim(parent).len() == 0
}

/// Whether the ChannelSession lookup is skipped for these ids.
pub fn should_skip_channel_session_lookup(current_session_id: &str, agent_id: &str, parent_session_id: &str) -> (res: bool)
    ensures
        res == spec_should_skip(current_session_id@, agent_id@, parent_session_id@),
{
    let current = str_trim(current_session_id);
    let agent = str_trim(agent_id);
    let parent = str_trim(parent_session_id);
    current.as_str().unicode_len() > 0 && str_eq(current.as_str(), agent.as_str()) && parent.as_str().unicode_len() == 0
}

/// Unless the session is a direct one (then there is nothing to look up),
/// the lookups try the current session first, its binding belonging to the
/// agent; then a parent session that differs from it, its binding belonging
/// to the parent; then the agent's active binding and any binding of the
/// agent. Each filter ends by matching its id, single quotes doubled.
pub proof fn law_lookup_candidates(current: Seq<char>, agent: Seq<char>, parent: Seq<char>)
    ensures
        ({
            let c = trim(current);
            let p = trim(parent);
            let a = trim(agent);
            let cs = spec_lookup_candidates(current, agent, parent);
            let nc: int = if c.len() > 0 { 1 } else { 0 };
            let np: int = if p.len() > 0 && p != c { 1 } else { 0 };
            let closes = |id: Seq<char>| replace_all(id, "'"@, "''"@) + "'&$top=1"@;
            &&& spec_should_skip(c, a, p) ==> cs.len() == 0
            &&& !spec_should_skip(c, a, p) ==> {
                &&& cs.len() == nc + np + if a.len() > 0 { 2int } else { 0 }
                &&& nc == 1 ==> cs[0].1 == a && crate::text::has_suffix(cs[0].0, closes(c))
                &&& np == 1 ==> cs[nc].1 == p && crate::text::has_suffix(cs[nc].0, closes(p))
                &&& a.len() > 0 ==> cs[nc + np].1 == a && cs[nc + np + 1].1 == a && crate::text::has_suffix(
                    cs[nc + np].0,
                    closes(a),
                ) && crate::text::has_suffix(cs[nc + np + 1].0, closes(a))
            }
        }),
{
    let c = trim(current);
    let p = trim(parent);
    let a = trim(agent);
    reveal_strlit("'&$top=1");
    assert forall|pre: Seq<char>, id: Seq<char>| crate::text::has_suffix(
        #[trigger] (pre + replace_all(id, "'"@, "''"@) + "'&$top=1"@),
        replace_all(id, "'"@, "''"@) + "'&$top=1"@,
    ) by {
        let u = pre + replace_all(id, "'"@, "''"@) + "'&$top=1"@;
        let t = replace_all(id, "'"@, "''"@) + "'&$top=1"@;
        assert(u.subrange(u.len() - t.len(), u.len() as int) =~= t);
    }
}

/// An OData string literal body: single quotes doubled.
pub fn escape_odata(value: &str) -> (res: String)
    ensures
        res@ == replace_all(value@, "'"@, "''"@),
{
    proof {
        reveal_strlit("'");
    }
    str_replace(value, "'", "''")
}

/// The filter selecting the active ChannelSession of a session.
pub open spec fn session_filter(id: Seq<char>) -> Seq<char> {
    "$filter=Status eq 'Active' and session_entity_id eq '"@ + replace_all(id, "'"@, "''"@) + "'&$top=1"@
}

/// The filter selecting the active ChannelSession bound to an agent.
pub open spec fn active_agent_filter(id: Seq<char>) -> Seq<char> {
    "$filter=Status eq 'Active' and agent_entity_id eq '"@ + replace_all(id, "'"@, "''"@) + "'&$top=1"@
}

/// The filter selecting any ChannelSession bound to an agent.
pub open spec fn any_agent_filter(id: Seq<char>) -> Seq<char> {
    "$filter=agent_entity_id eq '"@ + replace_all(id, "'"@, "''"@) + "'&$top=1"@
}

/// The lookups to try, in order, as (filter, bound id) pairs: the current
/// session, then a distinct parent session, then the agent's active and any
/// binding. None for a direct session.
pub open spec fn spec_lookup_candidates(current: Seq<char>, agent: Seq<char>, parent: Seq<char>) -> Seq<
    (Seq<char>, Seq<char>),
> {
    let c = trim(current);
    let p = trim(parent);
    let a = trim(agent);
    if spec_should_skip(c, a, p) {
        seq![]
    } else {
        let first = if c.len() > 0 { seq![(session_filter(c), a)] } else { seq![] };
        let second = if p.len() > 0 && p != c { seq![(session_filter(p), p)] } else { seq![] };
        let third = if a.len() > 0 {
            seq![(active_agent_filter(a), a), (any_agent_filter(a), a)]
        } else {
            seq![]
        };
        first + second + third
    }
}

/// A lookup as plain values.
pub open spec fn lookup_view(l: ChannelSessionLookup) -> (Seq<char>, Seq<char>) {
    (l.filter@, l.bound_id@)
}

/// Build a filter: `prefix`, the escaped id, then `'&$top=1`.
fn filter_for(prefix: &str, id: &str) -> (res: String)
    ensures
        res@ == prefix@ + replace_all(id@, "'"@, "''"@) + "'&$top=1"@,
{
    let mut f = String::from_str(prefix);
    let escaped = escape_odata(id);
    f.append(escaped.as_str());
    f.append("'&$top=1");
    f
}

/// The ChannelSession lookups to try for these ids, in order.
pub fn channel_session_lookup_candidates(current_session_id: &str, agent_id: &str, parent_session_id: &str) -> (res: Vec<ChannelSessionLookup>)
    ensures
        res@.map_values(|l: ChannelSessionLookup| lookup_view(l)) == spec_lookup_candidates(
            current_session_id@,
            agent_id@,
            parent_session_id@,
        ),
{
    let mut candidates: Vec<ChannelSessionLookup> = Vec::new();
    let current = str_trim(current_session_id);
    let parent = str_trim(parent_session_id);
    let agent = str_trim(agent_id);
    let ghost c = current@;
    let ghost p = parent@;
    let ghost a = agent@;
    if should_skip_channel_session_lookup(current.as_str(), agent.as_str(), parent.as_str()) {
        assert(candidates@.map_values(|l: ChannelSessionLookup| lookup_view(l)) =~= seq![]);
        return candidates;
    }
    let ghost first = if c.len() > 0 { seq![(session_filter(c), a)] } else { seq![] };
    let ghost second = if p.len() > 0 && p != c { seq![(session_filter(p), p)] } else { seq![] };
    if current.as_str().unicode_len() > 0 {
        let filter = filter_for("$filter=Status eq 'Active' and session_entity_id eq '", current.as_str());
        candidates.push(ChannelSessionLookup { filter, bound_id: String::from_str(agent.as_str()) });
    }
    assert(candidates@.map_values(|l: ChannelSessionLookup| lookup_view(l)) =~= first);
    if parent.as_str().unicode_len() > 0 && !str_eq(parent.as_str(), current.as_str()) {
        let filter = filter_for("$filter=Status eq 'Active' and session_entity_id eq '", parent.as_str());
        candidates.push(ChannelSessionLookup { filter, bound_id: String::from_str(parent.as_str()) });
    }
    assert(candidates@.map_values(|l: ChannelSessionLookup| lookup_view(l)) =~= first + second);
    if agent.as_str().unicode_len() > 0 {
        let filter = filter_for("$filter=Status eq 'Active' and agent_entity_id eq '", agent.as_str());
        candidates.push(ChannelSessionLookup { filter, bound_id: String::from_str(agent.as_str()) });
        let filter = filter_for("$filter=agent_entity_id eq '", agent.as_str());
        candidates.push(ChannelSessionLookup { filter, bound_id: String::from_str(agent.as_str()) });
    }
    assert(candidates@.map_values(|l: ChannelSessionLookup| lookup_view(l)) =~= spec_lookup_candidates(
        current_session_id@,
        agent_id@,
        parent_session_id@,
    ));
    candidates
}

/// Just the filters of `channel_session_lookup_candidates`.
pub fn channel_session_lookup_filters(current_session_id: &str, agent_id: &str, parent_session_id: &str) -> (res: Vec<String>)
    ensures
        res@.map_values(|f: String| f@) == spec_lookup_candidates(
            current_session_id@,
            agent_id@,
            parent_session_id@,
        ).map_values(|l: (Seq<char>, Seq<char>)| l.0),
{
    let candidates = channel_session_lookup_candidates(current_session_id, agent_id, parent_session_id);
    let mut filters: Vec<String> = Vec::new();
    let mut i: usize = 0;
    while i < candidates.len()
        invariant
            i <= candidates@.len(),
            filters@.len() == i,
            forall|k: int| 0 <= k < i ==> filters@[k]@ == candidates@[k].filter@,
        decreases candidates@.len() - i,
    {
        filters.push(candidates[i].filter.clone());
        i += 1;
    }
    let ghost views = candidates@.map_values(|l: ChannelSessionLookup| lookup_view(l));
    assert(views.len() == candidates@.len());
    assert(filters@.map_values(|f: String| f@) =~= spec_lookup_candidates(
        current_session_id@,
        agent_id@,
        parent_session_id@,
    ).map_values(|l: (Seq<char>, Seq<char>)| l.0));
    filters
}

} // verus!
