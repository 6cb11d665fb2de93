//! Approved actions: the stored request that is replayed once a human
//! approves it, the outcome reported back, and the lookups that find the
//! thread the agent's user is notified in.

use vstd::prelude::*;
use vstd::utf8::{encode_utf8, is_char_boundary};
use crate::compaction::{byte_prefix, shown_prefix, utf8_len};
use crate::json::{
    Json, JsonV, spec_entity_field_str, entity_field_str, object2, object3, string_value,
    spec_get, spec_as_array, items_view, lemma_items_view,
};
use crate::routes::escape_odata;
use crate::text::{replace_all, i64_to_string, decimal, chars_of};

verus! {

/// An approved action, as its approval record stores it.
pub struct ApprovedAction {
    pub target_url: String,
    pub target_body: String,
    pub action_description: String,
    pub agent_entity_id: String,
    pub reviewer_id: String,
}

/// A string read by `entity_field_str` under a name or its PascalCase
/// alternative, or a default.
pub open spec fn field2_or(value: JsonV, key: &'static str, alt: &'static str, default_value: Seq<char>) -> Seq<char> {
    match spec_entity_field_str(value, seq![key, alt]) {
        Some(s) => s,
        None => default_value,
    }
}

/// The action an approval record holds, each field with its default.
pub open spec fn action_from(fields: JsonV, a: ApprovedAction) -> bool {
    &&& a.target_url@ == field2_or(fields, "target_url", "TargetUrl", ""@)
    &&& a.target_body@ == field2_or(fields, "target_body", "TargetBody", "{}"@)
    &&& a.action_description@ == field2_or(fields, "action_description", "ActionDescription", ""@)
    &&& a.agent_entity_id@ == field2_or(fields, "agent_entity_id", "AgentEntityId", ""@)
    &&& a.reviewer_id@ == field2_or(fields, "reviewer_id", "ReviewerId", "unknown"@)
}

/// Reads a string under a name or its alternative, or a default.
fn read_field2(value: &Json, key: &'static str, alt: &'static str, default_value: &str) -> (res: String)
    ensures
        res@ == field2_or(value@, key, alt, default_value@),
{
    let keys = [key, alt];
    assert(keys@ =~= seq![key, alt]);
    match entity_field_str(value, &keys) {
        Some(s) => s.to_string(),
        None => default_value.to_string(),
    }
}

/// Reads the approved action from its approval record's fields.
pub fn read_approved_action(fields: &Json) -> (res: ApprovedAction)
    ensures
        action_from(fields@, res),
{
    ApprovedAction {
        target_url: read_field2(fields, "target_url", "TargetUrl", ""),
        target_body: read_field2(fields, "target_body", "TargetBody", "{}"),
        action_description: read_field2(fields, "action_description", "ActionDescription", ""),
        agent_entity_id: read_field2(fields, "agent_entity_id", "AgentEntityId", ""),
        reviewer_id: read_field2(fields, "reviewer_id", "ReviewerId", "unknown"),
    }
}

/// A status in the success range.
pub open spec fn is_success(status: u16) -> bool {
    200 <= status && status < 300
}

/// What the replayed action's reply is summed up as: the status of a success,
/// or the status and the first 200 bytes of the body of a failure.
pub open spec fn spec_retry_summary(status: u16, body: Seq<char>) -> Seq<char> {
    if is_success(status) {
        "Action succeeded (HTTP "@ + decimal(status as nat) + ")"@
    } else {
        "Action failed (HTTP "@ + decimal(status as nat) + "): "@ + shown_prefix(body, 200)
    }
}

/// Sums up the replayed action's reply: whether it succeeded, and the
/// summary. A failure's body is cut at byte 200, which must then fall on a
/// character boundary (else the slice would panic).
pub fn retry_outcome(status: u16, body: &str) -> (res: (bool, String))
    requires
        !is_success(status) && utf8_len(body@) > 200 ==> is_char_boundary(encode_utf8(body@), 200),
    ensures
        res.0 == is_success(status),
        res.1@ == spec_retry_summary(status, body@),
{
    let code = i64_to_string(status as i64);
    if 200 <= status && status < 300 {
        let mut s = String::from_str("Action succeeded (HTTP ");
        s.append(code.as_str());
        s.append(")");
        (true, s)
    } else {
        let mut s = String::from_str("Action failed (HTTP ");
        s.append(code.as_str());
        s.append("): ");
        let head = byte_prefix(body, 200);
        s.append(head.as_str());
        (false, s)
    }
}

/// The message the agent's user gets about an approved action.
pub open spec fn spec_approval_notice(success: bool, action_description: Seq<char>, summary: Seq<char>) -> Seq<char> {
    if success {
        "**Approved and executed**: "@ + action_description
    } else {
        "**Approved but failed**: "@ + action_description + "\n"@ + summary
    }
}

/// The message the agent's user gets about an approved action.
pub fn approval_notice(success: bool, action_description: &str, summary: &str) -> (res: String)
    ensures
        res@ == spec_approval_notice(success, action_description@, summary@),
{
    if success {
        let mut s = String::from_str("**Approved and executed**: ");
        s.append(action_description);
        s
    } else {
        let mut s = String::from_str("**Approved but failed**: ");
        s.append(action_description);
        s.append("\n");
        s.append(summary);
        s
    }
}

/// The result an approval reports: `executed` or `failed`, the action, and
/// the summary.
pub fn approval_result(success: bool, action_description: &str, summary: &str) -> (res: Json)
    ensures
        res@ == JsonV::Object(seq![
            ("status"@, JsonV::String(if success { "executed"@ } else { "failed"@ })),
            ("action_description"@, JsonV::String(action_description@)),
            ("result"@, JsonV::String(summary@)),
        ]),
{
    let status = if success { "executed" } else { "failed" };
    object3(
        "status",
        string_value(status),
        "action_description",
        string_value(action_description),
        "result",
        string_value(summary),
    )
}

/// The query for the channel session bound to an agent.
pub open spec fn spec_agent_session_url(api: Seq<char>, agent_id: Seq<char>) -> Seq<char> {
    api + "/tdata/ChannelSessions?$filter=agent_entity_id eq '"@ + replace_all(agent_id, "'"@, "''"@)
        + "'&$top=1"@
}

/// The query for the channel session bound to an agent.
pub fn agent_session_url(api: &str, agent_id: &str) -> (res: String)
    ensures
        res@ == spec_agent_session_url(api@, agent_id@),
{
    let mut s = api.to_string();
    s.append("/tdata/ChannelSessions?$filter=agent_entity_id eq '");
    s.append(escape_odata(agent_id).as_str());
    s.append("'&$top=1");
    s
}

/// The query for the connected channel with an external id.
pub open spec fn spec_connected_channel_url(api: Seq<char>, channel_id: Seq<char>) -> Seq<char> {
    api + "/tdata/Channels?$filter=Status eq 'Connected' and channel_id eq '"@ + replace_all(
        channel_id,
        "'"@,
        "''"@,
    ) + "'&$top=1"@
}

/// The query for the connected channel with an external id.
pub fn connected_channel_url(api: &str, channel_id: &str) -> (res: String)
    ensures
        res@ == spec_connected_channel_url(api@, channel_id@),
{
    let mut s = api.to_string();
    s.append("/tdata/Channels?$filter=Status eq 'Connected' and channel_id eq '");
    s.append(escape_odata(channel_id).as_str());
    s.append("'&$top=1");
    s
}

/// The first entity of a list reply (`value[0]`).
pub open spec fn first_listed(reply: JsonV) -> Option<JsonV> {
    match spec_get(reply, "value"@) {
        Some(v) => match spec_as_array(v) {
            Some(items) if items.len() > 0 => Some(items[0]),
            _ => None,
        },
        None => None,
    }
}

/// The first entity of a list reply.
pub fn first_listed_entity(reply: &Json) -> (res: Option<&Json>)
    ensures
        crate::json::opt_json(res) == first_listed(reply@),
{
    match reply.get_array("value") {
        Some(items) => {
            proof {
                lemma_items_view(items@);
            }
            if items.len() > 0 {
                Some(&items[0])
            } else {
                None
            }
        },
        None => None,
    }
}

/// The channel and thread a channel session points at, when both are set.
pub open spec fn spec_session_thread(session: JsonV) -> Option<(Seq<char>, Seq<char>)> {
    let channel = field2_or(session, "ChannelId", "channel_id", ""@);
    let thread = field2_or(session, "ThreadId", "thread_id", ""@);
    if channel.len() > 0 && thread.len() > 0 {
        Some((channel, thread))
    } else {
        None
    }
}

/// The channel and thread a channel session points at, when both are set.
pub fn session_thread(session: &Json) -> (res: Option<(String, String)>)
    ensures
        match res {
            Some((c, t)) => spec_session_thread(session@) == Some((c@, t@)),
            None => spec_session_thread(session@) is None,
        },
{
    let channel = read_field2(session, "ChannelId", "channel_id", "");
    let thread = read_field2(session, "ThreadId", "thread_id", "");
    if chars_of(channel.as_str()).len() > 0 && chars_of(thread.as_str()).len() > 0 {
        Some((channel, thread))
    } else {
        None
    }
}

/// The webhook a channel posts to, when it has one.
pub open spec fn spec_channel_webhook(channel: JsonV) -> Option<Seq<char>> {
    let url = field2_or(channel, "webhook_url", "WebhookUrl", ""@);
    if url.len() > 0 {
        Some(url)
    } else {
        None
    }
}

/// The webhook a channel posts to, when it has one.
pub fn channel_webhook(channel: &Json) -> (res: Option<String>)
    ensures
        crate::text::opt_string(res) == spec_channel_webhook(channel@),
{
    let url = read_field2(channel, "webhook_url", "WebhookUrl", "");
    if chars_of(url.as_str()).len() > 0 {
        Some(url)
    } else {
        None
    }
}

/// The message posted to a channel's webhook for a thread.
pub fn webhook_body(thread_id: &str, content: &str, agent_entity_id: &str) -> (res: Json)
    ensures
        res@ == JsonV::Object(seq![
            ("thread_id"@, JsonV::String(thread_id@)),
            ("content"@, JsonV::String(content@)),
            ("agent_entity_id"@, JsonV::String(agent_entity_id@)),
        ]),
{
    object3(
        "thread_id",
        string_value(thread_id),
        "content",
        string_value(content),
        "agent_entity_id",
        string_value(agent_entity_id),
    )
}


/// The notice of an executed action names the action; that of a failed one
/// names the action and then, on its own line, the failure's summary.
pub proof fn law_approval_notice(success: bool, action_description: Seq<char>, summary: Seq<char>)
    ensures
        success ==> crate::text::has_prefix(spec_approval_notice(success, action_description, summary), "**Approved and executed**: "@)
            && crate::text::has_suffix(spec_approval_notice(success, action_description, summary), action_description),
        !success ==> crate::text::has_prefix(
            spec_approval_notice(success, action_description, summary),
            "**Approved but failed**: "@ + action_description,
        ) && crate::text::has_suffix(spec_approval_notice(success, action_description, summary), "\n"@ + summary),
{
    let n = spec_approval_notice(success, action_description, summary);
    if success {
        let p = "**Approved and executed**: "@;
        assert(n.subrange(0, p.len() as int) =~= p);
        assert(n.subrange(n.len() - action_description.len(), n.len() as int) =~= action_description);
    } else {
        let p = "**Approved but failed**: "@ + action_description;
        let t = "\n"@ + summary;
        assert(n.subrange(0, p.len() as int) =~= p);
        assert(n.subrange(n.len() - t.len(), n.len() as int) =~= t);
    }
}

/// The query for an agent's channel session is addressed to the API and
/// ends by matching the agent id, its single quotes doubled.
pub proof fn law_agent_session_url(api: Seq<char>, agent_id: Seq<char>)
    ensures
        crate::text::has_prefix(spec_agent_session_url(api, agent_id), api),
        crate::text::has_suffix(spec_agent_session_url(api, agent_id), replace_all(agent_id, "'"@, "''"@) + "'&$top=1"@),
{
    let u = spec_agent_session_url(api, agent_id);
    let t = replace_all(agent_id, "'"@, "''"@) + "'&$top=1"@;
    assert(u.subrange(0, api.len() as int) =~= api);
    assert(u.subrange(u.len() - t.len(), u.len() as int) =~= t);
}

/// The query for a connected channel is addressed to the API and ends by
/// matching the channel id, its single quotes doubled.
pub proof fn law_connected_channel_url(api: Seq<char>, channel_id: Seq<char>)
    ensures
        crate::text::has_prefix(spec_connected_channel_url(api, channel_id), api),
        crate::text::has_suffix(
            spec_connected_channel_url(api, channel_id),
            replace_all(channel_id, "'"@, "''"@) + "'&$top=1"@,
        ),
{
    let u = spec_connected_channel_url(api, channel_id);
    let t = replace_all(channel_id, "'"@, "''"@) + "'&$top=1"@;
    assert(u.subrange(0, api.len() as int) =~= api);
    assert(u.subrange(u.len() - t.len(), u.len() as int) =~= t);
}

} // verus!
