//! The reply an agent run sends back to its channel: its text, and the
//! channel action that delivers it.

use vstd::prelude::*;
use crate::json::{Json, JsonV, spec_get, spec_entity_field_str, entity_field_str, items_view};
use crate::text::{str_eq, trim};

verus! {

/// A string, unless it is empty.
pub open spec fn nonempty_text(o: Option<Seq<char>>) -> Option<Seq<char>> {
    match o {
        Some(s) if s.len() > 0 => Some(s),
        _ => None,
    }
}

/// The result keys, in the order they are tried.
pub open spec fn result_keys() -> Seq<&'static str> {
    seq!["result", "Result"]
}

/// The error keys, in the order they are tried.
pub open spec fn error_keys() -> Seq<&'static str> {
    seq!["error_message", "ErrorMessage", "error"]
}

/// The reply an event carries: the non-empty result of its parameters, else
/// their non-empty error.
pub open spec fn event_reply(event: JsonV) -> Option<Seq<char>> {
    match spec_get(event, "params"@) {
        Some(p) => match nonempty_text(spec_entity_field_str(p, result_keys())) {
            Some(r) => Some(r),
            None => nonempty_text(spec_entity_field_str(p, error_keys())),
        },
        None => None,
    }
}

/// The reply of the latest event that carries one.
pub open spec fn latest_event_reply(events: Seq<JsonV>) -> Option<Seq<char>>
    decreases events.len(),
{
    if events.len() == 0 {
        None
    } else {
        match event_reply(events.last()) {
            Some(r) => Some(r),
            None => latest_event_reply(events.drop_last()),
        }
    }
}

/// The reply that stands for a run that gave none, by its final status.
pub open spec fn status_reply(status: Seq<char>) -> Seq<char> {
    if status == "Cancelled"@ {
        "Agent was cancelled before it could produce a reply."@
    } else if status == "Failed"@ {
        "Agent failed before it could produce a reply."@
    } else if status == "Completed"@ {
        "Agent completed without returning any reply text."@
    } else if status.len() > 0 {
        "Agent ended with status="@ + status + "."@
    } else {
        "Agent finished without a reply."@
    }
}

/// The reply text of a finished run: the latest event's result or error,
/// else the entity's own result or error, else a note on its status.
pub open spec fn spec_reply_text(entity_state: JsonV, status: Seq<char>) -> Seq<char> {
    let from_events = match crate::json::opt_array(spec_get(entity_state, "events"@)) {
        Some(events) => latest_event_reply(events),
        None => None,
    };
    let fields = match spec_get(entity_state, "fields"@) {
        Some(f) => f,
        None => JsonV::Object(seq![]),
    };
    match from_events {
        Some(r) => r,
        None => match nonempty_text(spec_entity_field_str(fields, result_keys())) {
            Some(r) => r,
            None => match nonempty_text(spec_entity_field_str(fields, error_keys())) {
                Some(e) => e,
                None => status_reply(status),
            },
        },
    }
}

/// A non-empty string read by `entity_field_str`.
fn nonempty_field(value: &Json, keys: &[&str]) -> (res: Option<String>)
    ensures
        crate::text::opt_string(res) == nonempty_text(spec_entity_field_str(value@, keys@)),
{
    match entity_field_str(value, keys) {
        Some(s) => if s.is_empty() {
            None
        } else {
            Some(s.to_string())
        },
        None => None,
    }
}

/// The reply an event carries.
fn read_event_reply(event: &Json) -> (res: Option<String>)
    ensures
        crate::text::opt_string(res) == event_reply(event@),
{
    let rk = ["result", "Result"];
    let ek = ["error_message", "ErrorMessage", "error"];
    assert(rk@ =~= result_keys());
    assert(ek@ =~= error_keys());
    match event.get("params") {
        Some(p) => match nonempty_field(p, &rk) {
            Some(r) => Some(r),
            None => nonempty_field(p, &ek),
        },
        None => None,
    }
}

/// The reply text sent to the channel when a run ends.
pub fn build_reply_text(entity_state: &Json, status: &str) -> (res: String)
    ensures
        res@ == spec_reply_text(entity_state@, status@),
{
    if let Some(events) = entity_state.get_array("events") {
        let ghost ev = items_view(events@);
        proof {
            crate::json::lemma_items_view(events@);
        }
        let mut i: usize = events.len();
        assert(ev.take(i as int) =~= ev);
        while i > 0
            invariant
                crate::json::opt_array(spec_get(entity_state@, "events"@)) == Some(ev),
                i <= events@.len(),
                ev == items_view(events@),
                ev.len() == events@.len(),
                forall|j: int| 0 <= j < events@.len() ==> #[trigger] ev[j] == events@[j]@,
                latest_event_reply(ev) == latest_event_reply(ev.take(i as int)),
            decreases i,
        {
            assert(ev.take(i as int).drop_last() =~= ev.take(i - 1));
            if let Some(r) = read_event_reply(&events[i - 1]) {
                assert(ev.take(i as int).last() == events@[i - 1]@);
                return r;
            }
            i -= 1;
        }
        assert(ev.take(0) =~= Seq::<JsonV>::empty());
    }
    let rk = ["result", "Result"];
    let ek = ["error_message", "ErrorMessage", "error"];
    assert(rk@ =~= result_keys());
    assert(ek@ =~= error_keys());
    let none: Vec<(String, Json)> = Vec::new();
    proof {
        crate::json::lemma_members_view_empty(none@);
    }
    let empty = Json::Object(none);
    let fields = match entity_state.get("fields") {
        Some(f) => f,
        None => &empty,
    };
    if let Some(r) = nonempty_field(fields, &rk) {
        return r;
    }
    if let Some(e) = nonempty_field(fields, &ek) {
        return e;
    }
    if str_eq(status, "Cancelled") {
        "Agent was cancelled before it could produce a reply.".to_string()
    } else if str_eq(status, "Failed") {
        "Agent failed before it could produce a reply.".to_string()
    } else if str_eq(status, "Completed") {
        "Agent completed without returning any reply text.".to_string()
    } else if !status.is_empty() {
        let mut out = String::from_str("Agent ended with status=");
        out.append(status);
        out.append(".");
        out
    } else {
        "Agent finished without a reply.".to_string()
    }
}

/// Whether a channel takes replies inline (`cli` or `tui`, once trimmed).
pub open spec fn inline_channel(channel_type: Option<Seq<char>>) -> bool {
    match channel_type {
        Some(t) => trim(t) == "cli"@ || trim(t) == "tui"@,
        None => false,
    }
}

/// Whether a channel takes replies inline.
pub fn is_inline_reply_channel(channel_type: Option<&str>) -> (res: bool)
    ensures
        res == inline_channel(crate::json::opt_view(channel_type)),
{
    match channel_type {
        Some(t) => {
            let trimmed = crate::text::str_trim(t);
            str_eq(trimmed.as_str(), "cli") || str_eq(trimmed.as_str(), "tui")
        },
        None => false,
    }
}

/// The channel action that delivers a reply: an inline channel records it
/// as delivered, any other channel sends it.
pub open spec fn reply_action_name(channel_type: Option<Seq<char>>) -> Seq<char> {
    if inline_channel(channel_type) {
        "ReplyDelivered"@
    } else {
        "SendReply"@
    }
}

/// The channel action that delivers a reply.
pub fn channel_reply_action_name(channel_type: Option<&str>) -> (res: &'static str)
    ensures
        res@ == reply_action_name(crate::json::opt_view(channel_type)),
{
    if is_inline_reply_channel(channel_type) {
        "ReplyDelivered"
    } else {
        "SendReply"
    }
}

/// The URL of the channel action that delivers a reply; sending waits for
/// the integration.
pub open spec fn reply_action_url(
    temper_api_url: Seq<char>,
    channel_entity_id: Seq<char>,
    channel_type: Option<Seq<char>>,
) -> Seq<char> {
    let name = reply_action_name(channel_type);
    temper_api_url + "/tdata/Channels('"@ + channel_entity_id + "')/Paw.Channel."@ + name + if name
        == "SendReply"@ {
        "?await_integration=true"@
    } else {
        seq![]
    }
}

/// The URL of the channel action that delivers a reply.
pub fn channel_reply_action_url(
    temper_api_url: &str,
    channel_entity_id: &str,
    channel_type: Option<&str>,
) -> (res: String)
    ensures
        res@ == reply_action_url(temper_api_url@, channel_entity_id@, crate::json::opt_view(channel_type)),
{
    let action_name = channel_reply_action_name(channel_type);
    let mut url = String::from_str(temper_api_url);
    url.append("/tdata/Channels('");
    url.append(channel_entity_id);
    url.append("')/Paw.Channel.");
    url.append(action_name);
    if str_eq(action_name, "SendReply") {
        url.append("?await_integration=true");
    }
    url
}

/// A body cut for a log line: up to 240 bytes as it is, else its first
/// 240 bytes and `...`.
pub open spec fn spec_truncate_body(body: Seq<char>) -> Seq<char> {
    if crate::compaction::utf8_len(body) <= 240 {
        body
    } else {
        crate::compaction::utf8_head(body, 240) + "..."@
    }
}

/// Cuts a body for a log line. The cut is at byte 240, which must fall on
/// a character boundary (else the slice would panic).
pub fn truncate_body(body: &str) -> (res: String)
    requires
        crate::compaction::utf8_len(body@) > 240 ==> vstd::utf8::is_char_boundary(
            vstd::utf8::encode_utf8(body@),
            240,
        ),
    ensures
        res@ == spec_truncate_body(body@),
{
    if body.len() <= 240 {
        body.to_string()
    } else {
        let (head, _) = body.split_at(240);
        proof {
            vstd::utf8::encode_utf8_decode_utf8(head@);
        }
        let mut out = head.to_string();
        out.append("...");
        out
    }
}

/// The address of a soul by its id.
pub open spec fn spec_soul_by_id_url(api: Seq<char>, soul_ref: Seq<char>) -> Seq<char> {
    api + "/tdata/Souls('"@ + soul_ref + "')"@
}

/// The address of a soul by its id.
pub fn soul_by_id_url(api: &str, soul_ref: &str) -> (res: String)
    ensures
        res@ == spec_soul_by_id_url(api@, soul_ref@),
{
    let mut s = api.to_string();
    s.append("/tdata/Souls('");
    s.append(soul_ref);
    s.append("')");
    s
}

/// The query for the active soul with a name.
pub open spec fn spec_soul_by_name_url(api: Seq<char>, soul_ref: Seq<char>) -> Seq<char> {
    api + "/tdata/Souls?$filter=Name eq '"@ + crate::text::replace_all(soul_ref, "'"@, "''"@)
        + "' and Status eq 'Active'&$top=1"@
}

/// The query for the active soul with a name.
pub fn soul_by_name_url(api: &str, soul_ref: &str) -> (res: String)
    ensures
        res@ == spec_soul_by_name_url(api@, soul_ref@),
{
    let mut s = api.to_string();
    s.append("/tdata/Souls?$filter=Name eq '");
    s.append(crate::routes::escape_odata(soul_ref).as_str());
    s.append("' and Status eq 'Active'&$top=1");
    s
}

/// The name keys of a soul, in the order they are tried.
pub open spec fn name_keys() -> Seq<&'static str> {
    seq!["Name", "name"]
}

/// The name a soul entity carries.
pub fn soul_entity_name(soul: &Json) -> (res: Option<String>)
    ensures
        crate::text::opt_string(res) == spec_entity_field_str(soul@, name_keys()),
{
    let keys = ["Name", "name"];
    assert(keys@ =~= name_keys());
    match entity_field_str(soul, &keys) {
        Some(n) => Some(n.to_string()),
        None => None,
    }
}

/// The name of the first soul a list reply holds.
pub open spec fn spec_listed_soul_name(reply: JsonV) -> Option<Seq<char>> {
    match crate::approval::first_listed(reply) {
        Some(soul) => spec_entity_field_str(soul, name_keys()),
        None => None,
    }
}

/// The name of the first soul a list reply holds.
pub fn listed_soul_name(reply: &Json) -> (res: Option<String>)
    ensures
        crate::text::opt_string(res) == spec_listed_soul_name(reply@),
{
    match crate::approval::first_listed_entity(reply) {
        Some(soul) => soul_entity_name(soul),
        None => None,
    }
}


/// The address of a soul by id is the API's, ending with the soul id in
/// the key; by name, it ends by matching the name (single quotes doubled)
/// among active souls.
pub proof fn law_soul_urls(api: Seq<char>, soul_ref: Seq<char>)
    ensures
        crate::text::has_prefix(spec_soul_by_id_url(api, soul_ref), api),
        crate::text::has_suffix(spec_soul_by_id_url(api, soul_ref), soul_ref + "')"@),
        crate::text::has_prefix(spec_soul_by_name_url(api, soul_ref), api),
        crate::text::has_suffix(
            spec_soul_by_name_url(api, soul_ref),
            crate::text::replace_all(soul_ref, "'"@, "''"@) + "' and Status eq 'Active'&$top=1"@,
        ),
{
    let u = spec_soul_by_id_url(api, soul_ref);
    let t = soul_ref + "')"@;
    assert(u.subrange(0, api.len() as int) =~= api);
    assert(u.subrange(u.len() - t.len(), u.len() as int) =~= t);
    let v = spec_soul_by_name_url(api, soul_ref);
    let w = crate::text::replace_all(soul_ref, "'"@, "''"@) + "' and Status eq 'Active'&$top=1"@;
    assert(v.subrange(0, api.len() as int) =~= api);
    assert(v.subrange(v.len() - w.len(), v.len() as int) =~= w);
}

} // verus!
