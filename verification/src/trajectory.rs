//! The pieces of an OTS trajectory document: what the entity state, the tool
//! spans and the session entries say, read into plain values and JSON.

use vstd::prelude::*;
use vstd::string::{StrSliceExecFns, StringExecFns};
use crate::chain::TreeEntry;
use crate::json::{Json, JsonV, items_view, lemma_items_view, opt_str, spec_as_array, spec_as_str, spec_get};
use crate::json_text::{parse_json, parsed_json};
use crate::ots::TOOL_SPANS_TRUNCATED_MARKER;
use crate::session::{str_or, line_values};
use crate::text::{
    chars_of, has_prefix, lines, lines_of, str_eq, str_starts_with, string_from_chars,
    strip_prefix, strip_prefix_chars, trim, trim_chars,
};

verus! {

/// The timestamp every document falls back to when the event log has none.
pub const EPOCH: &'static str = "1970-01-01T00:00:00Z";

/// `fields.get(key).and_then(Value::as_str).unwrap_or("")`.
pub fn field_str<'a>(fields: &'a Json, key: &str) -> (res: &'a str)
    ensures
        res@ == str_or(fields@, key@, ""@),
{
    match fields.get_str(key) {
        Some(s) => s,
        None => "",
    }
}

/// The `timestamp` of an event, or the epoch.
pub open spec fn event_stamp(event: Option<JsonV>) -> Seq<char> {
    match event {
        Some(e) => str_or(e, "timestamp"@, EPOCH@),
        None => EPOCH@,
    }
}

/// The events of an entity state, when it has an event array.
pub open spec fn state_events(state: JsonV) -> Option<Seq<JsonV>> {
    match spec_get(state, "events"@) {
        Some(e) => spec_as_array(e),
        None => None,
    }
}

/// The first and last event timestamps, each falling back to the epoch.
pub open spec fn spec_event_bookends(state: JsonV) -> (Seq<char>, Seq<char>) {
    match state_events(state) {
        Some(events) => (
            event_stamp(if events.len() > 0 { Some(events[0]) } else { None }),
            event_stamp(if events.len() > 0 { Some(events.last()) } else { None }),
        ),
        None => (EPOCH@, EPOCH@),
    }
}

/// The timestamp of an optional event, or the epoch.
fn event_timestamp(event: Option<&Json>) -> (res: String)
    ensures
        res@ == event_stamp(crate::json::opt_json(event)),
{
    match event {
        Some(e) => match e.get_str("timestamp") {
            Some(s) => s.to_string(),
            None => EPOCH.to_string(),
        },
        None => EPOCH.to_string(),
    }
}

/// Extract the first and last event timestamps from the entity event log,
/// falling back to the epoch when there are none.
pub fn extract_event_bookends(entity_state: &Json) -> (res: (String, String))
    ensures
        (res.0@, res.1@) == spec_event_bookends(entity_state@),
{
    let events = match entity_state.get("events") {
        Some(e) => e.as_array(),
        None => None,
    };
    match events {
        None => (EPOCH.to_string(), EPOCH.to_string()),
        Some(events) => {
            proof {
                lemma_items_view(events@);
            }
            let n = events.len();
            let first = if n > 0 { Some(&events[0]) } else { None };
            let last = if n > 0 { Some(&events[n - 1]) } else { None };
            (event_timestamp(first), event_timestamp(last))
        },
    }
}

/// The actions that close an LLM cycle.
pub open spec fn is_cycle_closing(action: Seq<char>) -> bool {
    action == "ProcessToolCalls"@ || action == "CheckSteering"@ || action == "RecordResult"@
        || action == "RecordResultNoReply"@ || action == "RecordResultInlineReply"@
}

/// Whether an action closes an LLM cycle.
fn closes_cycle(action: &str) -> (res: bool)
    ensures
        res == is_cycle_closing(action@),
{
    str_eq(action, "ProcessToolCalls") || str_eq(action, "CheckSteering") || str_eq(action, "RecordResult")
        || str_eq(action, "RecordResultNoReply") || str_eq(action, "RecordResultInlineReply")
}

/// The timestamps of the cycle-closing events among `events`, oldest first.
pub open spec fn boundary_stamps(events: Seq<JsonV>) -> Seq<Seq<char>>
    decreases events.len(),
{
    if events.len() == 0 {
        seq![]
    } else {
        let rest = boundary_stamps(events.drop_last());
        let e = events.last();
        match opt_str(spec_get(e, "action"@)) {
            Some(action) => if is_cycle_closing(action) {
                match opt_str(spec_get(e, "timestamp"@)) {
                    Some(t) => rest.push(t),
                    None => rest,
                }
            } else {
                rest
            },
            None => rest,
        }
    }
}

/// Timestamps of the events that close an LLM cycle, oldest first.
pub fn turn_boundary_event_timestamps(entity_state: &Json) -> (res: Vec<String>)
    ensures
        res@.map_values(|s: String| s@) == (match state_events(entity_state@) {
            Some(events) => boundary_stamps(events),
            None => seq![],
        }),
{
    let mut out: Vec<String> = Vec::new();
    let events = match entity_state.get("events") {
        Some(e) => e.as_array(),
        None => None,
    };
    match events {
        None => {
            assert(out@.map_values(|s: String| s@) =~= seq![]);
            out
        },
        Some(events) => {
            let ghost ev = items_view(events@);
            proof {
                lemma_items_view(events@);
                assert(ev.take(0) =~= seq![]);
                assert(out@.map_values(|s: String| s@) =~= seq![]);
            }
            let mut i: usize = 0;
            while i < events.len()
                invariant
                    i <= events@.len(),
                    ev == items_view(events@),
                    ev.len() == events@.len(),
                    forall|k: int| 0 <= k < events@.len() ==> #[trigger] ev[k] == events@[k]@,
                    out@.map_values(|s: String| s@) == boundary_stamps(ev.take(i as int)),
                decreases events@.len() - i,
            {
                let e = &events[i];
                proof {
                    assert(ev.take(i + 1).drop_last() =~= ev.take(i as int));
                    assert(ev.take(i + 1).last() == e@);
                }
                match e.get_str("action") {
                    Some(action) => {
                        if closes_cycle(action) {
                            match e.get_str("timestamp") {
                                Some(t) => {
                                    let ghost before = out@;
                                    out.push(t.to_string());
                                    proof {
                                        assert(out@.map_values(|s: String| s@) =~= before.map_values(
                                            |s: String| s@,
                                        ).push(t@));
                                    }
                                },
                                None => {},
                            }
                        }
                    },
                    None => {},
                }
                i += 1;
            }
            assert(ev.take(i as int) =~= ev);
            out
        },
    }
}

/// The span is the truncation marker of a sealed span document.
pub open spec fn spec_is_truncation_marker(span: JsonV) -> bool {
    opt_str(spec_get(span, "tool_name"@)) == Some(TOOL_SPANS_TRUNCATED_MARKER@)
}

/// Whether a span is the marker written when the span document was sealed.
pub fn is_truncation_marker(span: &Json) -> (res: bool)
    ensures
        res == spec_is_truncation_marker(span@),
{
    match span.get_str("tool_name") {
        Some(name) => str_eq(name, TOOL_SPANS_TRUNCATED_MARKER),
        None => false,
    }
}

/// A parsed tool-span document.
pub struct ToolSpanDocument {
    /// Real spans, in execution order.
    pub spans: Vec<Json>,
    /// True when the document was sealed at its size ceiling.
    pub truncated: bool,
    /// Lines that did not parse.
    pub unparsed_lines: usize,
}

/// The span document that the parsed lines `values` make: the spans in
/// order, whether a truncation marker was among them, and how many lines did
/// not parse.
pub open spec fn span_document(values: Seq<Option<JsonV>>) -> (Seq<JsonV>, bool, nat)
    decreases values.len(),
{
    if values.len() == 0 {
        (seq![], false, 0)
    } else {
        let (spans, truncated, unparsed) = span_document(values.drop_last());
        match values.last() {
            None => (spans, truncated, unparsed + 1),
            Some(v) => if spec_is_truncation_marker(v) {
                (spans, true, unparsed)
            } else {
                (spans.push(v), truncated, unparsed)
            },
        }
    }
}

/// The count of unparsed lines never exceeds the count of lines.
proof fn lemma_span_document_count(values: Seq<Option<JsonV>>)
    ensures
        span_document(values).2 <= values.len(),
    decreases values.len(),
{
    if values.len() > 0 {
        lemma_span_document_count(values.drop_last());
    }
}

/// Parse a tool-span JSONL document into span values, in execution order,
/// separating out the truncation marker and counting lines that do not parse.
pub fn parse_tool_span_document(tool_spans_jsonl: &str) -> (res: ToolSpanDocument)
    ensures
        ({
            let (spans, truncated, unparsed) = span_document(line_values(tool_spans_jsonl@));
            &&& items_view(res.spans@) == spans
            &&& res.truncated == truncated
            &&& res.unparsed_lines == unparsed
        }),
{
    let text = chars_of(tool_spans_jsonl);
    let all = lines_of(&text);
    let ghost ls = lines(tool_spans_jsonl@);
    let ghost f = |l: Seq<char>| trim(l).len() > 0;
    let ghost g = |l: Seq<char>| parsed_json(trim(l));
    let ghost vals: Seq<Option<JsonV>> = seq![];
    let mut spans: Vec<Json> = Vec::new();
    let mut truncated = false;
    let mut unparsed_lines: usize = 0;
    let mut i: usize = 0;
    proof {
        assert(ls.take(0).filter(f) =~= seq![]);
        assert(items_view(spans@) =~= seq![]);
    }
    while i < all.len()
        invariant
            i <= all@.len(),
            all@.map_values(|l: Vec<char>| l@) == ls,
            vals == ls.take(i as int).filter(f).map_values(g),
            vals.len() <= i,
            (items_view(spans@), truncated, unparsed_lines as nat) == span_document(vals),
            f == (|l: Seq<char>| trim(l).len() > 0),
            g == (|l: Seq<char>| parsed_json(trim(l))),
        decreases all@.len() - i,
    {
        let line = trim_chars(&all[i]);
        proof {
            assert(all@[i as int]@ == ls[i as int]);
            ls.take(i as int).lemma_filter_push(ls[i as int], f);
            assert(ls.take(i + 1) =~= ls.take(i as int).push(ls[i as int]));
        }
        if line.len() > 0 {
            let s = string_from_chars(&line);
            let parsed = parse_json(s.as_str());
            proof {
                let old_vals = vals;
                vals = vals.push(parsed_json(trim(ls[i as int])));
                assert(vals =~= ls.take(i + 1).filter(f).map_values(g));
                assert(vals.drop_last() =~= old_vals);
            }
            match parsed {
                None => {
                    proof {
                        lemma_span_document_count(vals.drop_last());
                    }
                    unparsed_lines = unparsed_lines + 1;
                },
                Some(span) => {
                    if is_truncation_marker(&span) {
                        truncated = true;
                    } else {
                        let ghost before = spans@;
                        spans.push(span);
                        proof {
                            lemma_items_view(before);
                            lemma_items_view(spans@);
                            assert(items_view(spans@) =~= items_view(before).push(spans@.last()@));
                        }
                    }
                },
            }
        } else {
            proof {
                assert(ls.take(i + 1).filter(f) =~= ls.take(i as int).filter(f));
            }
        }
        i += 1;
    }
    proof {
        assert(ls.take(i as int) =~= ls);
    }
    ToolSpanDocument { spans, truncated, unparsed_lines }
}

/// The prefix marking a session-tree reference to SessionEntry rows.
pub const SESSION_ENTRIES_REF_PREFIX: &'static str = "session-entries:";

/// Where a resource file lives: SessionEntry rows for a session-entries
/// reference, a TemperFS file otherwise.
pub open spec fn resource_uri(file_id: Seq<char>) -> Seq<char> {
    match strip_prefix(file_id, SESSION_ENTRIES_REF_PREFIX@) {
        Some(session_id) => "temper://SessionEntries?SessionId="@ + session_id,
        None => "temperfs://Files('"@ + file_id + "')"@,
    }
}

/// The resource entry `{ "type": kind, "uri": uri }`.
pub open spec fn resource_value(kind: Seq<char>, file_id: Seq<char>) -> JsonV {
    JsonV::Object(seq![("type"@, JsonV::String(kind)), ("uri"@, JsonV::String(resource_uri(file_id)))])
}

/// A JSON object of members given in order.
pub fn object(members: Vec<(String, Json)>) -> (res: Json)
    ensures
        res@ == JsonV::Object(crate::json::members_view(members@)),
{
    Json::Object(members)
}

/// Record a file resource, unless the file id is empty.
pub fn file_resource(resources: &mut Vec<Json>, kind: &str, file_id: &str)
    ensures
        items_view(final(resources)@) == if file_id@.len() == 0 {
            items_view(old(resources)@)
        } else {
            items_view(old(resources)@).push(resource_value(kind@, file_id@))
        },
{
    if file_id.unicode_len() == 0 {
        return;
    }
    let id = chars_of(file_id);
    let mut uri;
    match strip_prefix_chars(&id, SESSION_ENTRIES_REF_PREFIX) {
        Some(session_id) => {
            uri = String::from_str("temper://SessionEntries?SessionId=");
            uri.append(string_from_chars(&session_id).as_str());
        },
        None => {
            uri = String::from_str("temperfs://Files('");
            uri.append(file_id);
            uri.append("')");
        },
    }
    let members = vec![
        (String::from_str("type"), Json::String(kind.to_string())),
        (String::from_str("uri"), Json::String(uri)),
    ];
    let value = object(members);
    let ghost before = resources@;
    proof {
        crate::json::lemma_members_view(members@);
        assert(value@ == resource_value(kind@, file_id@)) by {
            reveal_strlit("type");
            reveal_strlit("uri");
            assert(crate::json::members_view(members@) =~= seq![
                ("type"@, JsonV::String(kind@)),
                ("uri"@, JsonV::String(resource_uri(file_id@))),
            ]);
        }
    }
    resources.push(value);
    proof {
        lemma_items_view(before);
        lemma_items_view(resources@);
        assert(items_view(resources@) =~= items_view(before).push(resource_value(kind@, file_id@)));
    }
}

/// The `type` of a content block.
pub open spec fn block_type(block: JsonV) -> Option<Seq<char>> {
    opt_str(spec_get(block, "type"@))
}

/// Some block among `blocks` has type `ty`.
pub open spec fn has_block_type(blocks: Seq<JsonV>, ty: Seq<char>) -> bool {
    exists|k: int| 0 <= k < blocks.len() && block_type(#[trigger] blocks[k]) == Some(ty)
}

/// The OTS role of a session entry.
pub open spec fn spec_message_role(entry: TreeEntry) -> Seq<char> {
    if entry.spec_is_assistant() {
        "assistant"@
    } else if entry.entry_type@ == "compaction"@ {
        "system"@
    } else if (match entry.spec_blocks() {
        Some(blocks) => has_block_type(blocks, "tool_result"@),
        None => false,
    }) || has_prefix(entry.id@, "t-"@) {
        "tool"@
    } else {
        "user"@
    }
}

/// Whether some block has the given type.
fn any_block_of_type(blocks: &Vec<Json>, ty: &str) -> (res: bool)
    ensures
        res == has_block_type(items_view(blocks@), ty@),
{
    proof {
        lemma_items_view(blocks@);
    }
    let mut i: usize = 0;
    while i < blocks.len()
        invariant
            i <= blocks@.len(),
            items_view(blocks@).len() == blocks@.len(),
            forall|k: int| 0 <= k < blocks@.len() ==> #[trigger] items_view(blocks@)[k] == blocks@[k]@,
            forall|k: int| 0 <= k < i ==> block_type(#[trigger] items_view(blocks@)[k]) != Some(ty@),
        decreases blocks@.len() - i,
    {
        match blocks[i].get_str("type") {
            Some(t) => {
                if str_eq(t, ty) {
                    assert(block_type(items_view(blocks@)[i as int]) == Some(ty@));
                    return true;
                }
            },
            None => {},
        }
        i += 1;
    }
    false
}

/// The OTS role of a session entry: the assistant's, a compaction's system
/// role, a tool role for tool results, and the user's otherwise.
pub fn message_role(entry: &TreeEntry) -> (res: &'static str)
    ensures
        res@ == spec_message_role(*entry),
{
    proof {
        reveal_strlit("assistant");
        reveal_strlit("system");
        reveal_strlit("tool");
        reveal_strlit("user");
    }
    if entry.is_assistant() {
        return "assistant";
    }
    if str_eq(entry.entry_type.as_str(), "compaction") {
        return "system";
    }
    let has_tool_results = match entry.blocks() {
        Some(blocks) => any_block_of_type(blocks, "tool_result"),
        None => false,
    };
    if has_tool_results || str_starts_with(entry.id.as_str(), "t-") {
        return "tool";
    }
    "user"
}

/// A tool call the assistant chose, as recovered from a `tool_use` block.
pub struct ToolCall {
    /// The call id.
    pub id: String,
    /// The tool name.
    pub name: String,
    /// The arguments the call carried.
    pub arguments: Option<Json>,
}

/// A tool call as plain values.
pub open spec fn call_view(c: ToolCall) -> (Seq<char>, Seq<char>, Option<JsonV>) {
    (c.id@, c.name@, crate::json::opt_json_owned(c.arguments))
}

/// The tool calls of the `tool_use` blocks that carry an id, in order.
pub open spec fn spec_tool_calls(blocks: Seq<JsonV>) -> Seq<(Seq<char>, Seq<char>, Option<JsonV>)>
    decreases blocks.len(),
{
    if blocks.len() == 0 {
        seq![]
    } else {
        let rest = spec_tool_calls(blocks.drop_last());
        let b = blocks.last();
        if block_type(b) == Some("tool_use"@) {
            match opt_str(spec_get(b, "id"@)) {
                Some(id) => rest.push((id, str_or(b, "name"@, "unknown"@), spec_get(b, "input"@))),
                None => rest,
            }
        } else {
            rest
        }
    }
}

/// The tool calls an entry's content blocks hold.
pub open spec fn entry_tool_calls(entry: TreeEntry) -> Seq<(Seq<char>, Seq<char>, Option<JsonV>)> {
    match entry.spec_blocks() {
        Some(blocks) => spec_tool_calls(blocks),
        None => seq![],
    }
}

/// The tool calls recorded in an assistant entry's `tool_use` blocks.
pub fn tool_calls_from_entry(entry: &TreeEntry) -> (res: Vec<ToolCall>)
    ensures
        res@.map_values(|c: ToolCall| call_view(c)) == entry_tool_calls(*entry),
{
    let mut out: Vec<ToolCall> = Vec::new();
    let blocks = match entry.blocks() {
        Some(b) => b,
        None => {
            assert(out@.map_values(|c: ToolCall| call_view(c)) =~= seq![]);
            return out;
        },
    };
    let ghost bv = items_view(blocks@);
    proof {
        lemma_items_view(blocks@);
        assert(bv.take(0) =~= seq![]);
        assert(out@.map_values(|c: ToolCall| call_view(c)) =~= seq![]);
    }
    let mut i: usize = 0;
    while i < blocks.len()
        invariant
            i <= blocks@.len(),
            bv == items_view(blocks@),
            bv.len() == blocks@.len(),
            forall|k: int| 0 <= k < blocks@.len() ==> #[trigger] bv[k] == blocks@[k]@,
            out@.map_values(|c: ToolCall| call_view(c)) == spec_tool_calls(bv.take(i as int)),
        decreases blocks@.len() - i,
    {
        let b = &blocks[i];
        proof {
            assert(bv.take(i + 1).drop_last() =~= bv.take(i as int));
            assert(bv.take(i + 1).last() == b@);
            reveal_strlit("tool_use");
        }
        let is_use = match b.get_str("type") {
            Some(t) => str_eq(t, "tool_use"),
            None => false,
        };
        if is_use {
            match b.get_str("id") {
                Some(id) => {
                    let name = match b.get_str("name") {
                        Some(n) => n.to_string(),
                        None => "unknown".to_string(),
                    };
                    let arguments = match b.get("input") {
                        Some(a) => Some(a.duplicate()),
                        None => None,
                    };
                    let ghost before = out@;
                    let call = ToolCall { id: id.to_string(), name, arguments };
                    out.push(call);
                    proof {
                        assert(out@.map_values(|c: ToolCall| call_view(c)) =~= before.map_values(
                            |c: ToolCall| call_view(c),
                        ).push(call_view(out@.last())));
                    }
                },
                None => {},
            }
        }
        i += 1;
    }
    assert(bv.take(i as int) =~= bv);
    out
}

/// The observation a tool call produced, as recovered from a `tool_result` block.
pub struct Observation {
    /// The tool reported an error.
    pub is_error: bool,
    /// The result text.
    pub text: String,
}

/// The text of a tool result: a string as it is, anything else serialized,
/// nothing as the empty text.
pub open spec fn result_text(content: Option<JsonV>) -> Seq<char> {
    match content {
        Some(JsonV::String(s)) => s,
        Some(other) => crate::json_text::serialized_json(other),
        None => ""@,
    }
}

/// The text of a tool result's `content`.
pub fn content_text(content: Option<&Json>) -> (res: String)
    ensures
        res@ == result_text(crate::json::opt_json(content)),
{
    match content {
        Some(Json::String(s)) => {
            assert(content.unwrap()@ == JsonV::String(s@));
            s.clone()
        },
        Some(other) => crate::json_text::to_json_text(other),
        None => {
            proof {
                reveal_strlit("");
            }
            String::new()
        },
    }
}

/// The observations of the `tool_result` blocks that name a call, in order:
/// the call id, then whether it failed and its text.
pub open spec fn spec_observations(blocks: Seq<JsonV>) -> Seq<(Seq<char>, bool, Seq<char>)>
    decreases blocks.len(),
{
    if blocks.len() == 0 {
        seq![]
    } else {
        let rest = spec_observations(blocks.drop_last());
        let b = blocks.last();
        if block_type(b) == Some("tool_result"@) {
            match opt_str(spec_get(b, "tool_use_id"@)) {
                Some(id) => rest.push(
                    (
                        id,
                        crate::json::opt_bool(spec_get(b, "is_error"@)) == Some(true),
                        result_text(spec_get(b, "content"@)),
                    ),
                ),
                None => rest,
            }
        } else {
            rest
        }
    }
}

/// An observation as plain values.
pub open spec fn observation_view(o: (String, Observation)) -> (Seq<char>, bool, Seq<char>) {
    (o.0@, o.1.is_error, o.1.text@)
}

/// The observations an entry's content blocks hold.
pub open spec fn entry_observations(entry: TreeEntry) -> Seq<(Seq<char>, bool, Seq<char>)> {
    match entry.spec_blocks() {
        Some(blocks) => spec_observations(blocks),
        None => seq![],
    }
}

/// The observations recorded in an entry's `tool_result` blocks.
pub fn observations_from_entry(entry: &TreeEntry) -> (res: Vec<(String, Observation)>)
    ensures
        res@.map_values(|o: (String, Observation)| observation_view(o)) == entry_observations(*entry),
{
    let mut out: Vec<(String, Observation)> = Vec::new();
    let blocks = match entry.blocks() {
        Some(b) => b,
        None => {
            assert(out@.map_values(|o: (String, Observation)| observation_view(o)) =~= seq![]);
            return out;
        },
    };
    let ghost bv = items_view(blocks@);
    proof {
        lemma_items_view(blocks@);
        assert(bv.take(0) =~= seq![]);
        assert(out@.map_values(|o: (String, Observation)| observation_view(o)) =~= seq![]);
    }
    let mut i: usize = 0;
    while i < blocks.len()
        invariant
            i <= blocks@.len(),
            bv == items_view(blocks@),
            bv.len() == blocks@.len(),
            forall|k: int| 0 <= k < blocks@.len() ==> #[trigger] bv[k] == blocks@[k]@,
            out@.map_values(|o: (String, Observation)| observation_view(o)) == spec_observations(
                bv.take(i as int),
            ),
        decreases blocks@.len() - i,
    {
        let b = &blocks[i];
        proof {
            assert(bv.take(i + 1).drop_last() =~= bv.take(i as int));
            assert(bv.take(i + 1).last() == b@);
            reveal_strlit("tool_result");
        }
        let is_result = match b.get_str("type") {
            Some(t) => str_eq(t, "tool_result"),
            None => false,
        };
        if is_result {
            match b.get_str("tool_use_id") {
                Some(id) => {
                    let text = content_text(b.get("content"));
                    let is_error = match b.get_bool("is_error") {
                        Some(e) => e,
                        None => false,
                    };
                    let ghost before = out@;
                    out.push((id.to_string(), Observation { is_error, text }));
                    proof {
                        assert(out@.map_values(|o: (String, Observation)| observation_view(o))
                            =~= before.map_values(|o: (String, Observation)| observation_view(o)).push(
                            observation_view(out@.last()),
                        ));
                    }
                },
                None => {},
            }
        }
        i += 1;
    }
    assert(bv.take(i as int) =~= bv);
    out
}

/// Every item is an integer no larger than `max`.
pub open spec fn all_uints_up_to(items: Seq<JsonV>, max: u64) -> bool {
    forall|k: int|
        0 <= k < items.len() ==> (match crate::json::spec_as_u64(#[trigger] items[k]) {
            Some(n) => n <= max,
            None => false,
        })
}

/// Every item is a number.
pub open spec fn all_numbers(items: Seq<JsonV>) -> bool {
    forall|k: int| 0 <= k < items.len() ==> (#[trigger] items[k] is Number)
}

/// An array of unsigned integers no larger than `max`.
fn is_uint_array(value: &Json, max: u64) -> (res: bool)
    ensures
        res == (match spec_as_array(value@) {
            Some(items) => all_uints_up_to(items, max),
            None => false,
        }),
{
    let items = match value.as_array() {
        Some(items) => items,
        None => return false,
    };
    proof {
        lemma_items_view(items@);
    }
    let mut i: usize = 0;
    while i < items.len()
        invariant
            i <= items@.len(),
            spec_as_array(value@) == Some(items_view(items@)),
            items_view(items@).len() == items@.len(),
            forall|k: int| 0 <= k < items@.len() ==> #[trigger] items_view(items@)[k] == items@[k]@,
            forall|k: int|
                0 <= k < i ==> (match crate::json::spec_as_u64(#[trigger] items_view(items@)[k]) {
                    Some(n) => n <= max,
                    None => false,
                }),
        decreases items@.len() - i,
    {
        assert(items_view(items@)[i as int] == items@[i as int]@);
        match items[i].as_u64() {
            Some(n) => {
                if n > max {
                    return false;
                }
            },
            None => return false,
        }
        i += 1;
    }
    true
}

/// An array of integers that fit in `u32`.
pub fn is_u32_array(value: &Json) -> (res: bool)
    ensures
        res == (match spec_as_array(value@) {
            Some(items) => all_uints_up_to(items, u32::MAX as u64),
            None => false,
        }),
{
    is_uint_array(value, 0xffff_ffffu64)
}

/// An array of integers that fit in `u8`.
pub fn is_u8_array(value: &Json) -> (res: bool)
    ensures
        res == (match spec_as_array(value@) {
            Some(items) => all_uints_up_to(items, u8::MAX as u64),
            None => false,
        }),
{
    is_uint_array(value, 0xffu64)
}

/// An array of numbers.
pub fn is_f64_array(value: &Json) -> (res: bool)
    ensures
        res == (match spec_as_array(value@) {
            Some(items) => all_numbers(items),
            None => false,
        }),
{
    let items = match value.as_array() {
        Some(items) => items,
        None => return false,
    };
    proof {
        lemma_items_view(items@);
    }
    let mut i: usize = 0;
    while i < items.len()
        invariant
            i <= items@.len(),
            spec_as_array(value@) == Some(items_view(items@)),
            items_view(items@).len() == items@.len(),
            forall|k: int| 0 <= k < items@.len() ==> #[trigger] items_view(items@)[k] == items@[k]@,
            forall|k: int| 0 <= k < i ==> (#[trigger] items_view(items@)[k] is Number),
        decreases items@.len() - i,
    {
        assert(items_view(items@)[i as int] == items@[i as int]@);
        match &items[i] {
            Json::Number(_) => {},
            _ => return false,
        }
        i += 1;
    }
    true
}

/// The degradation reasons among `tags`: each string tag that carries the
/// `degraded:` prefix, without it, in order.
pub open spec fn degraded_reasons(tags: Seq<JsonV>) -> Seq<Seq<char>>
    decreases tags.len(),
{
    if tags.len() == 0 {
        seq![]
    } else {
        let rest = degraded_reasons(tags.drop_last());
        match spec_as_str(tags.last()) {
            Some(t) => match strip_prefix(t, crate::ots::DEGRADED_TAG_PREFIX@) {
                Some(reason) => rest.push(reason),
                None => rest,
            },
            None => rest,
        }
    }
}

/// The `metadata.tags` array of a trajectory document.
pub open spec fn document_tags(trajectory: JsonV) -> Option<Seq<JsonV>> {
    match spec_get(trajectory, "metadata"@) {
        Some(m) => match spec_get(m, "tags"@) {
            Some(t) => spec_as_array(t),
            None => None,
        },
        None => None,
    }
}

/// Evidence the finished document was built without, read back off its
/// `metadata.tags`. Empty for a complete trajectory.
pub fn degradations(trajectory: &Json) -> (res: Vec<String>)
    ensures
        res@.map_values(|s: String| s@) == (match document_tags(trajectory@) {
            Some(tags) => degraded_reasons(tags),
            None => seq![],
        }),
{
    let mut out: Vec<String> = Vec::new();
    let tags = match trajectory.get("metadata") {
        Some(m) => match m.get("tags") {
            Some(t) => t.as_array(),
            None => None,
        },
        None => None,
    };
    let tags = match tags {
        Some(t) => t,
        None => {
            assert(out@.map_values(|s: String| s@) =~= seq![]);
            return out;
        },
    };
    let ghost tv = items_view(tags@);
    proof {
        lemma_items_view(tags@);
        assert(tv.take(0) =~= seq![]);
        assert(out@.map_values(|s: String| s@) =~= seq![]);
    }
    let mut i: usize = 0;
    while i < tags.len()
        invariant
            i <= tags@.len(),
            tv == items_view(tags@),
            tv.len() == tags@.len(),
            forall|k: int| 0 <= k < tags@.len() ==> #[trigger] tv[k] == tags@[k]@,
            out@.map_values(|s: String| s@) == degraded_reasons(tv.take(i as int)),
        decreases tags@.len() - i,
    {
        proof {
            assert(tv.take(i + 1).drop_last() =~= tv.take(i as int));
            assert(tv.take(i + 1).last() == tags@[i as int]@);
        }
        match tags[i].as_str() {
            Some(t) => {
                let tc = chars_of(t);
                match strip_prefix_chars(&tc, crate::ots::DEGRADED_TAG_PREFIX) {
                    Some(reason) => {
                        let ghost before = out@;
                        out.push(string_from_chars(&reason));
                        proof {
                            assert(out@.map_values(|s: String| s@) =~= before.map_values(|s: String| s@).push(
                                reason@,
                            ));
                        }
                    },
                    None => {},
                }
            },
            None => {},
        }
        i += 1;
    }
    assert(tv.take(i as int) =~= tv);
    out
}

/// A JSON string.
pub open spec fn jstr(s: Seq<char>) -> JsonV {
    JsonV::String(s)
}

/// A JSON non-negative integer.
pub open spec fn juint(n: u64) -> JsonV {
    JsonV::Number(crate::json::NumberV::PosInt(n))
}

/// `bound_arguments` on arguments `args` and a budget with `remaining`
/// characters: the arguments as they are when their serialized text fits
/// the per-call cap and the budget, a truncation record with a preview
/// otherwise, and the budget left after.
pub open spec fn spec_bound_arguments(args: Option<JsonV>, remaining: int) -> (Option<JsonV>, int) {
    match args {
        None => (None, remaining),
        Some(a) => if a is Null {
            (None, remaining)
        } else {
            let serialized = crate::json_text::serialized_json(a);
            let (preview, dropped, left) = crate::ots::spec_take(
                remaining,
                serialized,
                crate::ots::MAX_ARGUMENTS_CHARS as int,
            );
            if dropped == 0 {
                (Some(a), left)
            } else {
                (
                    Some(
                        JsonV::Object(
                            seq![
                                ("_truncated"@, JsonV::Bool(true)),
                                ("_original_chars"@, juint(serialized.len() as u64)),
                                ("_preview"@, jstr(preview)),
                            ],
                        ),
                    ),
                    left,
                )
            }
        },
    }
}

/// Bound a tool-call argument payload, charging its serialized text to the
/// trajectory's inline budget.
pub fn bound_arguments(arguments: Option<Json>, budget: &mut crate::ots::InlineBudget) -> (res: Option<Json>)
    ensures
        (crate::json::opt_json_owned(res), final(budget).remaining as int) == spec_bound_arguments(
            crate::json::opt_json_owned(arguments),
            old(budget).remaining as int,
        ),
{
    let arguments = match arguments {
        Some(a) => a,
        None => return None,
    };
    if arguments.is_null() {
        return None;
    }
    let serialized = crate::json_text::to_json_text(&arguments);
    let (preview, dropped) = budget.take(serialized.as_str(), crate::ots::MAX_ARGUMENTS_CHARS);
    if dropped == 0 {
        return Some(arguments);
    }
    let mut members: Vec<(String, Json)> = Vec::new();
    proof {
        crate::json::lemma_members_view_empty(members@);
    }
    crate::json::push_member(&mut members, "_truncated", Json::Bool(true));
    let original: u64 = serialized.as_str().unicode_len() as u64;
    crate::json::push_member(&mut members, "_original_chars", Json::Number(crate::json::JsonNumber::PosInt(original)));
    crate::json::push_member(&mut members, "_preview", Json::String(preview));
    assert(crate::json::members_view(members@) =~= seq![
        ("_truncated"@, JsonV::Bool(true)),
        ("_original_chars"@, juint(serialized@.len() as u64)),
        ("_preview"@, jstr(preview@)),
    ]);
    let res = Json::Object(members);
    assert(res@ == JsonV::Object(
        seq![
            ("_truncated"@, JsonV::Bool(true)),
            ("_original_chars"@, juint(serialized@.len() as u64)),
            ("_preview"@, jstr(preview@)),
        ],
    ));
    Some(res)
}

/// `parse_arguments_field`: a string is read as JSON when it parses and kept
/// as a string otherwise; null and absence give nothing.
pub open spec fn spec_parse_arguments(value: Option<JsonV>) -> Option<JsonV> {
    match value {
        Some(JsonV::String(s)) => Some(
            match crate::json_text::parsed_json(s) {
                Some(p) => p,
                None => JsonV::String(s),
            },
        ),
        Some(JsonV::Null) => None,
        None => None,
        Some(other) => Some(other),
    }
}

/// The arguments recorded on a span: JSON text is read, anything else kept.
pub fn parse_arguments_field(value: Option<&Json>) -> (res: Option<Json>)
    ensures
        crate::json::opt_json_owned(res) == spec_parse_arguments(crate::json::opt_json(value)),
{
    match value {
        Some(Json::String(s)) => {
            assert(value.unwrap()@ == JsonV::String(s@));
            match parse_json(s.as_str()) {
                Some(p) => Some(p),
                None => Some(Json::String(s.clone())),
            }
        },
        Some(Json::Null) => None,
        None => None,
        Some(other) => Some(other.duplicate()),
    }
}

/// The tool name a decision records: the call's own, or the span's when the
/// call has none.
pub open spec fn decision_name(call_name: Seq<char>, span: Option<JsonV>) -> Seq<char> {
    if call_name.len() == 0 || call_name == "unknown"@ {
        match span {
            Some(sp) => str_or(sp, "tool_name"@, call_name),
            None => call_name,
        }
    } else {
        call_name
    }
}

/// The member `key` of an optional value.
pub open spec fn opt_get(v: Option<JsonV>, key: Seq<char>) -> Option<JsonV> {
    match v {
        Some(j) => spec_get(j, key),
        None => None,
    }
}

/// The arguments a decision records: the call's own unless null, else the
/// span's.
pub open spec fn decision_arguments(call_args: Option<JsonV>, span: Option<JsonV>) -> Option<JsonV> {
    match call_args {
        Some(a) => if a is Null {
            spec_parse_arguments(opt_get(span, "arguments"@))
        } else {
            Some(a)
        },
        None => spec_parse_arguments(opt_get(span, "arguments"@)),
    }
}

/// Whether the call failed and its result text: the observation's, else the
/// span's.
pub open spec fn decision_outcome(observation: Option<(bool, Seq<char>)>, span: Option<JsonV>) -> (bool, Seq<char>) {
    match observation {
        Some(o) => o,
        None => (
            crate::json::opt_bool(opt_get(span, "is_error"@)) == Some(true),
            match span {
                Some(sp) => str_or(sp, "result"@, ""@),
                None => ""@,
            },
        ),
    }
}

/// The `choice` of a decision, from a budget with `remaining` characters,
/// and the budget left after.
pub open spec fn spec_choice(
    call_name: Seq<char>,
    call_args: Option<JsonV>,
    span: Option<JsonV>,
    remaining: int,
) -> (JsonV, int) {
    let name = decision_name(call_name, span);
    let (args, left) = spec_bound_arguments(decision_arguments(call_args, span), remaining);
    let action = if name.len() == 0 { "unknown"@ } else { name };
    (
        JsonV::Object(
            seq![("action"@, jstr(action))] + match args {
                Some(a) => seq![("arguments"@, a)],
                None => seq![],
            },
        ),
        left,
    )
}

/// The `consequence` of a decision.
pub open spec fn spec_consequence(observation: Option<(bool, Seq<char>)>, span: Option<JsonV>) -> JsonV {
    let (is_error, text) = decision_outcome(observation, span);
    JsonV::Object(
        seq![
            ("success"@, JsonV::Bool(!is_error)),
            ("result_summary"@, jstr(crate::text::spec_truncate(text, crate::ots::MAX_RESULT_SUMMARY_CHARS as int))),
        ] + if is_error {
            seq![("error_type"@, jstr(crate::ots::spec_classify_error(text)))]
        } else {
            seq![]
        },
    )
}

/// The OTS decision for a call, with its observation and span, from a budget
/// with `remaining` characters; and the budget left after.
pub open spec fn spec_build_decision(
    call: (Seq<char>, Seq<char>, Option<JsonV>),
    observation: Option<(bool, Seq<char>)>,
    span: Option<JsonV>,
    remaining: int,
) -> (JsonV, int) {
    let (choice, left) = spec_choice(call.1, call.2, span, remaining);
    let duration = match opt_get(span, "duration_ms"@) {
        Some(d) => crate::session::spec_json_u64(d),
        None => None,
    };
    (
        JsonV::Object(
            seq![
                ("decision_id"@, jstr(call.0)),
                ("decision_type"@, jstr("tool_selection"@)),
                ("cause_id"@, jstr(call.0)),
                ("choice"@, choice),
                ("consequence"@, spec_consequence(observation, span)),
            ] + match duration {
                Some(d) => seq![("_duration_ms"@, juint(d))],
                None => seq![],
            },
        ),
        left,
    )
}

/// An observation as plain values.
pub open spec fn opt_observation(o: Option<&Observation>) -> Option<(bool, Seq<char>)> {
    match o {
        Some(ob) => Some((ob.is_error, ob.text@)),
        None => None,
    }
}

/// The `choice` of a decision, charging its arguments to the budget.
fn decision_choice(call: &ToolCall, span: Option<&Json>, budget: &mut crate::ots::InlineBudget) -> (res: Json)
    ensures
        (res@, final(budget).remaining as int) == spec_choice(
            call.name@,
            crate::json::opt_json_owned(call.arguments),
            crate::json::opt_json(span),
            old(budget).remaining as int,
        ),
{
    let ghost sp = crate::json::opt_json(span);
    proof {
        reveal_strlit("unknown");
    }
    let name: String = if call.name.as_str().unicode_len() == 0 || str_eq(call.name.as_str(), "unknown") {
        let from_span = match span {
            Some(s) => s.get_str("tool_name"),
            None => None,
        };
        match from_span {
            Some(n) => n.to_string(),
            None => call.name.clone(),
        }
    } else {
        call.name.clone()
    };
    assert(name@ == decision_name(call.name@, sp));
    let span_args = match span {
        Some(s) => s.get("arguments"),
        None => None,
    };
    assert(crate::json::opt_json(span_args) == opt_get(sp, "arguments"@));
    let arguments: Option<Json> = match &call.arguments {
        Some(a) => if a.is_null() {
            parse_arguments_field(span_args)
        } else {
            Some(a.duplicate())
        },
        None => parse_arguments_field(span_args),
    };
    assert(crate::json::opt_json_owned(arguments) == decision_arguments(
        crate::json::opt_json_owned(call.arguments),
        sp,
    ));
    let bounded = bound_arguments(arguments, budget);
    let ghost bv = crate::json::opt_json_owned(bounded);
    let mut choice: Vec<(String, Json)> = Vec::new();
    proof {
        crate::json::lemma_members_view_empty(choice@);
    }
    let action: String = if name.as_str().unicode_len() == 0 { "unknown".to_string() } else { name };
    let ghost act = action@;
    crate::json::push_member(&mut choice, "action", Json::String(action));
    match bounded {
        Some(a) => crate::json::push_member(&mut choice, "arguments", a),
        None => {},
    }
    assert(crate::json::members_view(choice@) =~= seq![("action"@, jstr(act))] + match bv {
        Some(a) => seq![("arguments"@, a)],
        None => seq![],
    });
    Json::Object(choice)
}

/// The `consequence` of a decision.
fn decision_consequence(observation: Option<&Observation>, span: Option<&Json>) -> (res: Json)
    ensures
        res@ == spec_consequence(opt_observation(observation), crate::json::opt_json(span)),
{
    let ghost sp = crate::json::opt_json(span);
    proof {
        reveal_strlit("");
    }
    let (is_error, result_text): (bool, String) = match observation {
        Some(o) => (o.is_error, o.text.clone()),
        None => {
            let e = match span {
                Some(s) => match s.get_bool("is_error") {
                    Some(b) => b,
                    None => false,
                },
                None => false,
            };
            let t = match span {
                Some(s) => field_str(s, "result").to_string(),
                None => "".to_string(),
            };
            (e, t)
        },
    };
    assert((is_error, result_text@) == decision_outcome(opt_observation(observation), sp));
    let mut consequence: Vec<(String, Json)> = Vec::new();
    proof {
        crate::json::lemma_members_view_empty(consequence@);
    }
    crate::json::push_member(&mut consequence, "success", Json::Bool(!is_error));
    crate::json::push_member(
        &mut consequence,
        "result_summary",
        Json::String(crate::ots::truncate_chars(result_text.as_str(), crate::ots::MAX_RESULT_SUMMARY_CHARS)),
    );
    if is_error {
        crate::json::push_member(
            &mut consequence,
            "error_type",
            Json::String(crate::ots::classify_error(result_text.as_str()).to_string()),
        );
    }
    assert(crate::json::members_view(consequence@) =~= seq![
        ("success"@, JsonV::Bool(!is_error)),
        ("result_summary"@, jstr(crate::text::spec_truncate(result_text@, crate::ots::MAX_RESULT_SUMMARY_CHARS as int))),
    ] + if is_error {
        seq![("error_type"@, jstr(crate::ots::spec_classify_error(result_text@)))]
    } else {
        seq![]
    });
    Json::Object(consequence)
}

/// Build a decision from a tool call plus whatever evidence exists for it.
pub fn build_decision(
    call: &ToolCall,
    observation: Option<&Observation>,
    span: Option<&Json>,
    budget: &mut crate::ots::InlineBudget,
) -> (res: Json)
    ensures
        (res@, final(budget).remaining as int) == spec_build_decision(
            call_view(*call),
            opt_observation(observation),
            crate::json::opt_json(span),
            old(budget).remaining as int,
        ),
{
    let ghost sp = crate::json::opt_json(span);
    proof {
        reveal_strlit("tool_selection");
    }
    let choice = decision_choice(call, span, budget);
    let consequence = decision_consequence(observation, span);
    let duration = match span {
        Some(s) => crate::session::get_u64(s, "duration_ms"),
        None => None,
    };
    assert(duration == match opt_get(sp, "duration_ms"@) {
        Some(d) => crate::session::spec_json_u64(d),
        None => None,
    });
    let mut decision: Vec<(String, Json)> = Vec::new();
    proof {
        crate::json::lemma_members_view_empty(decision@);
    }
    let ghost choice_v = choice@;
    let ghost consequence_v = consequence@;
    crate::json::push_member(&mut decision, "decision_id", Json::String(call.id.clone()));
    crate::json::push_member(&mut decision, "decision_type", Json::String("tool_selection".to_string()));
    crate::json::push_member(&mut decision, "cause_id", Json::String(call.id.clone()));
    crate::json::push_member(&mut decision, "choice", choice);
    crate::json::push_member(&mut decision, "consequence", consequence);
    match duration {
        Some(d) => crate::json::push_member(
            &mut decision,
            "_duration_ms",
            Json::Number(crate::json::JsonNumber::PosInt(d)),
        ),
        None => {},
    }
    assert(crate::json::members_view(decision@) =~= seq![
        ("decision_id"@, jstr(call.id@)),
        ("decision_type"@, jstr("tool_selection"@)),
        ("cause_id"@, jstr(call.id@)),
        ("choice"@, choice_v),
        ("consequence"@, consequence_v),
    ] + match duration {
        Some(d) => seq![("_duration_ms"@, juint(d))],
        None => seq![],
    });
    Json::Object(decision)
}

/// The call a span records when no assistant entry names it.
pub open spec fn span_call(span: JsonV) -> (Seq<char>, Seq<char>, Option<JsonV>) {
    (str_or(span, "tool_call_id"@, "unknown"@), str_or(span, "tool_name"@, "unknown"@), None)
}

/// Convert a tool span that no assistant entry claims into a decision.
pub fn span_to_decision(span: &Json, budget: &mut crate::ots::InlineBudget) -> (res: Json)
    ensures
        (res@, final(budget).remaining as int) == spec_build_decision(
            span_call(span@),
            None,
            Some(span@),
            old(budget).remaining as int,
        ),
{
    let id = match span.get_str("tool_call_id") {
        Some(s) => s.to_string(),
        None => "unknown".to_string(),
    };
    let name = match span.get_str("tool_name") {
        Some(s) => s.to_string(),
        None => "unknown".to_string(),
    };
    let call = ToolCall { id, name, arguments: None };
    build_decision(&call, None, Some(span), budget)
}

/// A response body cut for an error report: up to 240 characters as it
/// is, else its first 240 characters and `...` (cut on characters, so a
/// multibyte body is never split inside a character).
pub open spec fn spec_truncate_body(body: Seq<char>) -> Seq<char> {
    if body.len() <= 240 {
        body
    } else {
        body.take(240) + "..."@
    }
}

/// Cuts a response body for an error report.
pub fn truncate_body(body: &str) -> (res: String)
    ensures
        res@ == spec_truncate_body(body@),
{
    let excerpt = crate::text::take_chars(body, 240);
    if excerpt.as_str().unicode_len() == body.unicode_len() {
        excerpt
    } else {
        let mut out = excerpt;
        out.append("...");
        out
    }
}

} // verus!
