//! The OTS message for one session entry, with its inline text bounded by
//! the trajectory's budget.

use vstd::prelude::*;
use vstd::string::StrSliceExecFns;
use crate::chain::TreeEntry;
use crate::json::{
    Json, JsonNumber, JsonV, items_view, lemma_items_view, lemma_items_view_empty,
    lemma_members_view_empty, members_view, opt_bool, opt_json, opt_str, push_item, push_member,
    spec_get, members_get,
};
use crate::ots::{InlineBudget, MAX_MESSAGE_INLINE_CHARS, content_type_for_role, spec_content_type_for_role, spec_take};
use crate::session::str_or;
use crate::text::{join_lines, join_newline, opt_string, str_eq};
use crate::trajectory::{block_type, content_text, field_str, jstr, juint, message_role, result_text, spec_message_role};

verus! {

/// The text of a thinking block: its `thinking` member when there is one,
/// else its `text`.
pub open spec fn thinking_text(block: JsonV) -> Option<Seq<char>> {
    match spec_get(block, "thinking"@) {
        Some(t) => crate::json::spec_as_str(t),
        None => opt_str(spec_get(block, "text"@)),
    }
}

/// What the content blocks contribute to a message, read in order from a
/// budget with `remaining` characters: the text parts, the reasoning parts,
/// the tool calls, the tool results (each charged to the budget), and the
/// budget left after.
pub open spec fn spec_block_parts(blocks: Seq<JsonV>, remaining: int) -> (
    Seq<Seq<char>>,
    Seq<Seq<char>>,
    Seq<JsonV>,
    Seq<JsonV>,
    int,
)
    decreases blocks.len(),
{
    if blocks.len() == 0 {
        (seq![], seq![], seq![], seq![], remaining)
    } else {
        let (texts, reasoning, calls, results, left) = spec_block_parts(blocks.drop_last(), remaining);
        let b = blocks.last();
        let ty = match block_type(b) {
            Some(t) => t,
            None => ""@,
        };
        if ty == "text"@ {
            match opt_str(spec_get(b, "text"@)) {
                Some(t) => (texts.push(t), reasoning, calls, results, left),
                None => (texts, reasoning, calls, results, left),
            }
        } else if ty == "thinking"@ || ty == "redacted_thinking"@ {
            match thinking_text(b) {
                Some(t) => (texts, reasoning.push(t), calls, results, left),
                None => (texts, reasoning, calls, results, left),
            }
        } else if ty == "tool_use"@ {
            (
                texts,
                reasoning,
                calls.push(
                    JsonV::Object(
                        seq![("id"@, jstr(str_or(b, "id"@, ""@))), ("name"@, jstr(str_or(b, "name"@, ""@)))],
                    ),
                ),
                results,
                left,
            )
        } else if ty == "tool_result"@ {
            let (kept, dropped, left2) = spec_take(
                left,
                result_text(spec_get(b, "content"@)),
                MAX_MESSAGE_INLINE_CHARS as int,
            );
            (
                texts,
                reasoning,
                calls,
                results.push(
                    JsonV::Object(
                        seq![
                            ("tool_call_id"@, jstr(str_or(b, "tool_use_id"@, ""@))),
                            ("is_error"@, JsonV::Bool(opt_bool(spec_get(b, "is_error"@)) == Some(true))),
                            ("content"@, jstr(kept)),
                        ] + if dropped > 0 {
                            seq![("truncated_chars"@, juint(dropped as u64))]
                        } else {
                            seq![]
                        },
                    ),
                ),
                left2,
            )
        } else {
            (texts, reasoning, calls, results, left)
        }
    }
}

/// The block parts as plain values.
pub open spec fn parts_view(
    texts: Seq<String>,
    reasoning: Seq<String>,
    calls: Seq<Json>,
    results: Seq<Json>,
    remaining: int,
) -> (Seq<Seq<char>>, Seq<Seq<char>>, Seq<JsonV>, Seq<JsonV>, int) {
    (
        texts.map_values(|t: String| t@),
        reasoning.map_values(|t: String| t@),
        items_view(calls),
        items_view(results),
        remaining,
    )
}

/// Append a string, keeping the views of the strings in step.
fn push_text(parts: &mut Vec<String>, text: &str)
    ensures
        final(parts)@.map_values(|t: String| t@) == old(parts)@.map_values(|t: String| t@).push(text@),
{
    let ghost before = parts@;
    parts.push(text.to_string());
    assert(parts@.map_values(|t: String| t@) =~= before.map_values(|t: String| t@).push(text@));
}

/// The `tool_result` entry of a message for one block, charged to the budget.
fn tool_result_part(block: &Json, budget: &mut InlineBudget) -> (res: Json)
    ensures
        ({
            let (kept, dropped, left) = spec_take(
                old(budget).remaining as int,
                result_text(spec_get(block@, "content"@)),
                MAX_MESSAGE_INLINE_CHARS as int,
            );
            &&& final(budget).remaining == left
            &&& res@ == JsonV::Object(
                seq![
                    ("tool_call_id"@, jstr(str_or(block@, "tool_use_id"@, ""@))),
                    ("is_error"@, JsonV::Bool(opt_bool(spec_get(block@, "is_error"@)) == Some(true))),
                    ("content"@, jstr(kept)),
                ] + if dropped > 0 {
                    seq![("truncated_chars"@, juint(dropped as u64))]
                } else {
                    seq![]
                },
            )
        }),
{
    let text = content_text(block.get("content"));
    let (kept, dropped) = budget.take(text.as_str(), MAX_MESSAGE_INLINE_CHARS);
    let mut members: Vec<(String, Json)> = Vec::new();
    proof {
        lemma_members_view_empty(members@);
    }
    push_member(&mut members, "tool_call_id", Json::String(field_str(block, "tool_use_id").to_string()));
    let is_error = match block.get_bool("is_error") {
        Some(b) => b,
        None => false,
    };
    push_member(&mut members, "is_error", Json::Bool(is_error));
    let ghost kept_v = kept@;
    push_member(&mut members, "content", Json::String(kept));
    if dropped > 0 {
        push_member(&mut members, "truncated_chars", Json::Number(JsonNumber::PosInt(dropped as u64)));
    }
    assert(members_view(members@) =~= seq![
        ("tool_call_id"@, jstr(str_or(block@, "tool_use_id"@, ""@))),
        ("is_error"@, JsonV::Bool(opt_bool(spec_get(block@, "is_error"@)) == Some(true))),
        ("content"@, jstr(kept_v)),
    ] + if dropped > 0 {
        seq![("truncated_chars"@, juint(dropped as u64))]
    } else {
        seq![]
    });
    Json::Object(members)
}

/// The `tool_call` entry of a message for one `tool_use` block.
fn tool_call_part(block: &Json) -> (res: Json)
    ensures
        res@ == JsonV::Object(
            seq![("id"@, jstr(str_or(block@, "id"@, ""@))), ("name"@, jstr(str_or(block@, "name"@, ""@)))],
        ),
{
    let mut members: Vec<(String, Json)> = Vec::new();
    proof {
        lemma_members_view_empty(members@);
        reveal_strlit("");
    }
    push_member(&mut members, "id", Json::String(field_str(block, "id").to_string()));
    push_member(&mut members, "name", Json::String(field_str(block, "name").to_string()));
    assert(members_view(members@) =~= seq![
        ("id"@, jstr(str_or(block@, "id"@, ""@))),
        ("name"@, jstr(str_or(block@, "name"@, ""@))),
    ]);
    Json::Object(members)
}

/// Read the content blocks of a message in order, charging tool results to
/// the budget.
pub fn block_parts(blocks: &Vec<Json>, budget: &mut InlineBudget) -> (res: (
    Vec<String>,
    Vec<String>,
    Vec<Json>,
    Vec<Json>,
))
    ensures
        parts_view(res.0@, res.1@, res.2@, res.3@, final(budget).remaining as int) == spec_block_parts(
            items_view(blocks@),
            old(budget).remaining as int,
        ),
{
    let ghost bv = items_view(blocks@);
    let ghost start = budget.remaining as int;
    let mut texts: Vec<String> = Vec::new();
    let mut reasoning: Vec<String> = Vec::new();
    let mut calls: Vec<Json> = Vec::new();
    let mut results: Vec<Json> = Vec::new();
    proof {
        lemma_items_view(blocks@);
        lemma_items_view_empty(calls@);
        lemma_items_view_empty(results@);
        assert(bv.take(0) =~= seq![]);
        assert(texts@.map_values(|t: String| t@) =~= seq![]);
        assert(reasoning@.map_values(|t: String| t@) =~= seq![]);
        reveal_strlit("");
        reveal_strlit("text");
        reveal_strlit("thinking");
        reveal_strlit("redacted_thinking");
        reveal_strlit("tool_use");
        reveal_strlit("tool_result");
    }
    let mut i: usize = 0;
    while i < blocks.len()
        invariant
            i <= blocks@.len(),
            bv == items_view(blocks@),
            bv.len() == blocks@.len(),
            forall|k: int| 0 <= k < blocks@.len() ==> #[trigger] bv[k] == blocks@[k]@,
            parts_view(texts@, reasoning@, calls@, results@, budget.remaining as int) == spec_block_parts(
                bv.take(i as int),
                start,
            ),
        decreases blocks@.len() - i,
    {
        let b = &blocks[i];
        proof {
            assert(bv.take(i + 1).drop_last() =~= bv.take(i as int));
            assert(bv.take(i + 1).last() == b@);
        }
        let ty: &str = match b.get_str("type") {
            Some(t) => t,
            None => "",
        };
        if str_eq(ty, "text") {
            match b.get_str("text") {
                Some(t) => push_text(&mut texts, t),
                None => {},
            }
        } else if str_eq(ty, "thinking") || str_eq(ty, "redacted_thinking") {
            let thinking = match b.get("thinking") {
                Some(t) => t.as_str(),
                None => b.get_str("text"),
            };
            match thinking {
                Some(t) => push_text(&mut reasoning, t),
                None => {},
            }
        } else if str_eq(ty, "tool_use") {
            push_item(&mut calls, tool_call_part(b));
        } else if str_eq(ty, "tool_result") {
            let part = tool_result_part(b, budget);
            push_item(&mut results, part);
        }
        i += 1;
    }
    assert(bv.take(i as int) =~= bv);
    (texts, reasoning, calls, results)
}

/// What a message's inline content comes to: its text, how many characters
/// of it were dropped, its reasoning, its tool calls and results, and the
/// budget left after.
pub struct MessageBody {
    pub text: Option<Seq<char>>,
    pub truncated: Option<int>,
    pub reasoning: Option<Seq<char>>,
    pub calls: Seq<JsonV>,
    pub results: Seq<JsonV>,
    pub remaining: int,
}

/// A message body with nothing in it.
pub open spec fn empty_body(remaining: int) -> MessageBody {
    MessageBody { text: None, truncated: None, reasoning: None, calls: seq![], results: seq![], remaining }
}

/// A message body holding one text, taken from the budget.
pub open spec fn text_body(text: Seq<char>, remaining: int) -> MessageBody {
    let (kept, dropped, left) = spec_take(remaining, text, MAX_MESSAGE_INLINE_CHARS as int);
    MessageBody {
        text: Some(kept),
        truncated: if dropped > 0 { Some(dropped) } else { None },
        reasoning: None,
        calls: seq![],
        results: seq![],
        remaining: left,
    }
}

/// The body an entry's inline `content` gives, from a budget with
/// `remaining` characters: a string as text, content blocks by their parts
/// (text parts, then reasoning parts, each joined by newlines), any other
/// non-null value as its serialized text.
pub open spec fn spec_inline_body(content: Option<JsonV>, remaining: int) -> MessageBody {
    match content {
        Some(JsonV::String(t)) => text_body(t, remaining),
        Some(JsonV::Array(blocks)) => {
            let (texts, reasoning, calls, results, left) = spec_block_parts(blocks, remaining);
            let (text, truncated, left2) = if texts.len() > 0 {
                let (kept, dropped, l) = spec_take(left, join_lines(texts), MAX_MESSAGE_INLINE_CHARS as int);
                (Some(kept), if dropped > 0 { Some(dropped) } else { None }, l)
            } else {
                (None, None, left)
            };
            let (reason, left3) = if reasoning.len() > 0 {
                let (kept, _, l) = spec_take(left2, join_lines(reasoning), MAX_MESSAGE_INLINE_CHARS as int);
                (Some(kept), l)
            } else {
                (None, left2)
            };
            MessageBody { text, truncated, reasoning: reason, calls, results, remaining: left3 }
        },
        Some(JsonV::Null) => empty_body(remaining),
        Some(other) => text_body(crate::json_text::serialized_json(other), remaining),
        None => empty_body(remaining),
    }
}

/// The body after a compaction entry's summary, when it has one, replaces
/// the text; and whether it did.
pub open spec fn spec_with_summary(body: MessageBody, entry: TreeEntry) -> (MessageBody, bool) {
    if entry.entry_type@ == "compaction"@ {
        match opt_str(spec_get(entry.raw@, "summary"@)) {
            Some(summary) => {
                let (kept, dropped, left) = spec_take(body.remaining, summary, MAX_MESSAGE_INLINE_CHARS as int);
                (
                    MessageBody {
                        text: Some(kept),
                        truncated: if dropped > 0 { Some(dropped) } else { body.truncated },
                        remaining: left,
                        ..body
                    },
                    true,
                )
            },
            None => (body, false),
        }
    } else {
        (body, false)
    }
}

/// The `data` members of a message's content.
pub open spec fn content_data(body: MessageBody, compaction: bool) -> Seq<(Seq<char>, JsonV)> {
    (match body.truncated {
        Some(d) => seq![("truncated_chars"@, juint(d as u64))],
        None => seq![],
    }) + (if body.calls.len() > 0 {
        seq![("tool_calls"@, JsonV::Array(body.calls))]
    } else {
        seq![]
    }) + (if body.results.len() > 0 {
        seq![("tool_results"@, JsonV::Array(body.results))]
    } else {
        seq![]
    }) + (if compaction {
        seq![("compaction"@, JsonV::Bool(true))]
    } else {
        seq![]
    })
}

/// The content type of a message body: tool results win over tool calls,
/// which win over text.
pub open spec fn body_type(body: MessageBody) -> Seq<char> {
    if body.results.len() > 0 {
        "tool_response"@
    } else if body.calls.len() > 0 {
        "tool_call"@
    } else {
        "text"@
    }
}

/// The `content` of a message with an inline body.
pub open spec fn content_value(body: MessageBody, compaction: bool) -> JsonV {
    let data = content_data(body, compaction);
    JsonV::Object(
        seq![("type"@, jstr(body_type(body)))] + (match body.text {
            Some(t) => seq![("text"@, jstr(t))],
            None => seq![],
        }) + (if data.len() > 0 {
            seq![("data"@, JsonV::Object(data))]
        } else {
            seq![]
        }),
    )
}

/// The `content` of a message whose body was externalized: a reference.
pub open spec fn external_content(entry: TreeEntry, role: Seq<char>, file_id: Seq<char>) -> JsonV {
    JsonV::Object(
        seq![
            ("type"@, jstr(spec_content_type_for_role(role))),
            (
                "data"@,
                JsonV::Object(
                    seq![
                        ("content_file_id"@, jstr(file_id)),
                        ("externalized"@, JsonV::Bool(true)),
                        ("tokens"@, juint(entry.tokens)),
                    ] + match opt_string(entry.content_file_version_id) {
                        Some(v) => seq![("content_file_version_id"@, jstr(v))],
                        None => seq![],
                    },
                ),
            ),
        ],
    )
}

/// The OTS message for an entry, stamped with its own recording time or
/// else `timestamp`, from a budget with `remaining` characters; and the
/// budget left after. An externalized body is referenced, never inlined.
pub open spec fn spec_build_message(entry: TreeEntry, timestamp: Seq<char>, remaining: int) -> (JsonV, int) {
    let role = spec_message_role(entry);
    let ts = match entry.spec_recorded_at() {
        Some(t) => t,
        None => timestamp,
    };
    let head = seq![("message_id"@, jstr(entry.id@)), ("role"@, jstr(role)), ("timestamp"@, jstr(ts))];
    match opt_string(entry.content_file_id) {
        Some(file_id) => (
            JsonV::Object(head + seq![("content"@, external_content(entry, role, file_id))]),
            remaining,
        ),
        None => {
            let (body, compaction) = spec_with_summary(
                spec_inline_body(crate::json::opt_json_owned(entry.content), remaining),
                entry,
            );
            (
                JsonV::Object(
                    head + (match body.reasoning {
                        Some(r) => seq![("reasoning"@, jstr(r))],
                        None => seq![],
                    }) + seq![("content"@, content_value(body, compaction))],
                ),
                body.remaining,
            )
        },
    }
}

/// An optional string as plain values.
pub open spec fn opt_text(o: Option<String>) -> Option<Seq<char>> {
    opt_string(o)
}

/// An optional count as an integer.
pub open spec fn opt_count(o: Option<usize>) -> Option<int> {
    match o {
        Some(n) => Some(n as int),
        None => None,
    }
}

/// A message body as plain values.
pub open spec fn body_view(
    text: Option<String>,
    truncated: Option<usize>,
    reasoning: Option<String>,
    calls: Seq<Json>,
    results: Seq<Json>,
    remaining: int,
) -> MessageBody {
    MessageBody {
        text: opt_string(text),
        truncated: opt_count(truncated),
        reasoning: opt_string(reasoning),
        calls: items_view(calls),
        results: items_view(results),
        remaining,
    }
}

/// One text taken from the budget.
fn take_text(text: &str, budget: &mut InlineBudget) -> (res: (Option<String>, Option<usize>))
    ensures
        ({
            let b = text_body(text@, old(budget).remaining as int);
            &&& opt_string(res.0) == b.text
            &&& opt_count(res.1) == b.truncated
            &&& final(budget).remaining == b.remaining
        }),
{
    let (kept, dropped) = budget.take(text, MAX_MESSAGE_INLINE_CHARS);
    (Some(kept), if dropped > 0 { Some(dropped) } else { None })
}

/// The body an entry's inline content gives.
pub fn inline_body(content: &Option<Json>, budget: &mut InlineBudget) -> (res: (
    Option<String>,
    Option<usize>,
    Option<String>,
    Vec<Json>,
    Vec<Json>,
))
    ensures
        body_view(res.0, res.1, res.2, res.3@, res.4@, final(budget).remaining as int) == spec_inline_body(
            crate::json::opt_json_owned(*content),
            old(budget).remaining as int,
        ),
{
    let mut calls: Vec<Json> = Vec::new();
    let mut results: Vec<Json> = Vec::new();
    proof {
        lemma_items_view_empty(calls@);
        lemma_items_view_empty(results@);
    }
    match content {
        Some(Json::String(t)) => {
            let (text, truncated) = take_text(t.as_str(), budget);
            (text, truncated, None, calls, results)
        },
        Some(Json::Array(blocks)) => {
            let (texts, reasoning, c, r) = block_parts(blocks, budget);
            let (text, truncated) = if texts.len() > 0 {
                let joined = join_newline(&texts);
                take_text(joined.as_str(), budget)
            } else {
                (None, None)
            };
            let reason = if reasoning.len() > 0 {
                let joined = join_newline(&reasoning);
                let (kept, _) = budget.take(joined.as_str(), MAX_MESSAGE_INLINE_CHARS);
                Some(kept)
            } else {
                None
            };
            (text, truncated, reason, c, r)
        },
        Some(Json::Null) => (None, None, None, calls, results),
        Some(other) => {
            let serialized = crate::json_text::to_json_text(other);
            let (text, truncated) = take_text(serialized.as_str(), budget);
            (text, truncated, None, calls, results)
        },
        None => (None, None, None, calls, results),
    }
}

/// The `content` object of a message with an inline body.
fn content_object(
    text: Option<String>,
    truncated: Option<usize>,
    calls: Vec<Json>,
    results: Vec<Json>,
    compaction: bool,
) -> (res: Json)
    ensures
        res@ == content_value(body_view(text, truncated, None, calls@, results@, 0), compaction),
{
    let ghost body = body_view(text, truncated, None, calls@, results@, 0);
    proof {
        reveal_strlit("tool_response");
        reveal_strlit("tool_call");
        reveal_strlit("text");
    }
    let mut data: Vec<(String, Json)> = Vec::new();
    proof {
        lemma_members_view_empty(data@);
    }
    match truncated {
        Some(d) => push_member(&mut data, "truncated_chars", Json::Number(JsonNumber::PosInt(d as u64))),
        None => {},
    }
    let has_calls = calls.len() > 0;
    let has_results = results.len() > 0;
    proof {
        lemma_items_view(calls@);
        lemma_items_view(results@);
    }
    if has_calls {
        push_member(&mut data, "tool_calls", Json::Array(calls));
    }
    if has_results {
        push_member(&mut data, "tool_results", Json::Array(results));
    }
    if compaction {
        push_member(&mut data, "compaction", Json::Bool(true));
    }
    assert(members_view(data@) =~= content_data(body, compaction));
    let ctype: &str = if has_results {
        "tool_response"
    } else if has_calls {
        "tool_call"
    } else {
        "text"
    };
    let mut content: Vec<(String, Json)> = Vec::new();
    proof {
        lemma_members_view_empty(content@);
    }
    push_member(&mut content, "type", Json::String(ctype.to_string()));
    let ghost text_v = opt_string(text);
    match text {
        Some(t) => push_member(&mut content, "text", Json::String(t)),
        None => {},
    }
    let has_data = data.len() > 0;
    proof {
        crate::json::lemma_members_view(data@);
    }
    let ghost data_v = members_view(data@);
    if has_data {
        push_member(&mut content, "data", Json::Object(data));
    }
    assert(members_view(content@) =~= seq![("type"@, jstr(body_type(body)))] + (match text_v {
        Some(t) => seq![("text"@, jstr(t))],
        None => seq![],
    }) + (if data_v.len() > 0 {
        seq![("data"@, JsonV::Object(data_v))]
    } else {
        seq![]
    }));
    Json::Object(content)
}

/// The reference content of a message whose body was externalized.
fn external_content_object(entry: &TreeEntry, role: &str, file_id: &String) -> (res: Json)
    requires
        opt_string(entry.content_file_id) == Some(file_id@),
    ensures
        res@ == external_content(*entry, role@, file_id@),
{
    let mut data: Vec<(String, Json)> = Vec::new();
    proof {
        lemma_members_view_empty(data@);
    }
    push_member(&mut data, "content_file_id", Json::String(file_id.clone()));
    push_member(&mut data, "externalized", Json::Bool(true));
    push_member(&mut data, "tokens", Json::Number(JsonNumber::PosInt(entry.tokens)));
    match &entry.content_file_version_id {
        Some(v) => push_member(&mut data, "content_file_version_id", Json::String(v.clone())),
        None => {},
    }
    let ghost data_v = members_view(data@);
    assert(data_v =~= seq![
        ("content_file_id"@, jstr(file_id@)),
        ("externalized"@, JsonV::Bool(true)),
        ("tokens"@, juint(entry.tokens)),
    ] + match opt_string(entry.content_file_version_id) {
        Some(v) => seq![("content_file_version_id"@, jstr(v))],
        None => seq![],
    });
    let mut content: Vec<(String, Json)> = Vec::new();
    proof {
        lemma_members_view_empty(content@);
    }
    push_member(&mut content, "type", Json::String(content_type_for_role(role).to_string()));
    push_member(&mut content, "data", Json::Object(data));
    assert(members_view(content@) =~= seq![
        ("type"@, jstr(spec_content_type_for_role(role@))),
        ("data"@, JsonV::Object(data_v)),
    ]);
    let res = Json::Object(content);
    let ghost ec = external_content(*entry, role@, file_id@);
    assert(ec->Object_0 =~= seq![
        ("type"@, jstr(spec_content_type_for_role(role@))),
        ("data"@, JsonV::Object(data_v)),
    ]);
    res
}

/// Build the OTS message for one session entry, honoring the inline budget.
pub fn build_message(entry: &TreeEntry, timestamp: &str, budget: &mut InlineBudget) -> (res: Json)
    ensures
        (res@, final(budget).remaining as int) == spec_build_message(
            *entry,
            timestamp@,
            old(budget).remaining as int,
        ),
{
    let role = message_role(entry);
    let ts: String = match entry.recorded_at() {
        Some(t) => t,
        None => timestamp.to_string(),
    };
    let mut message: Vec<(String, Json)> = Vec::new();
    proof {
        lemma_members_view_empty(message@);
    }
    push_member(&mut message, "message_id", Json::String(entry.id.clone()));
    push_member(&mut message, "role", Json::String(role.to_string()));
    push_member(&mut message, "timestamp", Json::String(ts));
    let ghost head = members_view(message@);
    let ghost ts_v = match entry.spec_recorded_at() {
        Some(t) => t,
        None => timestamp@,
    };
    assert(head =~= seq![
        ("message_id"@, jstr(entry.id@)),
        ("role"@, jstr(spec_message_role(*entry))),
        ("timestamp"@, jstr(ts_v)),
    ]);
    match &entry.content_file_id {
        Some(file_id) => {
            let content = external_content_object(entry, role, file_id);
            let ghost cv = content@;
            push_member(&mut message, "content", content);
            assert(members_view(message@) =~= head + seq![("content"@, cv)]);
            return Json::Object(message);
        },
        None => {},
    }
    let ghost start = budget.remaining as int;
    let (text, truncated, reasoning, calls, results) = inline_body(&entry.content, budget);
    let ghost inline = body_view(text, truncated, reasoning, calls@, results@, budget.remaining as int);
    let mut text = text;
    let mut truncated = truncated;
    let mut compaction = false;
    if str_eq(entry.entry_type.as_str(), "compaction") {
        match entry.raw.get_str("summary") {
            Some(summary) => {
                let (kept, dropped) = budget.take(summary, MAX_MESSAGE_INLINE_CHARS);
                text = Some(kept);
                if dropped > 0 {
                    truncated = Some(dropped);
                }
                compaction = true;
            },
            None => {},
        }
    }
    let ghost after = spec_with_summary(inline, *entry);
    assert(after.1 == compaction);
    assert(after.0 == body_view(text, truncated, reasoning, calls@, results@, budget.remaining as int));
    let ghost reasoning_v = opt_string(reasoning);
    match reasoning {
        Some(r) => push_member(&mut message, "reasoning", Json::String(r)),
        None => {},
    }
    let content = content_object(text, truncated, calls, results, compaction);
    push_member(&mut message, "content", content);
    assert(members_view(message@) =~= head + (match reasoning_v {
        Some(r) => seq![("reasoning"@, jstr(r))],
        None => seq![],
    }) + seq![("content"@, content_value(after.0, compaction))]);
    Json::Object(message)
}

/// The inline text a message carries: its content's `text`, else nothing.
pub open spec fn message_text(msg: JsonV) -> Seq<char> {
    match spec_get(msg, "content"@) {
        Some(c) => match spec_get(c, "text"@) {
            Some(JsonV::String(t)) => t,
            _ => seq![],
        },
        None => seq![],
    }
}

/// Members that come before the first one named `key` do not change what
/// it is.
pub proof fn lemma_members_get_skip(a: Seq<(Seq<char>, JsonV)>, b: Seq<(Seq<char>, JsonV)>, key: Seq<char>)
    requires
        forall|k: int| 0 <= k < a.len() ==> (#[trigger] a[k]).0 != key,
    ensures
        members_get(a + b, key) == members_get(b, key),
    decreases a.len(),
{
    if a.len() > 0 {
        assert((a + b)[0] == a[0]);
        assert((a + b).drop_first() =~= a.drop_first() + b);
        assert forall|k: int| 0 <= k < a.drop_first().len() implies (#[trigger] a.drop_first()[k]).0 != key by {
            assert(a.drop_first()[k] == a[k + 1]);
        }
        lemma_members_get_skip(a.drop_first(), b, key);
    }
}

/// Reading content blocks leaves between nothing and what there was.
proof fn lemma_block_parts_budget(blocks: Seq<JsonV>, remaining: int)
    requires
        remaining >= 0,
    ensures
        0 <= spec_block_parts(blocks, remaining).4 <= remaining,
    decreases blocks.len(),
{
    if blocks.len() > 0 {
        lemma_block_parts_budget(blocks.drop_last(), remaining);
        let left = spec_block_parts(blocks.drop_last(), remaining).4;
        let b = blocks.last();
        crate::ots::law_take_bounds(left, result_text(spec_get(b, "content"@)), MAX_MESSAGE_INLINE_CHARS as int);
    }
}

/// The length of a body's text, none counting as empty.
pub open spec fn body_text_len(body: MessageBody) -> int {
    match body.text {
        Some(t) => t.len() as int,
        None => 0,
    }
}

/// An inline body keeps at most the per-message limit of text, and charges
/// the budget at least what it keeps.
proof fn lemma_inline_body_budget(content: Option<JsonV>, remaining: int)
    requires
        remaining >= 0,
    ensures
        ({
            let body = spec_inline_body(content, remaining);
            &&& body_text_len(body) <= MAX_MESSAGE_INLINE_CHARS
            &&& 0 <= body.remaining <= remaining - body_text_len(body)
        }),
{
    let cap = MAX_MESSAGE_INLINE_CHARS as int;
    match content {
        Some(JsonV::String(t)) => {
            crate::ots::law_take_bounds(remaining, t, cap);
        },
        Some(JsonV::Array(blocks)) => {
            lemma_block_parts_budget(blocks, remaining);
            let (texts, reasoning, calls, results, left) = spec_block_parts(blocks, remaining);
            crate::ots::law_take_bounds(left, join_lines(texts), cap);
            let l = if texts.len() > 0 {
                spec_take(left, join_lines(texts), cap).2
            } else {
                left
            };
            crate::ots::law_take_bounds(l, join_lines(reasoning), cap);
        },
        Some(JsonV::Null) => {},
        Some(other) => {
            crate::ots::law_take_bounds(remaining, crate::json_text::serialized_json(other), cap);
        },
        None => {},
    }
}

/// Every message keeps at most `MAX_MESSAGE_INLINE_CHARS` characters of
/// text in its content, and the text it keeps is charged to the inline
/// budget: built from `remaining` characters, it leaves at least none and at
/// most `remaining` less the text kept.
pub proof fn law_message_text_bounded(entry: TreeEntry, timestamp: Seq<char>, remaining: int)
    requires
        remaining >= 0,
    ensures
        ({
            let (msg, left) = spec_build_message(entry, timestamp, remaining);
            &&& message_text(msg).len() <= MAX_MESSAGE_INLINE_CHARS
            &&& 0 <= left <= remaining - message_text(msg).len()
        }),
{
    let (msg, left) = spec_build_message(entry, timestamp, remaining);
    let role = spec_message_role(entry);
    let ts = match entry.spec_recorded_at() {
        Some(t) => t,
        None => timestamp,
    };
    let head = seq![("message_id"@, jstr(entry.id@)), ("role"@, jstr(role)), ("timestamp"@, jstr(ts))];
    reveal_strlit("message_id");
    reveal_strlit("role");
    reveal_strlit("timestamp");
    reveal_strlit("reasoning");
    reveal_strlit("content");
    reveal_strlit("type");
    reveal_strlit("text");
    reveal_strlit("data");
    match opt_string(entry.content_file_id) {
        Some(file_id) => {
            let c = external_content(entry, role, file_id);
            assert(msg == JsonV::Object(head + seq![("content"@, c)]));
            assert forall|k: int| 0 <= k < head.len() implies (#[trigger] head[k]).0 != "content"@ by {
                assert(head[k].0[0] != "content"@[0]);
            }
            lemma_members_get_skip(head, seq![("content"@, c)], "content"@);
            let cm = c->Object_0;
            assert(cm.len() == 2);
            assert(cm[0].0 == "type"@ && cm[1].0 == "data"@);
            assert("type"@[1] != "text"@[1]);
            assert("data"@[0] != "text"@[0]);
            assert forall|k: int| 0 <= k < cm.len() implies (#[trigger] cm[k]).0 != "text"@ by {}
            lemma_members_get_skip(cm, seq![], "text"@);
            assert(cm + seq![] =~= cm);
        },
        None => {
            let inline = spec_inline_body(crate::json::opt_json_owned(entry.content), remaining);
            lemma_inline_body_budget(crate::json::opt_json_owned(entry.content), remaining);
            let (body, compaction) = spec_with_summary(inline, entry);
            if entry.entry_type@ == "compaction"@ {
                match opt_str(spec_get(entry.raw@, "summary"@)) {
                    Some(summary) => {
                        crate::ots::law_take_bounds(inline.remaining, summary, MAX_MESSAGE_INLINE_CHARS as int);
                    },
                    None => {},
                }
            }
            assert(body_text_len(body) <= MAX_MESSAGE_INLINE_CHARS);
            assert(0 <= body.remaining <= remaining - body_text_len(body));
            let pre = head + (match body.reasoning {
                Some(r) => seq![("reasoning"@, jstr(r))],
                None => seq![],
            });
            let c = content_value(body, compaction);
            assert(msg == JsonV::Object(pre + seq![("content"@, c)]));
            assert forall|k: int| 0 <= k < pre.len() implies (#[trigger] pre[k]).0 != "content"@ by {
                if k < 3 {
                    assert(pre[k] == head[k]);
                }
                assert(pre[k].0[0] != "content"@[0]);
            }
            lemma_members_get_skip(pre, seq![("content"@, c)], "content"@);
            let data = content_data(body, compaction);
            let tail = (match body.text {
                Some(t) => seq![("text"@, jstr(t))],
                None => seq![],
            }) + (if data.len() > 0 {
                seq![("data"@, JsonV::Object(data))]
            } else {
                seq![]
            });
            let first = seq![("type"@, jstr(body_type(body)))];
            assert("type"@[1] != "text"@[1]);
            assert(c->Object_0 == first + tail);
            lemma_members_get_skip(first, tail, "text"@);
            match body.text {
                Some(t) => {},
                None => {
                    lemma_members_get_skip(tail, seq![], "text"@);
                    assert(tail + seq![] =~= tail);
                },
            }
        },
    }
}

} // verus!
