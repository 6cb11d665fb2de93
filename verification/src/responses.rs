//! The OpenAI Responses API (and its Codex backend) seen from the agent
//! loop: the Anthropic-style history rewritten as Responses input items,
//! the request body, the event stream read back, and the reply turned into
//! Anthropic-style content blocks.

use vstd::prelude::*;
use crate::json::{
    Json, JsonV, items_view, opt_str, spec_get, object2, object3, object4, string_value, array1,
    array_of, spec_as_i64,
};
use crate::json_text::{parsed_json, serialized_json};
use crate::text::{join_lines, str_eq, string_from_chars};
use crate::genai::{block_kind, block_texts};
use crate::mock::LlmResponse;
use crate::compaction::{SseState, sse_apply, sse_event, text_message_item, utf8_len};

verus! {

/// A string member, empty without one.
pub open spec fn str_or_empty(v: JsonV, key: Seq<char>) -> Seq<char> {
    match opt_str(spec_get(v, key)) {
        Some(s) => s,
        None => seq![],
    }
}

/// The output a tool result reports: the texts of its content list joined
/// by newlines, its content string, or nothing.
pub open spec fn call_output(content: Option<JsonV>) -> Seq<char> {
    match content {
        Some(JsonV::Array(blocks)) => join_lines(block_texts(blocks)),
        Some(JsonV::String(t)) => t,
        _ => seq![],
    }
}

/// A `function_call_output` input item.
pub open spec fn function_call_output(call_id: Seq<char>, output: Seq<char>) -> JsonV {
    JsonV::Object(
        seq![
            ("type"@, JsonV::String("function_call_output"@)),
            ("call_id"@, JsonV::String(call_id)),
            ("output"@, JsonV::String(output)),
        ],
    )
}

/// The output items of the tool results among user blocks.
pub open spec fn result_items(blocks: Seq<JsonV>) -> Seq<JsonV>
    decreases blocks.len(),
{
    if blocks.len() == 0 {
        seq![]
    } else {
        let prior = result_items(blocks.drop_last());
        let b = blocks.last();
        if block_kind(b) == "tool_result"@ {
            prior.push(
                function_call_output(str_or_empty(b, "tool_use_id"@), call_output(spec_get(b, "content"@))),
            )
        } else {
            prior
        }
    }
}

/// A user input message.
pub open spec fn user_input(text: Seq<char>) -> JsonV {
    JsonV::Object(seq![("role"@, JsonV::String("user"@)), ("content"@, JsonV::String(text))])
}

/// An assistant text as an input item.
pub open spec fn assistant_text_item(text: Seq<char>) -> JsonV {
    JsonV::Object(
        seq![
            ("type"@, JsonV::String("message"@)),
            ("role"@, JsonV::String("assistant"@)),
            (
                "content"@,
                JsonV::Array(
                    seq![
                        JsonV::Object(
                            seq![("type"@, JsonV::String("output_text"@)), ("text"@, JsonV::String(text))],
                        ),
                    ],
                ),
            ),
        ],
    )
}

/// An assistant tool call as an input item: its id and name (empty
/// without), its input (an empty object without) as JSON text.
pub open spec fn function_call_item(b: JsonV) -> JsonV {
    JsonV::Object(
        seq![
            ("type"@, JsonV::String("function_call"@)),
            ("call_id"@, JsonV::String(str_or_empty(b, "id"@))),
            ("name"@, JsonV::String(str_or_empty(b, "name"@))),
            ("arguments"@, JsonV::String(serialized_json(match spec_get(b, "input"@) {
                Some(v) => v,
                None => JsonV::Object(seq![]),
            }))),
        ],
    )
}

/// The input items of assistant blocks: a text item per text, a call item
/// per tool call.
pub open spec fn assistant_items(blocks: Seq<JsonV>) -> Seq<JsonV>
    decreases blocks.len(),
{
    if blocks.len() == 0 {
        seq![]
    } else {
        let prior = assistant_items(blocks.drop_last());
        let b = blocks.last();
        if block_kind(b) == "text"@ {
            match opt_str(spec_get(b, "text"@)) {
                Some(t) => prior.push(assistant_text_item(t)),
                None => prior,
            }
        } else if block_kind(b) == "tool_use"@ {
            prior.push(function_call_item(b))
        } else {
            prior
        }
    }
}

/// The input items one message gives, by role (`user` without one): a
/// user string one user message; user blocks their tool results, or, when
/// there are none, one user message of their texts if not empty; assistant
/// blocks their texts and calls; a `tool_result` message one output item;
/// anything else nothing.
pub open spec fn message_input_items(m: JsonV) -> Seq<JsonV> {
    let role = match opt_str(spec_get(m, "role"@)) {
        Some(r) => r,
        None => "user"@,
    };
    let content = spec_get(m, "content"@);
    if role == "user"@ {
        match content {
            Some(JsonV::String(t)) => seq![user_input(t)],
            Some(JsonV::Array(blocks)) => {
                let results = result_items(blocks);
                if results.len() > 0 {
                    results
                } else if join_lines(block_texts(blocks)).len() > 0 {
                    seq![user_input(join_lines(block_texts(blocks)))]
                } else {
                    seq![]
                }
            },
            _ => seq![],
        }
    } else if role == "assistant"@ {
        match content {
            Some(JsonV::Array(blocks)) => assistant_items(blocks),
            _ => seq![],
        }
    } else if role == "tool_result"@ {
        seq![function_call_output(str_or_empty(m, "tool_use_id"@), call_output(content))]
    } else {
        seq![]
    }
}

/// The Responses input of a history, in order.
pub open spec fn responses_input(msgs: Seq<JsonV>) -> Seq<JsonV>
    decreases msgs.len(),
{
    if msgs.len() == 0 {
        seq![]
    } else {
        responses_input(msgs.drop_last()) + message_input_items(msgs.last())
    }
}

/// The output a tool result reports.
fn read_call_output(content: Option<&Json>) -> (res: String)
    ensures
        res@ == call_output(crate::json::opt_json(content)),
{
    match content {
        Some(Json::Array(blocks)) => crate::text::join_newline(&crate::genai::collect_block_texts(blocks)),
        Some(Json::String(t)) => t.clone(),
        _ => String::new(),
    }
}

/// A string member, empty without one.
fn member_or_empty<'a>(v: &'a Json, key: &str) -> (res: &'a str)
    ensures
        res@ == str_or_empty(v@, key@),
{
    proof {
        reveal_strlit("");
    }
    match v.get_str(key) {
        Some(s) => s,
        None => "",
    }
}

/// A `function_call_output` input item.
fn make_function_call_output(call_id: &str, output: String) -> (res: Json)
    ensures
        res@ == function_call_output(call_id@, output@),
{
    object3(
        "type",
        string_value("function_call_output"),
        "call_id",
        string_value(call_id),
        "output",
        Json::String(output),
    )
}

/// A user input message.
fn make_user_input(text: String) -> (res: Json)
    ensures
        res@ == user_input(text@),
{
    object2("role", string_value("user"), "content", Json::String(text))
}

/// Appends the input items of a user's block list.
fn push_user_blocks(input: &mut Vec<Json>, blocks: &Vec<Json>)
    ensures
        items_view(final(input)@) == items_view(old(input)@) + ({
            let bv = items_view(blocks@);
            let results = result_items(bv);
            if results.len() > 0 {
                results
            } else if join_lines(block_texts(bv)).len() > 0 {
                seq![user_input(join_lines(block_texts(bv)))]
            } else {
                seq![]
            }
        }),
{
    let ghost bv = items_view(blocks@);
    let ghost start = items_view(input@);
    proof {
        crate::json::lemma_items_view(blocks@);
        assert(bv.take(0) =~= Seq::<JsonV>::empty());
        assert(start =~= start + result_items(bv.take(0)));
    }
    let mut found: usize = 0;
    let mut i: usize = 0;
    while i < blocks.len()
        invariant
            i <= blocks@.len(),
            bv == items_view(blocks@),
            bv.len() == blocks@.len(),
            forall|j: int| 0 <= j < blocks@.len() ==> #[trigger] bv[j] == blocks@[j]@,
            items_view(input@) == start + result_items(bv.take(i as int)),
            found == result_items(bv.take(i as int)).len(),
            found <= i,
        decreases blocks@.len() - i,
    {
        assert(bv.take(i + 1).drop_last() =~= bv.take(i as int));
        let b = &blocks[i];
        if str_eq(crate::genai::kind_of(b), "tool_result") {
            let out = read_call_output(b.get("content"));
            crate::json::push_item(input, make_function_call_output(member_or_empty(b, "tool_use_id"), out));
            found += 1;
        }
        assert(items_view(input@) =~= start + result_items(bv.take(i + 1)));
        i += 1;
    }
    assert(bv.take(i as int) =~= bv);
    if found == 0 {
        let text = crate::text::join_newline(&crate::genai::collect_block_texts(blocks));
        if !text.as_str().is_empty() {
            crate::json::push_item(input, make_user_input(text));
        }
    }
    assert(items_view(input@) =~= start + ({
        let results = result_items(bv);
        if results.len() > 0 {
            results
        } else if join_lines(block_texts(bv)).len() > 0 {
            seq![user_input(join_lines(block_texts(bv)))]
        } else {
            seq![]
        }
    }));
}

/// An assistant text as an input item.
fn make_assistant_text_item(text: &str) -> (res: Json)
    ensures
        res@ == assistant_text_item(text@),
{
    let part = object2("type", string_value("output_text"), "text", string_value(text));
    object3(
        "type",
        string_value("message"),
        "role",
        string_value("assistant"),
        "content",
        array1(part),
    )
}

/// An assistant tool call as an input item.
#[verifier::spinoff_prover]
fn make_function_call_item(b: &Json) -> (res: Json)
    ensures
        res@ == function_call_item(b@),
{
    let arguments = match b.get("input") {
        Some(v) => crate::json_text::to_json_text(v),
        None => {
            let none: Vec<(String, Json)> = Vec::new();
            proof {
                crate::json::lemma_members_view_empty(none@);
            }
            crate::json_text::to_json_text(&Json::Object(none))
        },
    };
    let ghost av = arguments@;
    let res = object4(
        "type",
        string_value("function_call"),
        "call_id",
        string_value(member_or_empty(b, "id")),
        "name",
        string_value(member_or_empty(b, "name")),
        "arguments",
        Json::String(arguments),
    );
    assert(res@->Object_0 =~= function_call_item(b@)->Object_0);
    res
}

/// Appends the input items of an assistant's block list.
fn push_assistant_blocks(input: &mut Vec<Json>, blocks: &Vec<Json>)
    ensures
        items_view(final(input)@) == items_view(old(input)@) + assistant_items(items_view(blocks@)),
{
    let ghost bv = items_view(blocks@);
    let ghost start = items_view(input@);
    proof {
        crate::json::lemma_items_view(blocks@);
        assert(bv.take(0) =~= Seq::<JsonV>::empty());
        assert(start =~= start + assistant_items(bv.take(0)));
    }
    let mut i: usize = 0;
    while i < blocks.len()
        invariant
            i <= blocks@.len(),
            bv == items_view(blocks@),
            bv.len() == blocks@.len(),
            forall|j: int| 0 <= j < blocks@.len() ==> #[trigger] bv[j] == blocks@[j]@,
            items_view(input@) == start + assistant_items(bv.take(i as int)),
        decreases blocks@.len() - i,
    {
        proof {
            reveal_strlit("text");
            reveal_strlit("tool_use");
            assert("text"@.len() == 4);
            assert("tool_use"@.len() == 8);
        }
        assert(bv.take(i + 1).drop_last() =~= bv.take(i as int));
        let b = &blocks[i];
        let k = crate::genai::kind_of(b);
        if str_eq(k, "text") {
            if let Some(t) = b.get_str("text") {
                crate::json::push_item(input, make_assistant_text_item(t));
            }
        } else if str_eq(k, "tool_use") {
            crate::json::push_item(input, make_function_call_item(b));
        }
        assert(items_view(input@) =~= start + assistant_items(bv.take(i + 1)));
        i += 1;
    }
    assert(bv.take(i as int) =~= bv);
}

/// Rewrites a history as Responses API input items.
pub fn build_responses_input(messages: &Vec<Json>) -> (res: Vec<Json>)
    ensures
        items_view(res@) == responses_input(items_view(messages@)),
{
    let ghost mv = items_view(messages@);
    proof {
        crate::json::lemma_items_view(messages@);
        assert(mv.take(0) =~= Seq::<JsonV>::empty());
    }
    let mut input: Vec<Json> = Vec::new();
    proof {
        crate::json::lemma_items_view_empty(input@);
    }
    let mut i: usize = 0;
    while i < messages.len()
        invariant
            i <= messages@.len(),
            mv == items_view(messages@),
            mv.len() == messages@.len(),
            forall|j: int| 0 <= j < messages@.len() ==> #[trigger] mv[j] == messages@[j]@,
            items_view(input@) == responses_input(mv.take(i as int)),
        decreases messages@.len() - i,
    {
        proof {
            reveal_strlit("user");
            reveal_strlit("assistant");
            reveal_strlit("tool_result");
            assert("user"@.len() == 4);
            assert("assistant"@.len() == 9);
            assert("tool_result"@.len() == 11);
        }
        assert(mv.take(i + 1).drop_last() =~= mv.take(i as int));
        let msg = &messages[i];
        let ghost before = items_view(input@);
        let role = match msg.get_str("role") {
            Some(r) => r,
            None => "user",
        };
        if str_eq(role, "user") {
            match msg.get("content") {
                Some(Json::String(t)) => {
                    crate::json::push_item(&mut input, make_user_input(t.clone()));
                },
                Some(Json::Array(blocks)) => {
                    push_user_blocks(&mut input, blocks);
                },
                _ => {},
            }
        } else if str_eq(role, "assistant") {
            match msg.get("content") {
                Some(Json::Array(blocks)) => {
                    push_assistant_blocks(&mut input, blocks);
                },
                _ => {},
            }
        } else if str_eq(role, "tool_result") {
            let out = read_call_output(msg.get("content"));
            crate::json::push_item(&mut input, make_function_call_output(member_or_empty(msg, "tool_use_id"), out));
        }
        assert(items_view(input@) =~= before + message_input_items(mv[i as int]));
        i += 1;
    }
    assert(mv.take(i as int) =~= mv);
    input
}

/// A tool as a Responses API function: its name and description (empty
/// without), its input schema (an empty object without), not strict.
pub open spec fn responses_tool(t: JsonV) -> JsonV {
    JsonV::Object(
        seq![
            ("type"@, JsonV::String("function"@)),
            ("name"@, JsonV::String(str_or_empty(t, "name"@))),
            ("description"@, JsonV::String(str_or_empty(t, "description"@))),
            ("parameters"@, match spec_get(t, "input_schema"@) {
                Some(v) => v,
                None => JsonV::Object(seq![]),
            }),
            ("strict"@, JsonV::Bool(false)),
        ],
    )
}

/// A tool as a Responses API function.
#[verifier::spinoff_prover]
fn make_responses_tool(t: &Json) -> (res: Json)
    ensures
        res@ == responses_tool(t@),
{
    let schema = match t.get("input_schema") {
        Some(v) => v.duplicate(),
        None => {
            let none: Vec<(String, Json)> = Vec::new();
            proof {
                crate::json::lemma_members_view_empty(none@);
            }
            Json::Object(none)
        },
    };
    let ghost sv = schema@;
    let mut m: Vec<(String, Json)> = Vec::new();
    proof {
        crate::json::lemma_members_view_empty(m@);
    }
    crate::json::push_member(&mut m, "type", string_value("function"));
    crate::json::push_member(&mut m, "name", string_value(member_or_empty(t, "name")));
    crate::json::push_member(&mut m, "description", string_value(member_or_empty(t, "description")));
    crate::json::push_member(&mut m, "parameters", schema);
    crate::json::push_member(&mut m, "strict", Json::Bool(false));
    assert(crate::json::members_view(m@) =~= responses_tool(t@)->Object_0);
    Json::Object(m)
}

/// The tools as Responses API functions.
pub fn build_responses_tools(tools: &Vec<Json>) -> (res: Vec<Json>)
    ensures
        items_view(res@) == items_view(tools@).map_values(|t: JsonV| responses_tool(t)),
{
    let ghost tv = items_view(tools@);
    proof {
        crate::json::lemma_items_view(tools@);
    }
    let mut out: Vec<Json> = Vec::new();
    proof {
        crate::json::lemma_items_view_empty(out@);
    }
    let mut i: usize = 0;
    while i < tools.len()
        invariant
            i <= tools@.len(),
            tv == items_view(tools@),
            tv.len() == tools@.len(),
            forall|j: int| 0 <= j < tools@.len() ==> #[trigger] tv[j] == tools@[j]@,
            items_view(out@) == tv.take(i as int).map_values(|t: JsonV| responses_tool(t)),
        decreases tools@.len() - i,
    {
        crate::json::push_item(&mut out, make_responses_tool(&tools[i]));
        assert(tv.take(i + 1).map_values(|t: JsonV| responses_tool(t)) =~= tv.take(i as int).map_values(
            |t: JsonV| responses_tool(t),
        ).push(responses_tool(tv[i as int])));
        i += 1;
    }
    assert(tv.take(i as int) =~= tv);
    out
}

/// The Responses request body, without a temperature (which a float
/// carries, and which the Codex backend refuses): model, instructions,
/// input, a streamed and unstored reply with medium reasoning effort, and
/// the tools with automatic choice when there are any.
pub open spec fn responses_body(model: Seq<char>, instructions: Seq<char>, input: Seq<JsonV>, tools: Seq<JsonV>) -> JsonV {
    JsonV::Object(
        seq![
            ("model"@, JsonV::String(model)),
            ("instructions"@, JsonV::String(instructions)),
            ("input"@, JsonV::Array(input)),
            ("stream"@, JsonV::Bool(true)),
            ("store"@, JsonV::Bool(false)),
            (
                "reasoning"@,
                JsonV::Object(
                    seq![("effort"@, JsonV::String("medium"@)), ("summary"@, JsonV::String("auto"@))],
                ),
            ),
        ] + if tools.len() > 0 {
            seq![("tools"@, JsonV::Array(tools)), ("tool_choice"@, JsonV::String("auto"@))]
        } else {
            seq![]
        },
    )
}

/// The Responses request body for a history and its tools.
pub fn build_responses_body(model: &str, system_prompt: &str, messages: &Vec<Json>, tools: &Vec<Json>) -> (res: Json)
    ensures
        res@ == responses_body(
            model@,
            system_prompt@,
            responses_input(items_view(messages@)),
            items_view(tools@).map_values(|t: JsonV| responses_tool(t)),
        ),
{
    let input = build_responses_input(messages);
    let codex_tools = build_responses_tools(tools);
    let ghost iv = items_view(input@);
    let ghost tv = items_view(codex_tools@);
    proof {
        crate::json::lemma_items_view(codex_tools@);
    }
    let mut m: Vec<(String, Json)> = Vec::new();
    proof {
        crate::json::lemma_members_view_empty(m@);
    }
    crate::json::push_member(&mut m, "model", string_value(model));
    crate::json::push_member(&mut m, "instructions", string_value(system_prompt));
    crate::json::push_member(&mut m, "input", array_of(input));
    crate::json::push_member(&mut m, "stream", Json::Bool(true));
    crate::json::push_member(&mut m, "store", Json::Bool(false));
    crate::json::push_member(
        &mut m,
        "reasoning",
        object2("effort", string_value("medium"), "summary", string_value("auto")),
    );
    if codex_tools.len() > 0 {
        crate::json::push_member(&mut m, "tools", array_of(codex_tools));
        crate::json::push_member(&mut m, "tool_choice", string_value("auto"));
    }
    assert(crate::json::members_view(m@) =~= responses_body(model@, system_prompt@, iv, tv)->Object_0);
    Json::Object(m)
}

/// What a Codex event stream gave: the output items, the streamed text,
/// the usage of the completed response, and whether it completed.
pub struct CodexStream {
    pub items: Seq<JsonV>,
    pub streamed: Seq<char>,
    pub usage: Option<JsonV>,
    pub completed: bool,
}

/// One event applied to the stream state: items and text as the compaction
/// reader gathers them; a completed response also records its usage.
pub open spec fn codex_apply(st: CodexStream, event: JsonV) -> CodexStream {
    let base = sse_apply(SseState { items: st.items, streamed: st.streamed }, event);
    let done = opt_str(spec_get(event, "type"@)) == Some("response.completed"@);
    CodexStream {
        items: base.items,
        streamed: base.streamed,
        usage: if done {
            match spec_get(event, "response"@) {
                Some(r) => match spec_get(r, "usage"@) {
                    Some(u) => Some(u),
                    None => st.usage,
                },
                None => st.usage,
            }
        } else {
            st.usage
        },
        completed: st.completed || done,
    }
}

/// The state gathered from the stream lines, in order.
pub open spec fn codex_fold(ls: Seq<Seq<char>>) -> CodexStream
    decreases ls.len(),
{
    if ls.len() == 0 {
        CodexStream { items: seq![], streamed: seq![], usage: None, completed: false }
    } else {
        let st = codex_fold(ls.drop_last());
        match sse_event(ls.last()) {
            Some(ev) => codex_apply(st, ev),
            None => st,
        }
    }
}

/// The output items of a stream: those gathered, or, without any, one
/// message of the streamed text trimmed, if not empty.
pub open spec fn stream_items(st: CodexStream) -> Seq<JsonV> {
    let t = crate::text::trim(st.streamed);
    if st.items.len() == 0 && t.len() > 0 {
        seq![text_message_item(t)]
    } else {
        st.items
    }
}

/// What one attempt at a Codex call gave.
#[derive(Debug)]
pub enum CodexAttempt {
    /// The reply's output items and usage.
    Done { items: Vec<Json>, usage: Json },
    /// A failure worth another attempt, with its reason.
    Retry(String),
    /// A failure that ends the call, with its error.
    Fail(String),
}

/// The size of a body in lines and bytes, as the stream messages give it.
pub open spec fn body_size(body: Seq<char>) -> Seq<char> {
    crate::text::decimal(crate::text::lines(body).len()) + " lines ("@ + crate::text::decimal(
        utf8_len(body) as nat,
    ) + "B)"@
}

/// The outcome of one attempt, from the reply's status and body: a success
/// status with output items is done; one without, before the response
/// completed, is a truncated stream to retry, and after it an error; 429
/// is retried; any other status fails with the first 300 bytes of the body.
pub open spec fn spec_codex_attempt(status: u16, body: Seq<char>) -> (Seq<JsonV>, JsonV, u8, Seq<char>) {
    if 200 <= status < 300 {
        let st = codex_fold(crate::text::lines(body));
        let items = stream_items(st);
        let usage = match st.usage {
            Some(u) => u,
            None => JsonV::Object(seq![]),
        };
        if items.len() > 0 {
            (items, usage, 0, seq![])
        } else if !st.completed {
            (seq![], JsonV::Object(seq![]), 1, "SSE stream truncated: "@ + body_size(body) + " but no response.completed event"@)
        } else {
            (seq![], JsonV::Object(seq![]), 2, "OpenAI: no output items found in "@ + body_size(body) + " despite response.completed"@)
        }
    } else if status == 429 {
        (seq![], JsonV::Object(seq![]), 1, "OpenAI Codex API rate limited (429)"@)
    } else {
        (
            seq![],
            JsonV::Object(seq![]),
            2,
            "OpenAI Codex API returned "@ + crate::text::decimal(status as nat) + ": "@
                + crate::compaction::shown_prefix(body, 300),
        )
    }
}

/// An attempt's outcome as plain values: items, usage, kind (0 done,
/// 1 retry, 2 fail) and message.
pub open spec fn attempt_view(a: CodexAttempt) -> (Seq<JsonV>, JsonV, u8, Seq<char>) {
    match a {
        CodexAttempt::Done { items, usage } => (items_view(items@), usage@, 0, seq![]),
        CodexAttempt::Retry(m) => (seq![], JsonV::Object(seq![]), 1, m@),
        CodexAttempt::Fail(m) => (seq![], JsonV::Object(seq![]), 2, m@),
    }
}

/// The text of a line and byte count.
fn body_size_text(body: &str, line_count: usize) -> (res: String)
    requires
        line_count == crate::text::lines(body@).len(),
    ensures
        res@ == body_size(body@),
{
    let mut out = string_from_chars(&crate::text::decimal_chars(line_count as u64));
    out.append(" lines (");
    out.append(string_from_chars(&crate::text::decimal_chars(body.len() as u64)).as_str());
    out.append("B)");
    out
}

/// Reads one attempt's reply.
pub fn codex_attempt(status: u16, body: &str) -> (res: CodexAttempt)
    requires
        !(200 <= status < 300) && status != 429 && utf8_len(body@) > 300 ==> vstd::utf8::is_char_boundary(
            vstd::utf8::encode_utf8(body@),
            300,
        ),
    ensures
        attempt_view(res) == spec_codex_attempt(status, body@),
{
    let none: Vec<(String, Json)> = Vec::new();
    proof {
        crate::json::lemma_members_view_empty(none@);
    }
    if status == 429 {
        return CodexAttempt::Retry("OpenAI Codex API rate limited (429)".to_string());
    }
    if !(200 <= status && status < 300) {
        let mut m = String::from_str("OpenAI Codex API returned ");
        m.append(string_from_chars(&crate::text::decimal_chars(status as u64)).as_str());
        m.append(": ");
        m.append(crate::compaction::byte_prefix(body, 300).as_str());
        return CodexAttempt::Fail(m);
    }
    let ls = crate::text::lines_of(&crate::text::chars_of(body));
    let ghost lv = ls@.map_values(|l: Vec<char>| l@);
    let mut items: Vec<Json> = Vec::new();
    let mut streamed = String::new();
    let mut usage: Option<Json> = None;
    let mut completed = false;
    proof {
        crate::json::lemma_items_view_empty(items@);
        assert(lv.take(0) =~= Seq::<Seq<char>>::empty());
    }
    let mut i: usize = 0;
    while i < ls.len()
        invariant
            i <= ls@.len(),
            lv == ls@.map_values(|l: Vec<char>| l@),
            lv == crate::text::lines(body@),
            codex_fold(lv.take(i as int)) == (CodexStream {
                items: items_view(items@),
                streamed: streamed@,
                usage: crate::json::opt_json_owned(usage),
                completed: completed,
            }),
        decreases ls@.len() - i,
    {
        proof {
            reveal_strlit("response.completed");
        }
        assert(lv.take(i + 1).drop_last() =~= lv.take(i as int));
        assert(lv.take(i + 1).last() == ls@[i as int]@);
        if let Some(event) = crate::compaction::read_sse_event(&ls[i]) {
            crate::compaction::apply_sse_event(&mut items, &mut streamed, &event);
            let done = match event.get_str("type") {
                Some(t) => str_eq(t, "response.completed"),
                None => false,
            };
            if done {
                completed = true;
                if let Some(r) = event.get("response") {
                    if let Some(u) = r.get("usage") {
                        usage = Some(u.duplicate());
                    }
                }
            }
        }
        i += 1;
    }
    assert(lv.take(i as int) =~= lv);
    let t = crate::text::str_trim(streamed.as_str());
    if items.len() == 0 && !t.as_str().is_empty() {
        let part = object2("type", string_value("output_text"), "text", Json::String(t));
        let item = object2("type", string_value("message"), "content", array1(part));
        crate::json::push_item(&mut items, item);
    }
    let ghost final_items = items_view(items@);
    assert(final_items =~= stream_items(codex_fold(lv)));
    if items.len() > 0 {
        let u = match usage {
            Some(u) => u,
            None => Json::Object(none),
        };
        return CodexAttempt::Done { items, usage: u };
    }
    let size = body_size_text(body, ls.len());
    if !completed {
        let mut m = String::from_str("SSE stream truncated: ");
        m.append(size.as_str());
        m.append(" but no response.completed event");
        CodexAttempt::Retry(m)
    } else {
        let mut m = String::from_str("OpenAI: no output items found in ");
        m.append(size.as_str());
        m.append(" despite response.completed");
        CodexAttempt::Fail(m)
    }
}

/// The text blocks of a message item's parts: each non-empty
/// `output_text`.
pub open spec fn output_text_blocks(parts: Seq<JsonV>) -> Seq<JsonV>
    decreases parts.len(),
{
    if parts.len() == 0 {
        seq![]
    } else {
        let prior = output_text_blocks(parts.drop_last());
        let p = parts.last();
        if block_kind(p) == "output_text"@ {
            match opt_str(spec_get(p, "text"@)) {
                Some(t) if t.len() > 0 => prior.push(crate::mock::text_block(t)),
                _ => prior,
            }
        } else {
            prior
        }
    }
}

/// The tool-use block of a `function_call` item: its call id and name
/// (empty without), its arguments read as JSON (an empty object where they
/// are not JSON, `{}` without).
pub open spec fn tool_use_block(item: JsonV) -> JsonV {
    let args = match opt_str(spec_get(item, "arguments"@)) {
        Some(a) => a,
        None => "{}"@,
    };
    JsonV::Object(
        seq![
            ("type"@, JsonV::String("tool_use"@)),
            ("id"@, JsonV::String(str_or_empty(item, "call_id"@))),
            ("name"@, JsonV::String(str_or_empty(item, "name"@))),
            ("input"@, match parsed_json(args) {
                Some(v) => v,
                None => JsonV::Object(seq![]),
            }),
        ],
    )
}

/// The blocks of one output item: a message its texts, a function call
/// its tool use; other items (reasoning) none.
pub open spec fn item_blocks(item: JsonV) -> Seq<JsonV> {
    if block_kind(item) == "message"@ {
        match crate::json::opt_array(spec_get(item, "content"@)) {
            Some(parts) => output_text_blocks(parts),
            None => seq![],
        }
    } else if block_kind(item) == "function_call"@ {
        seq![tool_use_block(item)]
    } else {
        seq![]
    }
}

/// The blocks of the output items, in order, and whether any was a call.
pub open spec fn reply_blocks(items: Seq<JsonV>) -> (Seq<JsonV>, bool)
    decreases items.len(),
{
    if items.len() == 0 {
        (seq![], false)
    } else {
        let prior = reply_blocks(items.drop_last());
        (prior.0 + item_blocks(items.last()), prior.1 || block_kind(items.last()) == "function_call"@)
    }
}

/// A usage count: the integer under `key`, 0 without one.
pub open spec fn usage_count(usage: JsonV, key: Seq<char>) -> i64 {
    match spec_get(usage, key) {
        Some(v) => match spec_as_i64(v) {
            Some(n) => n,
            None => 0,
        },
        None => 0,
    }
}

/// The reply of a Codex call: the items' blocks, ending in tool use when
/// any was a call, with the usage's input and output counts.
pub open spec fn is_codex_response(r: LlmResponse, items: Seq<JsonV>, usage: JsonV) -> bool {
    &&& r.content@ == JsonV::Array(reply_blocks(items).0)
    &&& r.stop_reason@ == (if reply_blocks(items).1 {
        "tool_use"@
    } else {
        "end_turn"@
    })
    &&& r.input_tokens == usage_count(usage, "input_tokens"@)
    &&& r.output_tokens == usage_count(usage, "output_tokens"@)
    &&& r.cache_read_input_tokens == 0
    &&& r.cache_creation_input_tokens == 0
}

/// A usage count.
pub fn read_usage_count(usage: &Json, key: &str) -> (res: i64)
    ensures
        res == usage_count(usage@, key@),
{
    match usage.get(key) {
        Some(v) => match v.as_i64() {
            Some(n) => n,
            None => 0,
        },
        None => 0,
    }
}

/// The tool-use block of a `function_call` item.
#[verifier::spinoff_prover]
fn make_tool_use_block(item: &Json) -> (res: Json)
    ensures
        res@ == tool_use_block(item@),
{
    let args = match item.get_str("arguments") {
        Some(a) => a,
        None => "{}",
    };
    let input = match crate::json_text::parse_json(args) {
        Some(v) => v,
        None => {
            let none: Vec<(String, Json)> = Vec::new();
            proof {
                crate::json::lemma_members_view_empty(none@);
            }
            Json::Object(none)
        },
    };
    let ghost inv = input@;
    let res = object4(
        "type",
        string_value("tool_use"),
        "id",
        string_value(member_or_empty(item, "call_id")),
        "name",
        string_value(member_or_empty(item, "name")),
        "input",
        input,
    );
    assert(res@->Object_0 =~= tool_use_block(item@)->Object_0);
    res
}

/// Appends the blocks of one output item.
fn push_item_blocks(blocks: &mut Vec<Json>, item: &Json)
    ensures
        items_view(final(blocks)@) == items_view(old(blocks)@) + item_blocks(item@),
{
    proof {
        reveal_strlit("message");
        reveal_strlit("function_call");
        reveal_strlit("output_text");
        assert("message"@.len() == 7);
        assert("function_call"@.len() == 13);
    }
    let ghost start = items_view(blocks@);
    let k = crate::genai::kind_of(item);
    if str_eq(k, "message") {
        if let Some(parts) = item.get_array("content") {
            let ghost pv = items_view(parts@);
            proof {
                crate::json::lemma_items_view(parts@);
                assert(pv.take(0) =~= Seq::<JsonV>::empty());
                assert(start =~= start + output_text_blocks(pv.take(0)));
            }
            let mut i: usize = 0;
            while i < parts.len()
                invariant
                    i <= parts@.len(),
                    pv == items_view(parts@),
                    pv.len() == parts@.len(),
                    forall|j: int| 0 <= j < parts@.len() ==> #[trigger] pv[j] == parts@[j]@,
                    items_view(blocks@) == start + output_text_blocks(pv.take(i as int)),
                decreases parts@.len() - i,
            {
                proof {
                    reveal_strlit("output_text");
                }
                assert(pv.take(i + 1).drop_last() =~= pv.take(i as int));
                let p = &parts[i];
                if str_eq(crate::genai::kind_of(p), "output_text") {
                    if let Some(t) = p.get_str("text") {
                        if !t.is_empty() {
                            crate::json::push_item(
                                blocks,
                                object2("type", string_value("text"), "text", string_value(t)),
                            );
                        }
                    }
                }
                assert(items_view(blocks@) =~= start + output_text_blocks(pv.take(i + 1)));
                i += 1;
            }
            assert(pv.take(i as int) =~= pv);
        } else {
            assert(items_view(blocks@) =~= start + item_blocks(item@));
        }
    } else if str_eq(k, "function_call") {
        crate::json::push_item(blocks, make_tool_use_block(item));
        assert(items_view(blocks@) =~= start + item_blocks(item@));
    } else {
        assert(items_view(blocks@) =~= start + item_blocks(item@));
    }
}

/// Turns a Codex call's output items and usage into the agent's reply.
pub fn codex_response(items: &Vec<Json>, usage: &Json) -> (res: LlmResponse)
    ensures
        is_codex_response(res, items_view(items@), usage@),
{
    let ghost iv = items_view(items@);
    proof {
        crate::json::lemma_items_view(items@);
        assert(iv.take(0) =~= Seq::<JsonV>::empty());
    }
    let mut blocks: Vec<Json> = Vec::new();
    proof {
        crate::json::lemma_items_view_empty(blocks@);
    }
    let mut calls = false;
    let mut i: usize = 0;
    while i < items.len()
        invariant
            i <= items@.len(),
            iv == items_view(items@),
            iv.len() == items@.len(),
            forall|j: int| 0 <= j < items@.len() ==> #[trigger] iv[j] == items@[j]@,
            reply_blocks(iv.take(i as int)) == (items_view(blocks@), calls),
        decreases items@.len() - i,
    {
        assert(iv.take(i + 1).drop_last() =~= iv.take(i as int));
        push_item_blocks(&mut blocks, &items[i]);
        if str_eq(crate::genai::kind_of(&items[i]), "function_call") {
            calls = true;
        }
        i += 1;
    }
    assert(iv.take(i as int) =~= iv);
    LlmResponse {
        content: array_of(blocks),
        stop_reason: if calls {
            "tool_use".to_string()
        } else {
            "end_turn".to_string()
        },
        input_tokens: read_usage_count(usage, "input_tokens"),
        output_tokens: read_usage_count(usage, "output_tokens"),
        cache_read_input_tokens: 0,
        cache_creation_input_tokens: 0,
    }
}

} // verus!
