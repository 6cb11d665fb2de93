//! The OpenRouter (OpenAI chat-completions) shape of a conversation: the
//! Anthropic-style history and tools rewritten as chat messages and
//! functions, and the text of a reply message.

use vstd::prelude::*;
use crate::json::{
    Json, JsonV, items_view, opt_str, spec_get, object1, object2, object3, string_value, array_of,
};
use crate::json_text::serialized_json;
use crate::text::{join_lines, str_eq, string_from_chars};
use crate::genai::block_kind;
use crate::history::{spec_stringify, stringify_content};
use crate::tools::strings_view;

verus! {

/// A message's role, `user` without one.
pub open spec fn role_or_user(m: JsonV) -> Seq<char> {
    match opt_str(spec_get(m, "role"@)) {
        Some(r) => r,
        None => "user"@,
    }
}

/// A message's content, an empty string without one.
pub open spec fn content_or_empty(m: JsonV) -> JsonV {
    match spec_get(m, "content"@) {
        Some(c) => c,
        None => JsonV::String(seq![]),
    }
}

/// The function call of the `tool_use` block at position `idx`: its id
/// (`tool_<idx+1>` without one), its name (`unknown_tool` without one) and
/// its input (an empty object without one) as JSON text.
pub open spec fn function_call(b: JsonV, idx: int) -> JsonV {
    JsonV::Object(
        seq![
            ("id"@, JsonV::String(match opt_str(spec_get(b, "id"@)) {
                Some(i) => i,
                None => "tool_"@ + crate::text::decimal((idx + 1) as nat),
            })),
            ("type"@, JsonV::String("function"@)),
            (
                "function"@,
                JsonV::Object(
                    seq![
                        ("name"@, JsonV::String(match opt_str(spec_get(b, "name"@)) {
                            Some(n) => n,
                            None => "unknown_tool"@,
                        })),
                        ("arguments"@, JsonV::String(serialized_json(match spec_get(b, "input"@) {
                            Some(v) => v,
                            None => JsonV::Object(seq![]),
                        }))),
                    ],
                ),
            ),
        ],
    )
}

/// The texts of the `text` blocks among the first `n` blocks.
pub open spec fn text_chunks(blocks: Seq<JsonV>, n: int) -> Seq<Seq<char>>
    decreases n,
{
    if n <= 0 {
        seq![]
    } else {
        let prior = text_chunks(blocks, n - 1);
        let b = blocks[n - 1];
        if block_kind(b) == "text"@ {
            match opt_str(spec_get(b, "text"@)) {
                Some(t) => prior.push(t),
                None => prior,
            }
        } else {
            prior
        }
    }
}

/// The function calls of the `tool_use` blocks among the first `n` blocks.
pub open spec fn function_calls(blocks: Seq<JsonV>, n: int) -> Seq<JsonV>
    decreases n,
{
    if n <= 0 {
        seq![]
    } else {
        let prior = function_calls(blocks, n - 1);
        if block_kind(blocks[n - 1]) == "tool_use"@ {
            prior.push(function_call(blocks[n - 1], n - 1))
        } else {
            prior
        }
    }
}

/// An assistant message with block content: its texts joined by newlines,
/// and its function calls when it has any.
pub open spec fn assistant_message(blocks: Seq<JsonV>) -> JsonV {
    let calls = function_calls(blocks, blocks.len() as int);
    JsonV::Object(
        seq![
            ("role"@, JsonV::String("assistant"@)),
            ("content"@, JsonV::String(join_lines(text_chunks(blocks, blocks.len() as int)))),
        ] + if calls.len() > 0 {
            seq![("tool_calls"@, JsonV::Array(calls))]
        } else {
            seq![]
        },
    )
}

/// The tool message of a `tool_result` block.
pub open spec fn tool_message(b: JsonV) -> JsonV {
    JsonV::Object(
        seq![
            ("role"@, JsonV::String("tool"@)),
            ("tool_call_id"@, JsonV::String(match opt_str(spec_get(b, "tool_use_id"@)) {
                Some(i) => i,
                None => "unknown_tool_call"@,
            })),
            ("content"@, JsonV::String(spec_stringify(content_or_empty(b)))),
        ],
    )
}

/// The tool messages of the `tool_result` blocks, in order.
pub open spec fn tool_messages(blocks: Seq<JsonV>) -> Seq<JsonV>
    decreases blocks.len(),
{
    if blocks.len() == 0 {
        seq![]
    } else {
        let prior = tool_messages(blocks.drop_last());
        if block_kind(blocks.last()) == "tool_result"@ {
            prior.push(tool_message(blocks.last()))
        } else {
            prior
        }
    }
}

/// A chat message `{"role": role, "content": content}`.
pub open spec fn chat(role: Seq<char>, content: JsonV) -> JsonV {
    JsonV::Object(seq![("role"@, JsonV::String(role)), ("content"@, content)])
}

/// The chat messages one message gives: string or other non-list content
/// as it is; an assistant's blocks as one message of texts and calls; a
/// user's blocks as a tool message per tool result, then one message of
/// its texts, if any; any other role's blocks as they are.
pub open spec fn converted(m: JsonV) -> Seq<JsonV> {
    let role = role_or_user(m);
    match content_or_empty(m) {
        JsonV::Array(blocks) => if role == "assistant"@ {
            seq![assistant_message(blocks)]
        } else if role == "user"@ {
            let texts = text_chunks(blocks, blocks.len() as int);
            tool_messages(blocks) + if texts.len() > 0 {
                seq![chat("user"@, JsonV::String(join_lines(texts)))]
            } else {
                seq![]
            }
        } else {
            seq![chat(role, JsonV::Array(blocks))]
        },
        c => seq![chat(role, c)],
    }
}

/// The chat messages of a history, in order.
pub open spec fn converted_history(msgs: Seq<JsonV>) -> Seq<JsonV>
    decreases msgs.len(),
{
    if msgs.len() == 0 {
        seq![]
    } else {
        converted_history(msgs.drop_last()) + converted(msgs.last())
    }
}

/// The kind of a block.
fn kind(b: &Json) -> (res: &str)
    ensures
        res@ == block_kind(b@),
{
    proof {
        reveal_strlit("");
    }
    match b.get_str("type") {
        Some(k) => k,
        None => "",
    }
}

/// The function call of the `tool_use` block at position `idx`.
#[verifier::spinoff_prover]
fn make_function_call(b: &Json, idx: usize) -> (res: Json)
    requires
        idx < usize::MAX,
    ensures
        res@ == function_call(b@, idx as int),
{
    let id = match b.get_str("id") {
        Some(i) => i.to_string(),
        None => {
            let mut t = String::from_str("tool_");
            t.append(string_from_chars(&crate::text::decimal_chars((idx + 1) as u64)).as_str());
            t
        },
    };
    let name = match b.get_str("name") {
        Some(n) => n,
        None => "unknown_tool",
    };
    let arguments = match b.get("input") {
        Some(v) => crate::json_text::to_json_text(v),
        None => {
            let none: Vec<(String, Json)> = Vec::new();
            proof {
                crate::json::lemma_members_view_empty(none@);
            }
            crate::json_text::to_json_text(&Json::Object(none))
        },
    };
    let ghost idv = id@;
    let ghost namev = name@;
    let ghost argv = arguments@;
    let function = object2("name", string_value(name), "arguments", Json::String(arguments));
    let res = object3("id", Json::String(id), "type", string_value("function"), "function", function);
    assert(res@->Object_0 =~= function_call(b@, idx as int)->Object_0) by {
        assert(function_call(b@, idx as int)->Object_0[2].1->Object_0 =~= seq![
            ("name"@, JsonV::String(namev)),
            ("arguments"@, JsonV::String(argv)),
        ]);
    }
    res
}

/// A chat message `{"role": role, "content": content}`.
fn make_chat(role: &str, content: Json) -> (res: Json)
    ensures
        res@ == chat(role@, content@),
{
    object2("role", string_value(role), "content", content)
}

/// The assistant message of a block list.
fn convert_assistant(blocks: &Vec<Json>) -> (res: Json)
    ensures
        res@ == assistant_message(items_view(blocks@)),
{
    let ghost bv = items_view(blocks@);
    proof {
        crate::json::lemma_items_view(blocks@);
        reveal_strlit("text");
        reveal_strlit("tool_use");
    }
    let mut texts: Vec<String> = Vec::new();
    let mut calls: Vec<Json> = Vec::new();
    proof {
        assert(strings_view(texts@) =~= Seq::<Seq<char>>::empty());
        crate::json::lemma_items_view_empty(calls@);
    }
    let mut i: usize = 0;
    while i < blocks.len()
        invariant
            i <= blocks@.len(),
            bv == items_view(blocks@),
            bv.len() == blocks@.len(),
            forall|j: int| 0 <= j < blocks@.len() ==> #[trigger] bv[j] == blocks@[j]@,
            strings_view(texts@) == text_chunks(bv, i as int),
            items_view(calls@) == function_calls(bv, i as int),
        decreases blocks@.len() - i,
    {
        proof {
            reveal_strlit("text");
            reveal_strlit("tool_use");
            assert("text"@.len() == 4);
            assert("tool_use"@.len() == 8);
        }
        let b = &blocks[i];
        let k = kind(b);
        if str_eq(k, "text") {
            if let Some(t) = b.get_str("text") {
                let ghost before = strings_view(texts@);
                texts.push(t.to_string());
                assert(strings_view(texts@) =~= before.push(t@));
            }
        } else if str_eq(k, "tool_use") {
            crate::json::push_item(&mut calls, make_function_call(b, i));
        }
        i += 1;
    }
    let joined = crate::text::join_newline(&texts);
    let mut m: Vec<(String, Json)> = Vec::new();
    proof {
        crate::json::lemma_members_view_empty(m@);
    }
    crate::json::push_member(&mut m, "role", string_value("assistant"));
    crate::json::push_member(&mut m, "content", Json::String(joined));
    if calls.len() > 0 {
        proof {
            crate::json::lemma_items_view(calls@);
        }
        let ghost cv = items_view(calls@);
        crate::json::push_member(&mut m, "tool_calls", array_of(calls));
        assert(crate::json::members_view(m@) =~= assistant_message(bv)->Object_0);
    } else {
        proof {
            crate::json::lemma_items_view(calls@);
        }
        assert(crate::json::members_view(m@) =~= assistant_message(bv)->Object_0);
    }
    Json::Object(m)
}

/// The tool message of a `tool_result` block.
fn make_tool_message(b: &Json) -> (res: Json)
    ensures
        res@ == tool_message(b@),
{
    let id = match b.get_str("tool_use_id") {
        Some(i) => i,
        None => "unknown_tool_call",
    };
    let content = match b.get("content") {
        Some(c) => stringify_content(c),
        None => stringify_content(&Json::String(String::new())),
    };
    let ghost idv = id@;
    let ghost cv = content@;
    let res = object3(
        "role",
        string_value("tool"),
        "tool_call_id",
        string_value(id),
        "content",
        Json::String(content),
    );
    assert(res@->Object_0 =~= tool_message(b@)->Object_0);
    res
}

/// Appends the chat messages of a user's block list.
fn convert_user(out: &mut Vec<Json>, blocks: &Vec<Json>)
    ensures
        items_view(final(out)@) == items_view(old(out)@) + ({
            let bv = items_view(blocks@);
            let texts = text_chunks(bv, bv.len() as int);
            tool_messages(bv) + if texts.len() > 0 {
                seq![chat("user"@, JsonV::String(join_lines(texts)))]
            } else {
                seq![]
            }
        }),
{
    let ghost bv = items_view(blocks@);
    let ghost start = items_view(out@);
    proof {
        crate::json::lemma_items_view(blocks@);
        assert(bv.take(0) =~= Seq::<JsonV>::empty());
        assert(start =~= start + tool_messages(bv.take(0)));
    }
    let mut texts: Vec<String> = Vec::new();
    assert(strings_view(texts@) =~= Seq::<Seq<char>>::empty());
    let mut i: usize = 0;
    while i < blocks.len()
        invariant
            i <= blocks@.len(),
            bv == items_view(blocks@),
            bv.len() == blocks@.len(),
            forall|j: int| 0 <= j < blocks@.len() ==> #[trigger] bv[j] == blocks@[j]@,
            strings_view(texts@) == text_chunks(bv, i as int),
            items_view(out@) == start + tool_messages(bv.take(i as int)),
        decreases blocks@.len() - i,
    {
        proof {
            reveal_strlit("text");
            reveal_strlit("tool_result");
            assert("text"@.len() == 4);
            assert("tool_result"@.len() == 11);
        }
        assert(bv.take(i + 1).drop_last() =~= bv.take(i as int));
        let b = &blocks[i];
        let k = kind(b);
        if str_eq(k, "tool_result") {
            crate::json::push_item(out, make_tool_message(b));
            assert(items_view(out@) =~= start + tool_messages(bv.take(i + 1)));
        } else {
            if str_eq(k, "text") {
                if let Some(t) = b.get_str("text") {
                    let ghost before = strings_view(texts@);
                    texts.push(t.to_string());
                    assert(strings_view(texts@) =~= before.push(t@));
                }
            }
            assert(items_view(out@) =~= start + tool_messages(bv.take(i + 1)));
        }
        i += 1;
    }
    assert(bv.take(i as int) =~= bv);
    if texts.len() > 0 {
        let joined = crate::text::join_newline(&texts);
        crate::json::push_item(out, make_chat("user", Json::String(joined)));
    }
    let ghost texts_v = text_chunks(bv, bv.len() as int);
    assert(items_view(out@) =~= start + (tool_messages(bv) + if texts_v.len() > 0 {
        seq![chat("user"@, JsonV::String(join_lines(texts_v)))]
    } else {
        seq![]
    }));
}

/// Rewrites a history as OpenRouter chat messages.
pub fn convert_messages_to_openrouter(messages: &Vec<Json>) -> (res: Vec<Json>)
    ensures
        items_view(res@) == converted_history(items_view(messages@)),
{
    proof {
        reveal_strlit("assistant");
        reveal_strlit("user");
    }
    let ghost mv = items_view(messages@);
    proof {
        crate::json::lemma_items_view(messages@);
        assert(mv.take(0) =~= Seq::<JsonV>::empty());
    }
    let mut out: Vec<Json> = Vec::new();
    proof {
        crate::json::lemma_items_view_empty(out@);
    }
    let mut i: usize = 0;
    while i < messages.len()
        invariant
            i <= messages@.len(),
            mv == items_view(messages@),
            mv.len() == messages@.len(),
            forall|j: int| 0 <= j < messages@.len() ==> #[trigger] mv[j] == messages@[j]@,
            items_view(out@) == converted_history(mv.take(i as int)),
        decreases messages@.len() - i,
    {
        proof {
            reveal_strlit("assistant");
            reveal_strlit("user");
            assert("user"@.len() == 4);
            assert("assistant"@.len() == 9);
        }
        assert(mv.take(i + 1).drop_last() =~= mv.take(i as int));
        let msg = &messages[i];
        let role = match msg.get_str("role") {
            Some(r) => r,
            None => "user",
        };
        let ghost before = items_view(out@);
        let empty = Json::String(String::new());
        let content = match msg.get("content") {
            Some(c) => c,
            None => &empty,
        };
        match content {
            Json::Array(blocks) => {
                if str_eq(role, "assistant") {
                    crate::json::push_item(&mut out, convert_assistant(blocks));
                } else if str_eq(role, "user") {
                    convert_user(&mut out, blocks);
                } else {
                    let copy = content.duplicate();
                    crate::json::push_item(&mut out, make_chat(role, copy));
                }
            },
            _ => {
                crate::json::push_item(&mut out, make_chat(role, content.duplicate()));
            },
        }
        assert(items_view(out@) =~= before + converted(mv[i as int]));
        i += 1;
    }
    assert(mv.take(i as int) =~= mv);
    out
}

/// The default parameters of a tool without an input schema.
pub open spec fn empty_object_schema() -> JsonV {
    JsonV::Object(
        seq![("type"@, JsonV::String("object"@)), ("properties"@, JsonV::Object(seq![]))],
    )
}

/// The OpenRouter function of a tool with a name: its name, description
/// (empty without one) and input schema as parameters.
pub open spec fn function_tool(tool: JsonV, name: Seq<char>) -> JsonV {
    JsonV::Object(
        seq![
            ("type"@, JsonV::String("function"@)),
            (
                "function"@,
                JsonV::Object(
                    seq![
                        ("name"@, JsonV::String(name)),
                        ("description"@, JsonV::String(match opt_str(spec_get(tool, "description"@)) {
                            Some(d) => d,
                            None => seq![],
                        })),
                        ("parameters"@, match spec_get(tool, "input_schema"@) {
                            Some(p) => p,
                            None => empty_object_schema(),
                        }),
                    ],
                ),
            ),
        ],
    )
}

/// The OpenRouter functions of the tools that have a name, in order.
pub open spec fn function_tools(tools: Seq<JsonV>) -> Seq<JsonV>
    decreases tools.len(),
{
    if tools.len() == 0 {
        seq![]
    } else {
        let prior = function_tools(tools.drop_last());
        match opt_str(spec_get(tools.last(), "name"@)) {
            Some(n) => prior.push(function_tool(tools.last(), n)),
            None => prior,
        }
    }
}

/// The OpenRouter function of a named tool.
#[verifier::spinoff_prover]
fn make_function_tool(tool: &Json, name: &str) -> (res: Json)
    ensures
        res@ == function_tool(tool@, name@),
{
    proof {
        reveal_strlit("");
    }
    let description = match tool.get_str("description") {
        Some(d) => d,
        None => "",
    };
    let parameters = match tool.get("input_schema") {
        Some(p) => p.duplicate(),
        None => {
            let none: Vec<(String, Json)> = Vec::new();
            proof {
                crate::json::lemma_members_view_empty(none@);
            }
            object2("type", string_value("object"), "properties", Json::Object(none))
        },
    };
    let ghost dv = description@;
    let ghost pv = parameters@;
    assert(dv == match opt_str(spec_get(tool@, "description"@)) {
        Some(d) => d,
        None => seq![],
    });
    assert(pv == match spec_get(tool@, "input_schema"@) {
        Some(p) => p,
        None => empty_object_schema(),
    }) by {
        if spec_get(tool@, "input_schema"@) is None {
            assert(pv->Object_0 =~= empty_object_schema()->Object_0);
        }
    }
    let function = object3(
        "name",
        string_value(name),
        "description",
        string_value(description),
        "parameters",
        parameters,
    );
    let ghost fv = function@;
    let res = object2("type", string_value("function"), "function", function);
    assert(fv->Object_0 =~= function_tool(tool@, name@)->Object_0[1].1->Object_0);
    assert(res@->Object_0 =~= function_tool(tool@, name@)->Object_0);
    res
}

/// Rewrites tool definitions as OpenRouter functions; a tool without a
/// name is left out.
pub fn convert_tools_to_openrouter(tools: &Vec<Json>) -> (res: Vec<Json>)
    ensures
        items_view(res@) == function_tools(items_view(tools@)),
{
    let ghost tv = items_view(tools@);
    proof {
        crate::json::lemma_items_view(tools@);
        assert(tv.take(0) =~= Seq::<JsonV>::empty());
    }
    let mut out: Vec<Json> = Vec::new();
    proof {
        crate::json::lemma_items_view_empty(out@);
    }
    let mut i: usize = 0;
    while i < tools.len()
        invariant
            i <= tools@.len(),
            tv == items_view(tools@),
            tv.len() == tools@.len(),
            forall|j: int| 0 <= j < tools@.len() ==> #[trigger] tv[j] == tools@[j]@,
            items_view(out@) == function_tools(tv.take(i as int)),
        decreases tools@.len() - i,
    {
        assert(tv.take(i + 1).drop_last() =~= tv.take(i as int));
        if let Some(name) = tools[i].get_str("name") {
            crate::json::push_item(&mut out, make_function_tool(&tools[i], name));
        }
        i += 1;
    }
    assert(tv.take(i as int) =~= tv);
    out
}

/// The text chunks of a reply's content parts: each part's `text`, else
/// its `content` string.
pub open spec fn reply_chunks(parts: Seq<JsonV>) -> Seq<Seq<char>>
    decreases parts.len(),
{
    if parts.len() == 0 {
        seq![]
    } else {
        let prior = reply_chunks(parts.drop_last());
        match opt_str(spec_get(parts.last(), "text"@)) {
            Some(t) => prior.push(t),
            None => match opt_str(spec_get(parts.last(), "content"@)) {
                Some(t) => prior.push(t),
                None => prior,
            },
        }
    }
}

/// The text of an OpenRouter reply message: its content string, or the
/// chunks of its content list joined by newlines; empty otherwise.
pub open spec fn spec_reply_text(message: JsonV) -> Seq<char> {
    match spec_get(message, "content"@) {
        Some(JsonV::String(t)) => t,
        Some(JsonV::Array(parts)) => join_lines(reply_chunks(parts)),
        _ => seq![],
    }
}

/// The text of an OpenRouter reply message.
pub fn extract_openrouter_text(message: &Json) -> (res: String)
    ensures
        res@ == spec_reply_text(message@),
{
    match message.get("content") {
        Some(Json::String(t)) => t.clone(),
        Some(Json::Array(parts)) => {
            let ghost pv = items_view(parts@);
            proof {
                crate::json::lemma_items_view(parts@);
                assert(pv.take(0) =~= Seq::<JsonV>::empty());
            }
            let mut chunks: Vec<String> = Vec::new();
            assert(strings_view(chunks@) =~= Seq::<Seq<char>>::empty());
            let mut i: usize = 0;
            while i < parts.len()
                invariant
                    i <= parts@.len(),
                    pv == items_view(parts@),
                    pv.len() == parts@.len(),
                    forall|j: int| 0 <= j < parts@.len() ==> #[trigger] pv[j] == parts@[j]@,
                    strings_view(chunks@) == reply_chunks(pv.take(i as int)),
                decreases parts@.len() - i,
            {
                assert(pv.take(i + 1).drop_last() =~= pv.take(i as int));
                let ghost before = strings_view(chunks@);
                if let Some(t) = parts[i].get_str("text") {
                    chunks.push(t.to_string());
                    assert(strings_view(chunks@) =~= before.push(t@));
                } else if let Some(t) = parts[i].get_str("content") {
                    chunks.push(t.to_string());
                    assert(strings_view(chunks@) =~= before.push(t@));
                }
                i += 1;
            }
            assert(pv.take(i as int) =~= pv);
            crate::text::join_newline(&chunks)
        },
        _ => String::new(),
    }
}

} // verus!
