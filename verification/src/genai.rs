//! OpenTelemetry GenAI span attributes of a model call: the system
//! instructions, the input messages and the output messages, each as JSON
//! text of bounded size.

use vstd::prelude::*;
use vstd::utf8::encode_scalar;
use crate::compaction::utf8_len;
use crate::json::{
    Json, JsonV, items_view, opt_str, spec_get, object2, object3, object4, string_value, array1,
    array_of,
};
use crate::json_text::{parsed_json, serialized_json};
use crate::text::{chars_of, str_eq, string_from_chars};
use crate::history::{spec_stringify, stringify_content};

verus! {

/// The byte budget of one GenAI attribute.
pub const GEN_AI_MESSAGE_ATTR_LIMIT: usize = 16384;

/// The number of UTF-8 bytes of a character.
pub open spec fn char_width(c: char) -> int {
    encode_scalar(c as u32).len() as int
}

/// The UTF-8 length of a character (`char::len_utf8`).
pub fn char_len(c: char) -> (res: usize)
    ensures
        res == char_width(c),
{
    proof {
        vstd::utf8::char_is_scalar(c);
    }
    let u = c as u32;
    if u <= 0x7F {
        1
    } else if u <= 0x7FF {
        2
    } else if u <= 0xFFFF {
        3
    } else {
        4
    }
}

/// How many leading characters of `s` fit in `max` bytes.
pub open spec fn fitting_chars(s: Seq<char>, max: int) -> nat
    decreases s.len(),
{
    if s.len() == 0 || char_width(s[0]) > max {
        0
    } else {
        1 + fitting_chars(s.drop_first(), max - char_width(s[0]))
    }
}

/// The longest prefix of `input` that ends on a character boundary and
/// fits in `max_bytes` bytes.
pub open spec fn spec_prefix_at_char_boundary(input: Seq<char>, max_bytes: usize) -> Seq<char> {
    if utf8_len(input) <= max_bytes {
        input
    } else if max_bytes == 0 {
        seq![]
    } else {
        input.take(fitting_chars(input, max_bytes as int) as int)
    }
}

/// The longest prefix of `input` that fits in `max_bytes` bytes without
/// cutting a character.
pub fn prefix_at_char_boundary(input: &str, max_bytes: usize) -> (res: String)
    ensures
        res@ == spec_prefix_at_char_boundary(input@, max_bytes),
{
    if input.len() <= max_bytes {
        return input.to_string();
    }
    if max_bytes == 0 {
        return String::new();
    }
    let chars = chars_of(input);
    let mut i: usize = 0;
    let mut end: usize = 0;
    assert(chars@.skip(0) =~= chars@);
    while i < chars.len()
        invariant
            chars@ == input@,
            i <= chars@.len(),
            end <= max_bytes,
            fitting_chars(chars@, max_bytes as int) == i + fitting_chars(
                chars@.skip(i as int),
                max_bytes - end,
            ),
        ensures
            i <= chars@.len(),
            fitting_chars(chars@, max_bytes as int) == i,
        decreases chars@.len() - i,
    {
        let w = char_len(chars[i]);
        assert(chars@.skip(i as int)[0] == chars@[i as int]);
        assert(chars@.skip(i as int).drop_first() =~= chars@.skip(i + 1));
        if w > max_bytes - end {
            break;
        }
        end = end + w;
        i += 1;
    }
    let mut out: Vec<char> = Vec::new();
    let mut k: usize = 0;
    while k < i
        invariant
            k <= i <= chars@.len(),
            out@ == chars@.take(k as int),
        decreases i - k,
    {
        out.push(chars[k]);
        k += 1;
        assert(out@ =~= chars@.take(k as int));
    }
    string_from_chars(&out)
}

/// A text fit for an attribute: as it is up to half the budget, else its
/// first quarter-budget bytes and a note of its full length.
pub open spec fn spec_truncate_for_attr(value: Seq<char>) -> Seq<char> {
    if utf8_len(value) <= GEN_AI_MESSAGE_ATTR_LIMIT / 2 {
        value
    } else {
        spec_prefix_at_char_boundary(value, (GEN_AI_MESSAGE_ATTR_LIMIT / 4) as usize)
            + "... [truncated, "@ + crate::text::decimal(utf8_len(value) as nat)
            + " bytes total]"@
    }
}

/// Cuts a text down for an attribute.
pub fn truncate_for_gen_ai_attr(value: &str) -> (res: String)
    ensures
        res@ == spec_truncate_for_attr(value@),
{
    let n = value.len();
    if n <= GEN_AI_MESSAGE_ATTR_LIMIT / 2 {
        return value.to_string();
    }
    let mut out = prefix_at_char_boundary(value, GEN_AI_MESSAGE_ATTR_LIMIT / 4);
    out.append("... [truncated, ");
    out.append(string_from_chars(&crate::text::decimal_chars(n as u64)).as_str());
    out.append(" bytes total]");
    out
}

/// A text part `{"type": "text", "content": ...}` of a text cut for an
/// attribute.
pub open spec fn text_part(t: Seq<char>) -> JsonV {
    JsonV::Object(
        seq![("type"@, JsonV::String("text"@)), ("content"@, JsonV::String(spec_truncate_for_attr(t)))],
    )
}

/// The kind of a content block: its `type` string, empty without one.
pub open spec fn block_kind(b: JsonV) -> Seq<char> {
    match opt_str(spec_get(b, "type"@)) {
        Some(k) => k,
        None => seq![],
    }
}

/// The tool-call part of a `tool_use` block: its id (empty without one),
/// its name (`unknown` without one) and its input (an empty object without
/// one).
pub open spec fn tool_call_part(b: JsonV) -> JsonV {
    JsonV::Object(
        seq![
            ("type"@, JsonV::String("tool_call"@)),
            ("id"@, JsonV::String(match opt_str(spec_get(b, "id"@)) {
                Some(i) => i,
                None => seq![],
            })),
            ("name"@, JsonV::String(match opt_str(spec_get(b, "name"@)) {
                Some(n) => n,
                None => "unknown"@,
            })),
            ("arguments"@, match spec_get(b, "input"@) {
                Some(v) => v,
                None => JsonV::Object(seq![]),
            }),
        ],
    )
}

/// The part a model-output block gives: a text block its text, a tool call
/// its call; other blocks none.
pub open spec fn output_block_part(b: JsonV) -> Option<JsonV> {
    if block_kind(b) == "text"@ {
        match opt_str(spec_get(b, "text"@)) {
            Some(t) => Some(text_part(t)),
            None => None,
        }
    } else if block_kind(b) == "tool_use"@ {
        Some(tool_call_part(b))
    } else {
        None
    }
}

/// The parts of a list of model-output blocks.
pub open spec fn output_parts(blocks: Seq<JsonV>) -> Seq<JsonV>
    decreases blocks.len(),
{
    if blocks.len() == 0 {
        seq![]
    } else {
        let prior = output_parts(blocks.drop_last());
        match output_block_part(blocks.last()) {
            Some(p) => prior.push(p),
            None => prior,
        }
    }
}

/// A lone text part, unless the text is empty.
pub open spec fn lone_text_part(t: Seq<char>) -> Seq<JsonV> {
    if spec_truncate_for_attr(t).len() > 0 {
        seq![text_part(t)]
    } else {
        seq![]
    }
}

/// The parts of an assistant message's content: a string is one text
/// part, a list gives its blocks' parts, anything else one text part of its
/// JSON text; `None` when there are none.
pub open spec fn spec_assistant_parts(content: Option<JsonV>) -> Option<Seq<JsonV>> {
    match content {
        None => None,
        Some(c) => {
            let parts = match c {
                JsonV::String(t) => lone_text_part(t),
                JsonV::Array(blocks) => output_parts(blocks),
                _ => lone_text_part(spec_stringify(c)),
            };
            if parts.len() > 0 {
                Some(parts)
            } else {
                None
            }
        },
    }
}

/// The texts of the blocks that carry a `text` string.
pub open spec fn block_texts(blocks: Seq<JsonV>) -> Seq<Seq<char>>
    decreases blocks.len(),
{
    if blocks.len() == 0 {
        seq![]
    } else {
        let prior = block_texts(blocks.drop_last());
        match opt_str(spec_get(blocks.last(), "text"@)) {
            Some(t) => prior.push(t),
            None => prior,
        }
    }
}

/// A tool result as reported: a string is read as JSON where it is JSON,
/// else kept as (cut) text; a list is its texts joined by newlines, or,
/// without texts, its (cut) JSON text; anything else as it is.
pub open spec fn normalized_result(content: JsonV) -> JsonV {
    match content {
        JsonV::String(t) => match parsed_json(t) {
            Some(v) => v,
            None => JsonV::String(spec_truncate_for_attr(t)),
        },
        JsonV::Array(blocks) => {
            let text = crate::text::join_lines(block_texts(blocks));
            if text.len() == 0 {
                JsonV::String(spec_truncate_for_attr(serialized_json(content)))
            } else {
                JsonV::String(spec_truncate_for_attr(text))
            }
        },
        _ => content,
    }
}

/// The tool message reporting the result of call `tool_use_id`: none
/// without an id string or without content.
pub open spec fn tool_response(tool_use_id: Option<JsonV>, content: Option<JsonV>) -> Option<JsonV> {
    match (opt_str(tool_use_id), content) {
        (Some(id), Some(c)) => Some(
            JsonV::Object(
                seq![
                    ("role"@, JsonV::String("tool"@)),
                    ("id"@, JsonV::String(id)),
                    (
                        "parts"@,
                        JsonV::Array(
                            seq![
                                JsonV::Object(
                                    seq![
                                        ("type"@, JsonV::String("tool_call_response"@)),
                                        ("id"@, JsonV::String(id)),
                                        ("result"@, normalized_result(c)),
                                    ],
                                ),
                            ],
                        ),
                    ),
                ],
            ),
        ),
        _ => None,
    }
}

/// A message `{"role": role, "parts": parts}`.
pub open spec fn role_parts(role: Seq<char>, parts: Seq<JsonV>) -> JsonV {
    JsonV::Object(seq![("role"@, JsonV::String(role)), ("parts"@, JsonV::Array(parts))])
}

/// The text parts of a user content list.
pub open spec fn user_text_parts(blocks: Seq<JsonV>) -> Seq<JsonV>
    decreases blocks.len(),
{
    if blocks.len() == 0 {
        seq![]
    } else {
        let prior = user_text_parts(blocks.drop_last());
        let b = blocks.last();
        if block_kind(b) == "text"@ {
            match opt_str(spec_get(b, "text"@)) {
                Some(t) => prior.push(text_part(t)),
                None => prior,
            }
        } else {
            prior
        }
    }
}

/// The tool messages of the tool results in a user content list.
pub open spec fn user_tool_messages(blocks: Seq<JsonV>) -> Seq<JsonV>
    decreases blocks.len(),
{
    if blocks.len() == 0 {
        seq![]
    } else {
        let prior = user_tool_messages(blocks.drop_last());
        let b = blocks.last();
        if block_kind(b) == "tool_result"@ {
            match tool_response(spec_get(b, "tool_use_id"@), spec_get(b, "content"@)) {
                Some(m) => prior.push(m),
                None => prior,
            }
        } else {
            prior
        }
    }
}

/// The messages a user message's content gives: a string (or any other
/// non-list value, by its JSON text) one user message of one text part,
/// unless empty; a list first a tool message per tool result, then one user
/// message of its text parts, if any.
pub open spec fn user_messages(content: Option<JsonV>) -> Seq<JsonV> {
    match content {
        None => seq![],
        Some(JsonV::String(t)) => lone_text_part(t).map_values(|p: JsonV| role_parts("user"@, seq![p])),
        Some(JsonV::Array(blocks)) => user_tool_messages(blocks) + (if user_text_parts(blocks).len()
            > 0 {
            seq![role_parts("user"@, user_text_parts(blocks))]
        } else {
            seq![]
        }),
        Some(other) => lone_text_part(spec_stringify(other)).map_values(
            |p: JsonV| role_parts("user"@, seq![p]),
        ),
    }
}

/// The GenAI messages one chat message gives, by its role (`user` without
/// one): a user message its user messages; an assistant message one message
/// of its parts, if any; a tool message (role `tool` or `tool_result`) its
/// tool response; any other role one message of its content's text, if
/// not empty.
pub open spec fn input_entries(m: JsonV) -> Seq<JsonV> {
    let role = match opt_str(spec_get(m, "role"@)) {
        Some(r) => r,
        None => "user"@,
    };
    if role == "user"@ {
        user_messages(spec_get(m, "content"@))
    } else if role == "assistant"@ {
        match spec_assistant_parts(spec_get(m, "content"@)) {
            Some(parts) => seq![role_parts("assistant"@, parts)],
            None => seq![],
        }
    } else if role == "tool"@ || role == "tool_result"@ {
        match tool_response(spec_get(m, "tool_use_id"@), spec_get(m, "content"@)) {
            Some(t) => seq![t],
            None => seq![],
        }
    } else {
        match spec_get(m, "content"@) {
            Some(c) => lone_text_part(spec_stringify(c)).map_values(|p: JsonV| role_parts(role, seq![p])),
            None => seq![],
        }
    }
}

/// The GenAI messages of a chat history, in order.
pub open spec fn input_messages(msgs: Seq<JsonV>) -> Seq<JsonV>
    decreases msgs.len(),
{
    if msgs.len() == 0 {
        seq![]
    } else {
        input_messages(msgs.drop_last()) + input_entries(msgs.last())
    }
}

/// The note that replaces a payload of `size` bytes.
pub open spec fn truncated_note(size: usize) -> Seq<char> {
    "[truncated, "@ + crate::text::decimal(size as nat) + " bytes]"@
}

/// A payload as attribute text: its JSON text when within the budget,
/// else the JSON text of the fallback made for its size.
pub open spec fn bounded_payload(payload: JsonV, fallback: JsonV) -> Seq<char> {
    if utf8_len(serialized_json(payload)) <= GEN_AI_MESSAGE_ATTR_LIMIT {
        serialized_json(payload)
    } else {
        serialized_json(fallback)
    }
}

/// A text part holding `text` as it is.
pub open spec fn raw_text_part(text: Seq<char>) -> JsonV {
    JsonV::Object(seq![("type"@, JsonV::String("text"@)), ("content"@, JsonV::String(text))])
}

/// The input-messages attribute of a chat history.
pub open spec fn spec_input_messages_attr(msgs: Seq<JsonV>) -> Seq<char> {
    let payload = JsonV::Array(input_messages(msgs));
    bounded_payload(
        payload,
        JsonV::Array(
            seq![
                role_parts(
                    "user"@,
                    seq![raw_text_part(truncated_note(utf8_len(serialized_json(payload))))],
                ),
            ],
        ),
    )
}

/// The note on a payload's size.
fn truncated_note_text(size: usize) -> (res: String)
    ensures
        res@ == truncated_note(size),
{
    let mut out = String::from_str("[truncated, ");
    out.append(string_from_chars(&crate::text::decimal_chars(size as u64)).as_str());
    out.append(" bytes]");
    out
}

/// `{"type": "text", "content": text}`.
fn make_raw_text_part(text: String) -> (res: Json)
    ensures
        res@ == raw_text_part(text@),
{
    object2("type", string_value("text"), "content", Json::String(text))
}

/// A text part of a text cut for an attribute.
fn make_text_part(t: &str) -> (res: Json)
    ensures
        res@ == text_part(t@),
{
    make_raw_text_part(truncate_for_gen_ai_attr(t))
}

/// `{"role": role, "parts": parts}`.
fn make_role_parts(role: &str, parts: Vec<Json>) -> (res: Json)
    ensures
        res@ == role_parts(role@, items_view(parts@)),
{
    object2("role", string_value(role), "parts", array_of(parts))
}

/// One part, as a list.
fn one_part(p: Json) -> (res: Vec<Json>)
    ensures
        items_view(res@) == seq![p@],
{
    let mut v: Vec<Json> = Vec::new();
    let ghost pv = p@;
    crate::json::push_item(&mut v, p);
    assert(items_view(v@) =~= seq![pv]);
    v
}

/// The kind of a block.
pub(crate) fn kind_of(b: &Json) -> (res: &str)
    ensures
        res@ == block_kind(b@),
{
    proof {
        reveal_strlit("");
    }
    match b.get_str("type") {
        Some(k) => k,
        None => "",
    }
}

/// The tool-call part of a `tool_use` block.
#[verifier::spinoff_prover]
fn make_tool_call_part(b: &Json) -> (res: Json)
    ensures
        res@ == tool_call_part(b@),
{
    proof {
        reveal_strlit("");
    }
    let id = match b.get_str("id") {
        Some(i) => i,
        None => "",
    };
    let name = match b.get_str("name") {
        Some(n) => n,
        None => "unknown",
    };
    assert(id@ == match opt_str(spec_get(b@, "id"@)) {
        Some(i) => i,
        None => seq![],
    });
    assert(name@ == match opt_str(spec_get(b@, "name"@)) {
        Some(n) => n,
        None => "unknown"@,
    });
    let args = match b.get("input") {
        Some(v) => v.duplicate(),
        None => {
            let none: Vec<(String, Json)> = Vec::new();
            proof {
                crate::json::lemma_members_view_empty(none@);
            }
            Json::Object(none)
        },
    };
    assert(args@ == match spec_get(b@, "input"@) {
        Some(v) => v,
        None => JsonV::Object(seq![]),
    });
    let ghost argsv = args@;
    let res = object4(
        "type",
        string_value("tool_call"),
        "id",
        string_value(id),
        "name",
        string_value(name),
        "arguments",
        args,
    );
    assert(res@ == JsonV::Object(
        seq![
            ("type"@, JsonV::String("tool_call"@)),
            ("id"@, JsonV::String(id@)),
            ("name"@, JsonV::String(name@)),
            ("arguments"@, argsv),
        ],
    ));
    assert(tool_call_part(b@)->Object_0 =~= seq![
        ("type"@, JsonV::String("tool_call"@)),
        ("id"@, JsonV::String(id@)),
        ("name"@, JsonV::String(name@)),
        ("arguments"@, argsv),
    ]);
    res
}

/// The parts of a list of model-output blocks.
fn collect_output_parts(blocks: &Vec<Json>) -> (res: Vec<Json>)
    ensures
        items_view(res@) == output_parts(items_view(blocks@)),
{
    let ghost bv = items_view(blocks@);
    proof {
        crate::json::lemma_items_view(blocks@);
        assert(bv.take(0) =~= Seq::<JsonV>::empty());
        reveal_strlit("text");
        reveal_strlit("tool_use");
    }
    let mut parts: Vec<Json> = Vec::new();
    let mut i: usize = 0;
    while i < blocks.len()
        invariant
            i <= blocks@.len(),
            bv == items_view(blocks@),
            bv.len() == blocks@.len(),
            forall|j: int| 0 <= j < blocks@.len() ==> #[trigger] bv[j] == blocks@[j]@,
            items_view(parts@) == output_parts(bv.take(i as int)),
        decreases blocks@.len() - i,
    {
        assert(bv.take(i + 1).drop_last() =~= bv.take(i as int));
        let b = &blocks[i];
        let k = kind_of(b);
        if str_eq(k, "text") {
            if let Some(t) = b.get_str("text") {
                crate::json::push_item(&mut parts, make_text_part(t));
            }
        } else if str_eq(k, "tool_use") {
            crate::json::push_item(&mut parts, make_tool_call_part(b));
        }
        i += 1;
    }
    assert(bv.take(i as int) =~= bv);
    parts
}

/// A lone text part, unless the text is empty.
fn make_lone_text_part(t: &str) -> (res: Vec<Json>)
    ensures
        items_view(res@) == lone_text_part(t@),
{
    let cut = truncate_for_gen_ai_attr(t);
    if cut.as_str().is_empty() {
        let v: Vec<Json> = Vec::new();
        proof {
            crate::json::lemma_items_view_empty(v@);
        }
        v
    } else {
        one_part(make_raw_text_part(cut))
    }
}

/// The parts of an assistant message's content.
pub fn build_assistant_parts(content: Option<&Json>) -> (res: Option<Vec<Json>>)
    ensures
        match res {
            Some(parts) => spec_assistant_parts(crate::json::opt_json(content)) == Some(items_view(parts@)),
            None => spec_assistant_parts(crate::json::opt_json(content)) is None,
        },
{
    let c = match content {
        Some(c) => c,
        None => {
            return None;
        },
    };
    let parts = match c {
        Json::String(t) => make_lone_text_part(t.as_str()),
        Json::Array(blocks) => collect_output_parts(blocks),
        _ => make_lone_text_part(stringify_content(c).as_str()),
    };
    if parts.len() > 0 {
        proof {
            crate::json::lemma_items_view(parts@);
        }
        Some(parts)
    } else {
        proof {
            crate::json::lemma_items_view(parts@);
        }
        None
    }
}

/// The texts of the blocks that carry a `text` string.
pub(crate) fn collect_block_texts(blocks: &Vec<Json>) -> (res: Vec<String>)
    ensures
        crate::tools::strings_view(res@) == block_texts(items_view(blocks@)),
{
    let ghost bv = items_view(blocks@);
    proof {
        crate::json::lemma_items_view(blocks@);
        assert(bv.take(0) =~= Seq::<JsonV>::empty());
    }
    let mut texts: Vec<String> = Vec::new();
    assert(crate::tools::strings_view(texts@) =~= Seq::<Seq<char>>::empty());
    let mut i: usize = 0;
    while i < blocks.len()
        invariant
            i <= blocks@.len(),
            bv == items_view(blocks@),
            bv.len() == blocks@.len(),
            forall|j: int| 0 <= j < blocks@.len() ==> #[trigger] bv[j] == blocks@[j]@,
            crate::tools::strings_view(texts@) == block_texts(bv.take(i as int)),
        decreases blocks@.len() - i,
    {
        assert(bv.take(i + 1).drop_last() =~= bv.take(i as int));
        if let Some(t) = blocks[i].get_str("text") {
            let ghost before = crate::tools::strings_view(texts@);
            texts.push(t.to_string());
            assert(crate::tools::strings_view(texts@) =~= before.push(t@));
        }
        i += 1;
    }
    assert(bv.take(i as int) =~= bv);
    texts
}

/// A tool result as reported.
pub fn normalize_tool_result_content(content: &Json) -> (res: Json)
    ensures
        res@ == normalized_result(content@),
{
    match content {
        Json::String(t) => match crate::json_text::parse_json(t.as_str()) {
            Some(v) => v,
            None => Json::String(truncate_for_gen_ai_attr(t.as_str())),
        },
        Json::Array(blocks) => {
            let texts = collect_block_texts(blocks);
            let text = crate::text::join_newline(&texts);
            if text.as_str().is_empty() {
                Json::String(truncate_for_gen_ai_attr(crate::json_text::to_json_text(content).as_str()))
            } else {
                Json::String(truncate_for_gen_ai_attr(text.as_str()))
            }
        },
        _ => content.duplicate(),
    }
}

/// The tool message reporting a call's result.
pub fn build_tool_response_message(tool_use_id: Option<&Json>, content: Option<&Json>) -> (res: Option<Json>)
    ensures
        crate::json::opt_json_owned(res) == tool_response(
            crate::json::opt_json(tool_use_id),
            crate::json::opt_json(content),
        ),
{
    let id = match tool_use_id {
        Some(v) => match v.as_str() {
            Some(s) => s,
            None => {
                return None;
            },
        },
        None => {
            return None;
        },
    };
    let c = match content {
        Some(c) => c,
        None => {
            return None;
        },
    };
    let result = normalize_tool_result_content(c);
    let part = object3(
        "type",
        string_value("tool_call_response"),
        "id",
        string_value(id),
        "result",
        result,
    );
    Some(object3("role", string_value("tool"), "id", string_value(id), "parts", array1(part)))
}



/// Appends the messages of a lone text, if not empty, as `role`.
fn push_lone_text(target: &mut Vec<Json>, role: &str, t: &str)
    ensures
        items_view(final(target)@) == items_view(old(target)@) + lone_text_part(t@).map_values(
            |p: JsonV| role_parts(role@, seq![p]),
        ),
{
    let parts = make_lone_text_part(t);
    let ghost before = items_view(target@);
    if parts.len() > 0 {
        proof {
            crate::json::lemma_items_view(parts@);
        }
        let ghost pv = items_view(parts@);
        let message = make_role_parts(role, parts);
        crate::json::push_item(target, message);
        assert(pv.map_values(|p: JsonV| role_parts(role@, seq![p])) =~= seq![role_parts(role@, pv)]);
        assert(items_view(target@) =~= before + pv.map_values(|p: JsonV| role_parts(role@, seq![p])));
    } else {
        proof {
            crate::json::lemma_items_view(parts@);
        }
        assert(items_view(parts@).map_values(|p: JsonV| role_parts(role@, seq![p])) =~= Seq::<JsonV>::empty());
        assert(items_view(target@) =~= before + items_view(parts@).map_values(|p: JsonV| role_parts(role@, seq![p])));
    }
}

/// Appends the GenAI messages of a user message's content.
pub fn append_user_gen_ai_messages(target: &mut Vec<Json>, content: Option<&Json>)
    ensures
        items_view(final(target)@) == items_view(old(target)@) + user_messages(crate::json::opt_json(content)),
{
    proof {
        reveal_strlit("text");
        reveal_strlit("tool_result");
        assert("text"@.len() == 4);
        assert("tool_result"@.len() == 11);
    }
    let c = match content {
        Some(c) => c,
        None => {
            assert(items_view(target@) =~= items_view(target@) + Seq::<JsonV>::empty());
            return;
        },
    };
    match c {
        Json::String(t) => {
            push_lone_text(target, "user", t.as_str());
        },
        Json::Array(blocks) => {
            let ghost bv = items_view(blocks@);
            let ghost start = items_view(target@);
            proof {
                crate::json::lemma_items_view(blocks@);
                assert(bv.take(0) =~= Seq::<JsonV>::empty());
                assert(start =~= start + user_tool_messages(bv.take(0)));
            }
            let mut user_parts: Vec<Json> = Vec::new();
            let mut i: usize = 0;
            while i < blocks.len()
                invariant
                    i <= blocks@.len(),
                    bv == items_view(blocks@),
                    bv.len() == blocks@.len(),
                    forall|j: int| 0 <= j < blocks@.len() ==> #[trigger] bv[j] == blocks@[j]@,
                    items_view(target@) == start + user_tool_messages(bv.take(i as int)),
                    items_view(user_parts@) == user_text_parts(bv.take(i as int)),
                decreases blocks@.len() - i,
            {
                assert(bv.take(i + 1).drop_last() =~= bv.take(i as int));
                let b = &blocks[i];
                let k = kind_of(b);
                let ghost before = items_view(target@);
                if str_eq(k, "text") {
                    if let Some(t) = b.get_str("text") {
                        crate::json::push_item(&mut user_parts, make_text_part(t));
                    }
                    proof {
                        reveal_strlit("text");
                        reveal_strlit("tool_result");
                        assert("text"@.len() == 4);
                        assert("tool_result"@.len() == 11);
                    }
                    assert(items_view(target@) =~= start + user_tool_messages(bv.take(i + 1)));
                } else if str_eq(k, "tool_result") {
                    if let Some(m) = build_tool_response_message(b.get("tool_use_id"), b.get("content")) {
                        let ghost mv = m@;
                        crate::json::push_item(target, m);
                        assert(items_view(target@) =~= start + user_tool_messages(bv.take(i + 1)));
                    } else {
                        assert(items_view(target@) =~= start + user_tool_messages(bv.take(i + 1)));
                    }
                } else {
                    assert(items_view(target@) =~= start + user_tool_messages(bv.take(i + 1)));
                }
                i += 1;
            }
            assert(bv.take(i as int) =~= bv);
            let ghost mid = items_view(target@);
            if user_parts.len() > 0 {
                proof {
                    crate::json::lemma_items_view(user_parts@);
                }
                crate::json::push_item(target, make_role_parts("user", user_parts));
                assert(items_view(target@) =~= start + user_messages(Some(c@)));
            } else {
                proof {
                    crate::json::lemma_items_view(user_parts@);
                }
                assert(items_view(target@) =~= start + user_messages(Some(c@)));
            }
        },
        _ => {
            push_lone_text(target, "user", stringify_content(c).as_str());
        },
    }
}

/// The GenAI messages of one chat message.
fn append_input_entries(target: &mut Vec<Json>, m: &Json)
    ensures
        items_view(final(target)@) == items_view(old(target)@) + input_entries(m@),
{
    proof {
        reveal_strlit("user");
        reveal_strlit("assistant");
        reveal_strlit("tool");
        reveal_strlit("tool_result");
        assert("user"@.len() == 4 && "assistant"@.len() == 9);
        assert("tool"@.len() == 4 && "tool_result"@.len() == 11);
        assert("user"@[0] != "tool"@[0]);
    }
    let ghost before = items_view(target@);
    let role = match m.get_str("role") {
        Some(r) => r,
        None => "user",
    };
    if str_eq(role, "user") {
        append_user_gen_ai_messages(target, m.get("content"));
    } else if str_eq(role, "assistant") {
        match build_assistant_parts(m.get("content")) {
            Some(parts) => {
                let message = make_role_parts("assistant", parts);
                crate::json::push_item(target, message);
                assert(items_view(target@) =~= before + input_entries(m@));
            },
            None => {
                assert(items_view(target@) =~= before + input_entries(m@));
            },
        }
    } else if str_eq(role, "tool") || str_eq(role, "tool_result") {
        match build_tool_response_message(m.get("tool_use_id"), m.get("content")) {
            Some(t) => {
                crate::json::push_item(target, t);
                assert(items_view(target@) =~= before + input_entries(m@));
            },
            None => {
                assert(items_view(target@) =~= before + input_entries(m@));
            },
        }
    } else {
        match m.get("content") {
            Some(c) => {
                push_lone_text(target, role, stringify_content(c).as_str());
            },
            None => {
                assert(items_view(target@) =~= before + input_entries(m@));
            },
        }
    }
}

/// A payload as attribute text, or the fallback made for its size when
/// it is over the budget.
fn serialize_bounded(payload: &Json, fallback: Json) -> (res: String)
    ensures
        res@ == bounded_payload(payload@, fallback@),
{
    let text = crate::json_text::to_json_text(payload);
    if text.as_str().len() <= GEN_AI_MESSAGE_ATTR_LIMIT {
        text
    } else {
        crate::json_text::to_json_text(&fallback)
    }
}

/// The input-messages attribute of a chat history.
pub fn build_gen_ai_input_messages(messages: &Vec<Json>) -> (res: String)
    ensures
        res@ == spec_input_messages_attr(items_view(messages@)),
{
    let ghost mv = items_view(messages@);
    proof {
        crate::json::lemma_items_view(messages@);
        assert(mv.take(0) =~= Seq::<JsonV>::empty());
    }
    let mut out: Vec<Json> = Vec::new();
    let mut i: usize = 0;
    while i < messages.len()
        invariant
            i <= messages@.len(),
            mv == items_view(messages@),
            mv.len() == messages@.len(),
            forall|j: int| 0 <= j < messages@.len() ==> #[trigger] mv[j] == messages@[j]@,
            items_view(out@) == input_messages(mv.take(i as int)),
        decreases messages@.len() - i,
    {
        assert(mv.take(i + 1).drop_last() =~= mv.take(i as int));
        append_input_entries(&mut out, &messages[i]);
        i += 1;
    }
    assert(mv.take(i as int) =~= mv);
    let payload = array_of(out);
    let size = crate::json_text::to_json_text(&payload).as_str().len();
    let fallback = array1(make_role_parts("user", one_part(make_raw_text_part(truncated_note_text(size)))));
    serialize_bounded(&payload, fallback)
}

/// The output-messages attribute of a model reply: one assistant message
/// with the finish reason and the parts of the reply's blocks, or an empty
/// list when there are none.
pub open spec fn spec_output_messages_attr(response_content: JsonV, finish_reason: Seq<char>) -> Seq<char> {
    let parts = match response_content {
        JsonV::Array(blocks) => output_parts(blocks),
        _ => seq![],
    };
    let payload = if parts.len() == 0 {
        JsonV::Array(seq![])
    } else {
        JsonV::Array(seq![output_message(finish_reason, parts)])
    };
    bounded_payload(
        payload,
        JsonV::Array(
            seq![
                output_message(
                    finish_reason,
                    seq![raw_text_part(truncated_note(utf8_len(serialized_json(payload))))],
                ),
            ],
        ),
    )
}

/// An assistant output message.
pub open spec fn output_message(finish_reason: Seq<char>, parts: Seq<JsonV>) -> JsonV {
    JsonV::Object(
        seq![
            ("role"@, JsonV::String("assistant"@)),
            ("finish_reason"@, JsonV::String(finish_reason)),
            ("parts"@, JsonV::Array(parts)),
        ],
    )
}

/// An assistant output message as a value.
fn make_output_message(finish_reason: &str, parts: Vec<Json>) -> (res: Json)
    ensures
        res@ == output_message(finish_reason@, items_view(parts@)),
{
    object3(
        "role",
        string_value("assistant"),
        "finish_reason",
        string_value(finish_reason),
        "parts",
        array_of(parts),
    )
}

/// The output-messages attribute of a model reply.
pub fn build_gen_ai_output_messages(response_content: &Json, finish_reason: &str) -> (res: String)
    ensures
        res@ == spec_output_messages_attr(response_content@, finish_reason@),
{
    let parts = match response_content {
        Json::Array(blocks) => collect_output_parts(blocks),
        _ => {
            let v: Vec<Json> = Vec::new();
            proof {
                crate::json::lemma_items_view_empty(v@);
            }
            v
        },
    };
    proof {
        crate::json::lemma_items_view(parts@);
    }
    let payload = if parts.len() == 0 {
        let none: Vec<Json> = Vec::new();
        proof {
            crate::json::lemma_items_view_empty(none@);
        }
        array_of(none)
    } else {
        array1(make_output_message(finish_reason, parts))
    };
    let size = crate::json_text::to_json_text(&payload).as_str().len();
    let fallback = array1(make_output_message(finish_reason, one_part(make_raw_text_part(truncated_note_text(size)))));
    serialize_bounded(&payload, fallback)
}

/// The system-instructions attribute: one text part of the (cut) system
/// prompt, or an empty list for an empty prompt.
pub open spec fn spec_system_instructions_attr(system_prompt: Seq<char>) -> Seq<char> {
    let payload = if system_prompt.len() == 0 {
        JsonV::Array(seq![])
    } else {
        JsonV::Array(seq![text_part(system_prompt)])
    };
    bounded_payload(
        payload,
        JsonV::Array(seq![raw_text_part(truncated_note(utf8_len(serialized_json(payload))))]),
    )
}

/// The system-instructions attribute.
pub fn build_gen_ai_system_instructions(system_prompt: &str) -> (res: String)
    ensures
        res@ == spec_system_instructions_attr(system_prompt@),
{
    let payload = if system_prompt.is_empty() {
        let none: Vec<Json> = Vec::new();
        proof {
            crate::json::lemma_items_view_empty(none@);
        }
        array_of(none)
    } else {
        array1(make_text_part(system_prompt))
    };
    let size = crate::json_text::to_json_text(&payload).as_str().len();
    let fallback = array1(make_raw_text_part(truncated_note_text(size)));
    serialize_bounded(&payload, fallback)
}

} // verus!
