//! The turn callback of the model caller: which action a provider reply
//! leads to, with what it carries, and the retry policy of provider calls.

use vstd::prelude::*;
use crate::json::{Json, JsonV, spec_get, opt_str, spec_as_array, items_view, lemma_items_view};
use crate::text::{str_eq, chars_of, join_lines, join_newline, decimal};
use crate::tools::strings_view;
use crate::providers::{AttemptOutcome, outcome_view};
use crate::json_text::{read_json, parsed_json, json_error_text};

verus! {

/// The blocks of a reply's content: its items when it is a list.
pub open spec fn content_blocks(content: JsonV) -> Seq<JsonV> {
    match spec_as_array(content) {
        Some(items) => items,
        None => seq![],
    }
}

/// A block of the given type.
pub open spec fn has_type(block: JsonV, kind: Seq<char>) -> bool {
    opt_str(spec_get(block, "type"@)) == Some(kind)
}

/// The tool calls of a reply: its `tool_use` blocks, in order.
pub open spec fn tool_use_blocks(blocks: Seq<JsonV>) -> Seq<JsonV>
    decreases blocks.len(),
{
    if blocks.len() == 0 {
        seq![]
    } else {
        let prior = tool_use_blocks(blocks.drop_last());
        if has_type(blocks.last(), "tool_use"@) {
            prior.push(blocks.last())
        } else {
            prior
        }
    }
}

/// The texts of a reply's `text` blocks that carry a string, in order.
pub open spec fn text_block_texts(blocks: Seq<JsonV>) -> Seq<Seq<char>>
    decreases blocks.len(),
{
    if blocks.len() == 0 {
        seq![]
    } else {
        let prior = text_block_texts(blocks.drop_last());
        if has_type(blocks.last(), "text"@) {
            match opt_str(spec_get(blocks.last(), "text"@)) {
                Some(t) => prior.push(t),
                None => prior,
            }
        } else {
            prior
        }
    }
}

/// The action a turn calls back with.
#[derive(Debug)]
pub enum LlmCallback {
    /// The reply asks for tools: these calls are to be run.
    ProcessToolCalls { tool_calls: Vec<Json> },
    /// The turn ended and follow-ups may steer it: its text is checked first.
    CheckSteering { result: String },
    /// The turn ended with this text.
    RecordResult { result: String },
    /// The reply ended in a way the caller does not handle.
    Fail { error_message: String },
    /// A session-tree turn whose tree could not be read reports nothing.
    NoResult,
}

/// A callback as plain values: its action name, then the tool calls, the
/// result text or the error.
pub open spec fn callback_view(c: LlmCallback) -> (Seq<char>, Seq<JsonV>, Seq<char>) {
    match c {
        LlmCallback::ProcessToolCalls { tool_calls } => ("ProcessToolCalls"@, items_view(tool_calls@), seq![]),
        LlmCallback::CheckSteering { result } => ("CheckSteering"@, seq![], result@),
        LlmCallback::RecordResult { result } => ("RecordResult"@, seq![], result@),
        LlmCallback::Fail { error_message } => ("Fail"@, seq![], error_message@),
        LlmCallback::NoResult => (seq![], seq![], seq![]),
    }
}

/// The callback of a turn by the reply's stop reason: `tool_use` runs the
/// tool calls; `end_turn` or `stop` ends the turn with the text of the text
/// blocks joined by newlines, through the steering check when follow-ups
/// are allowed in session-tree mode, and with nothing in session-tree mode
/// without a tree; any other reason fails the turn.
pub open spec fn spec_llm_callback(
    stop_reason: Seq<char>,
    content: JsonV,
    session_tree_mode: bool,
    tree_loaded: bool,
    max_follow_ups: i64,
) -> (Seq<char>, Seq<JsonV>, Seq<char>) {
    let blocks = content_blocks(content);
    if stop_reason == "tool_use"@ {
        ("ProcessToolCalls"@, tool_use_blocks(blocks), seq![])
    } else if stop_reason == "end_turn"@ || stop_reason == "stop"@ {
        let text = join_lines(text_block_texts(blocks));
        if !session_tree_mode {
            ("RecordResult"@, seq![], text)
        } else if !tree_loaded {
            (seq![], seq![], seq![])
        } else if max_follow_ups > 0 {
            ("CheckSteering"@, seq![], text)
        } else {
            ("RecordResult"@, seq![], text)
        }
    } else {
        ("Fail"@, seq![], "unexpected stop_reason: "@ + stop_reason)
    }
}

/// The `tool_use` blocks of a reply's content.
fn collect_tool_calls(blocks: &Vec<Json>) -> (res: Vec<Json>)
    ensures
        items_view(res@) == tool_use_blocks(items_view(blocks@)),
{
    let ghost bv = items_view(blocks@);
    proof {
        lemma_items_view(blocks@);
    }
    let mut out: Vec<Json> = Vec::new();
    proof {
        lemma_items_view(out@);
        assert(items_view(out@) =~= tool_use_blocks(bv.take(0)));
    }
    let mut i: usize = 0;
    while i < blocks.len()
        invariant
            i <= blocks@.len(),
            bv == items_view(blocks@),
            bv.len() == blocks@.len(),
            forall|k: int| 0 <= k < blocks@.len() ==> #[trigger] bv[k] == blocks@[k]@,
            items_view(out@) == tool_use_blocks(bv.take(i as int)),
        decreases blocks@.len() - i,
    {
        proof {
            assert(bv.take(i + 1).drop_last() =~= bv.take(i as int));
            assert(bv.take(i + 1).last() == bv[i as int]);
        }
        let is_tool = match blocks[i].get_str("type") {
            Some(k) => str_eq(k, "tool_use"),
            None => false,
        };
        if is_tool {
            let ghost before = out@;
            let ghost bi = blocks@[i as int]@;
            crate::json::push_item(&mut out, blocks[i].duplicate());
            proof {
                lemma_items_view(before);
                lemma_items_view(out@);
                assert(items_view(out@) =~= items_view(before).push(bi));
            }
        }
        i += 1;
    }
    assert(bv.take(i as int) =~= bv);
    out
}

/// The texts of a reply's `text` blocks.
fn collect_text_blocks(blocks: &Vec<Json>) -> (res: Vec<String>)
    ensures
        strings_view(res@) == text_block_texts(items_view(blocks@)),
{
    let ghost bv = items_view(blocks@);
    proof {
        lemma_items_view(blocks@);
    }
    let mut out: Vec<String> = Vec::new();
    assert(strings_view(out@) =~= text_block_texts(bv.take(0)));
    let mut i: usize = 0;
    while i < blocks.len()
        invariant
            i <= blocks@.len(),
            bv == items_view(blocks@),
            bv.len() == blocks@.len(),
            forall|k: int| 0 <= k < blocks@.len() ==> #[trigger] bv[k] == blocks@[k]@,
            strings_view(out@) == text_block_texts(bv.take(i as int)),
        decreases blocks@.len() - i,
    {
        proof {
            assert(bv.take(i + 1).drop_last() =~= bv.take(i as int));
            assert(bv.take(i + 1).last() == bv[i as int]);
        }
        let is_text = match blocks[i].get_str("type") {
            Some(k) => str_eq(k, "text"),
            None => false,
        };
        if is_text {
            if let Some(t) = blocks[i].get_str("text") {
                let ghost before = strings_view(out@);
                out.push(t.to_string());
                assert(strings_view(out@) =~= before.push(t@));
            }
        }
        i += 1;
    }
    assert(bv.take(i as int) =~= bv);
    out
}

/// Decides a turn's callback from the reply's stop reason and content, the
/// session mode (and whether its tree was read), and the follow-up limit.
pub fn llm_callback(
    stop_reason: &str,
    content: &Json,
    session_tree_mode: bool,
    tree_loaded: bool,
    max_follow_ups: i64,
) -> (res: LlmCallback)
    ensures
        callback_view(res) == spec_llm_callback(stop_reason@, content@, session_tree_mode, tree_loaded, max_follow_ups),
{
    let empty: Vec<Json> = Vec::new();
    proof {
        lemma_items_view(empty@);
    }
    let blocks: &Vec<Json> = match content.as_array() {
        Some(items) => items,
        None => &empty,
    };
    assert(items_view(blocks@) == content_blocks(content@));
    if str_eq(stop_reason, "tool_use") {
        LlmCallback::ProcessToolCalls { tool_calls: collect_tool_calls(blocks) }
    } else if str_eq(stop_reason, "end_turn") || str_eq(stop_reason, "stop") {
        let result = join_newline(&collect_text_blocks(blocks));
        if !session_tree_mode {
            LlmCallback::RecordResult { result }
        } else if !tree_loaded {
            LlmCallback::NoResult
        } else if max_follow_ups > 0 {
            LlmCallback::CheckSteering { result }
        } else {
            LlmCallback::RecordResult { result }
        }
    } else {
        let mut e = String::from_str("unexpected stop_reason: ");
        e.append(stop_reason);
        LlmCallback::Fail { error_message: e }
    }
}

/// The refusal of a turn without a user message.
pub open spec fn spec_user_message_refusal(fields: JsonV) -> Option<Seq<char>> {
    match opt_str(spec_get(fields, "user_message"@)) {
        Some(m) if m.len() > 0 => None,
        _ => Some("user_message is empty — nothing to send to the LLM"@),
    }
}

/// Refuses a turn whose `user_message` is missing or empty: there is
/// nothing to send to the model.
pub fn user_message_refusal(fields: &Json) -> (res: Option<String>)
    ensures
        crate::text::opt_string(res) == spec_user_message_refusal(fields@),
{
    match fields.get_str("user_message") {
        Some(m) => if chars_of(m).len() > 0 {
            return None;
        },
        None => {},
    }
    Some(String::from_str("user_message is empty — nothing to send to the LLM"))
}

/// How many attempts a provider call makes at most.
pub const MAX_ATTEMPTS: u32 = 5;

/// What a provider call does after an attempt.
#[derive(Debug, PartialEq, Eq)]
pub enum RetryStep {
    /// The reply is read.
    Read,
    /// Another attempt follows; this is the error kept from the last one.
    Again(String),
    /// The call fails with this error.
    GiveUp(String),
}

/// A step as plain values: kind (0 read, 1 again, 2 give up) and message.
pub open spec fn step_view(s: RetryStep) -> (u8, Seq<char>) {
    match s {
        RetryStep::Read => (0, seq![]),
        RetryStep::Again(m) => (1, m@),
        RetryStep::GiveUp(m) => (2, m@),
    }
}

/// After attempt `attempt` (counted from 0) of a provider call: a success is
/// read; a retryable failure is tried again while attempts remain, and once
/// the last attempt has failed the call fails with `<provider> failed after
/// 5 attempts: <last error>`; any other failure ends the call with its own
/// error.
pub open spec fn spec_retry_step(provider: Seq<char>, attempt: u32, outcome: (u8, Seq<char>)) -> (u8, Seq<char>) {
    if outcome.0 == 0 {
        (0, seq![])
    } else if outcome.0 == 1 {
        if attempt + 1 < MAX_ATTEMPTS {
            (1, outcome.1)
        } else {
            (2, provider + " failed after "@ + decimal(MAX_ATTEMPTS as nat) + " attempts: "@ + outcome.1)
        }
    } else {
        (2, outcome.1)
    }
}

/// A provider call is read on success and given up with the failure's own
/// error on a failure that is not retryable. A retryable failure is tried
/// again, unchanged, after each of the first four attempts; after the fifth
/// the call gives up, naming the provider, the five attempts and the last
/// error.
pub proof fn law_retry_step(provider: Seq<char>, attempt: u32, outcome: (u8, Seq<char>))
    requires
        attempt < 5,
        outcome.0 <= 2,
    ensures
        ({
            let (kind, message) = spec_retry_step(provider, attempt, outcome);
            &&& (kind == 0) <==> outcome.0 == 0
            &&& outcome.0 == 2 ==> kind == 2 && message == outcome.1
            &&& outcome.0 == 1 && attempt < 4 ==> kind == 1 && message == outcome.1
            &&& outcome.0 == 1 && attempt == 4 ==> kind == 2 && message == provider + " failed after 5 attempts: "@
                + outcome.1
        }),
{
    reveal_strlit(" failed after ");
    reveal_strlit(" attempts: ");
    reveal_strlit(" failed after 5 attempts: ");
    assert(decimal(5) =~= seq!['5']) by {
        reveal_with_fuel(decimal, 2);
    }
    assert(" failed after "@ + decimal(5) + " attempts: "@ =~= " failed after 5 attempts: "@);
}

/// Decides what a provider call does after an attempt.
pub fn retry_step(provider: &str, attempt: u32, outcome: AttemptOutcome) -> (res: RetryStep)
    requires
        attempt < MAX_ATTEMPTS,
    ensures
        step_view(res) == spec_retry_step(provider@, attempt, outcome_view(outcome)),
{
    match outcome {
        AttemptOutcome::Success => RetryStep::Read,
        AttemptOutcome::Retry(e) => {
            if attempt + 1 < MAX_ATTEMPTS {
                RetryStep::Again(e)
            } else {
                let mut m = provider.to_string();
                m.append(" failed after ");
                m.append(crate::text::string_from_chars(&crate::text::decimal_chars(MAX_ATTEMPTS as u64)).as_str());
                m.append(" attempts: ");
                m.append(e.as_str());
                RetryStep::GiveUp(m)
            }
        },
        AttemptOutcome::Fail(e) => RetryStep::GiveUp(e),
    }
}

/// The user message that starts a conversation.
pub open spec fn user_turn(content: Seq<char>) -> JsonV {
    JsonV::Object(seq![("role"@, JsonV::String("user"@)), ("content"@, JsonV::String(content))])
}

/// The messages of a conversation held inline: the array its text holds, or,
/// when the text is empty, not JSON or not an array, one user message with
/// the first turn's content.
pub open spec fn spec_conversation_messages(conversation_json: Seq<char>, first_turn_content: Seq<char>) -> Seq<JsonV> {
    if conversation_json.len() > 0 {
        match parsed_json(conversation_json) {
            Some(JsonV::Array(items)) => items,
            _ => seq![user_turn(first_turn_content)],
        }
    } else {
        seq![user_turn(first_turn_content)]
    }
}

/// Reads the messages of a conversation held inline in the session state.
pub fn conversation_messages(conversation_json: &str, first_turn_content: &str) -> (res: Vec<Json>)
    ensures
        items_view(res@) == spec_conversation_messages(conversation_json@, first_turn_content@),
{
    if chars_of(conversation_json).len() > 0 {
        if let Ok(Json::Array(items)) = read_json(conversation_json) {
            return items;
        }
    }
    let msg = crate::json::object2(
        "role",
        crate::json::string_value("user"),
        "content",
        crate::json::string_value(first_turn_content),
    );
    let mut out: Vec<Json> = Vec::new();
    let ghost mv = msg@;
    crate::json::push_item(&mut out, msg);
    proof {
        lemma_items_view(out@);
    }
    assert(items_view(out@) =~= seq![mv]);
    out
}

/// Reads a model's reply body as JSON, or fails with `<what>` and the
/// parser's error.
fn read_reply(body: &str, what: &str) -> (res: Result<Json, String>)
    ensures
        match res {
            Ok(v) => parsed_json(body@) == Some(v@),
            Err(e) => parsed_json(body@) is None && e@ == what@ + json_error_text(body@),
        },
{
    match read_json(body) {
        Ok(v) => Ok(v),
        Err(e) => {
            let mut m = what.to_string();
            m.append(e.as_str());
            Err(m)
        },
    }
}

/// Reads an Anthropic reply body as JSON.
pub fn read_llm_reply(body: &str) -> (res: Result<Json, String>)
    ensures
        match res {
            Ok(v) => parsed_json(body@) == Some(v@),
            Err(e) => parsed_json(body@) is None && e@ == "failed to parse LLM response: "@ + json_error_text(body@),
        },
{
    read_reply(body, "failed to parse LLM response: ")
}

/// Reads an OpenRouter reply body as JSON.
pub fn read_openrouter_reply(body: &str) -> (res: Result<Json, String>)
    ensures
        match res {
            Ok(v) => parsed_json(body@) == Some(v@),
            Err(e) => parsed_json(body@) is None && e@ == "failed to parse OpenRouter response: "@
                + json_error_text(body@),
        },
{
    read_reply(body, "failed to parse OpenRouter response: ")
}

/// An integer setting: a JSON integer, or a string holding one.
pub open spec fn int_setting(v: Option<JsonV>) -> Option<i64> {
    match v {
        Some(JsonV::String(s)) => crate::text::parse_i64(s),
        Some(x) => crate::json::spec_as_i64(x),
        None => None,
    }
}

/// Reads an integer setting.
fn read_int_setting(v: Option<&Json>) -> (res: Option<i64>)
    ensures
        res == int_setting(crate::json::opt_json(v)),
{
    match v {
        Some(Json::String(s)) => crate::text::parse_i64_chars(&chars_of(s.as_str())),
        Some(x) => x.as_i64(),
        None => None,
    }
}

/// The turn budget check made before a provider is called: when the session
/// sets a positive `max_turns` and its `turn_count` (0 when unset) has
/// reached it, the turn fails with a message naming both.
pub open spec fn spec_turn_budget_refusal(fields: JsonV) -> Option<Seq<char>> {
    let count: i64 = match int_setting(spec_get(fields, "turn_count"@)) {
        Some(n) => n,
        None => 0,
    };
    match int_setting(spec_get(fields, "max_turns"@)) {
        Some(max) if max > 0 && count >= max => Some(
            "turn budget exceeded (turn_count="@ + crate::text::signed_decimal(count as int) + ", max_turns="@
                + crate::text::signed_decimal(max as int) + ")"@,
        ),
        _ => None,
    }
}

/// Checks the session's turn budget before the provider is called; a
/// refusal is the error of a `Fail` callback.
pub fn turn_budget_refusal(fields: &Json) -> (res: Option<String>)
    ensures
        crate::text::opt_string(res) == spec_turn_budget_refusal(fields@),
{
    let count: i64 = match read_int_setting(fields.get("turn_count")) {
        Some(n) => n,
        None => 0,
    };
    match read_int_setting(fields.get("max_turns")) {
        Some(max) => {
            if max > 0 && count >= max {
                let mut m = String::from_str("turn budget exceeded (turn_count=");
                m.append(crate::text::i64_to_string(count).as_str());
                m.append(", max_turns=");
                m.append(crate::text::i64_to_string(max).as_str());
                m.append(")");
                Some(m)
            } else {
                None
            }
        },
        None => None,
    }
}

} // verus!
