use os_apps::assemble::{build_trajectory, TrajectoryInputs, TranscriptPresence};
use os_apps::json::{Json, JsonNumber};
use os_apps::ots::{
    InlineBudget, TokenSignalBudget, HARNESS, HARNESS_TAG_PREFIX, MAX_ARGUMENTS_CHARS,
    MAX_MESSAGE_INLINE_CHARS, MAX_RESULT_SUMMARY_CHARS, MAX_TOKEN_SIGNAL_BYTES,
    MAX_TRAJECTORY_INLINE_CHARS, SPEC_VERSION_TAG_PREFIX, TOKEN_SIGNALS_TAG,
    TOKEN_SIGNAL_CARRIER_TYPE, TOOL_SPANS_TRUNCATED_MARKER,
};
use os_apps::trajectory::{
    degradations, extract_event_bookends, parse_tool_span_document, span_to_decision,
};
use serde_json::Value;

fn to_json(v: &Value) -> Json {
    match v {
        Value::Null => Json::Null,
        Value::Bool(b) => Json::Bool(*b),
        Value::Number(n) => Json::Number(match (n.as_u64(), n.as_i64()) {
            (Some(u), _) => JsonNumber::PosInt(u),
            (None, Some(i)) => JsonNumber::NegInt(i),
            _ => JsonNumber::Float {
                text: n.to_string(),
                as_i64: n.as_f64().map_or(0, |f| f as i64),
                as_u64: n.as_f64().map_or(0, |f| f as u64),
            },
        }),
        Value::String(s) => Json::String(s.clone()),
        Value::Array(items) => Json::Array(items.iter().map(to_json).collect()),
        Value::Object(map) => Json::Object(map.iter().map(|(k, v)| (k.clone(), to_json(v))).collect()),
    }
}

fn to_value(j: &Json) -> Value {
    match j {
        Json::Null => Value::Null,
        Json::Bool(b) => Value::Bool(*b),
        Json::Number(JsonNumber::PosInt(u)) => Value::from(*u),
        Json::Number(JsonNumber::NegInt(i)) => Value::from(*i),
        Json::Number(JsonNumber::Float { text, .. }) => serde_json::from_str(text).unwrap(),
        Json::String(s) => Value::String(s.clone()),
        Json::Array(items) => Value::Array(items.iter().map(to_value).collect()),
        Json::Object(members) => {
            Value::Object(members.iter().map(|(k, v)| (k.clone(), to_value(v))).collect())
        }
    }
}

fn parse(text: &str) -> Value {
    serde_json::from_str(text).unwrap()
}

fn obj(pairs: Vec<(&str, Value)>) -> Value {
    let mut map = serde_json::Map::new();
    for (k, v) in pairs {
        map.insert(k.to_string(), v);
    }
    Value::Object(map)
}

fn lines(values: &[Value]) -> String {
    values.iter().map(|v| v.to_string()).collect::<Vec<_>>().join("\n")
}

fn build(
    fields: &Value,
    session_jsonl: &str,
    tool_spans_jsonl: &str,
    entity_state: &Value,
    status: &str,
) -> Value {
    build_with(fields, session_jsonl, tool_spans_jsonl, entity_state, status, None, false)
}

fn build_with(
    fields: &Value,
    session_jsonl: &str,
    tool_spans_jsonl: &str,
    entity_state: &Value,
    status: &str,
    transcript: Option<TranscriptPresence>,
    tool_spans_missing: bool,
) -> Value {
    let fields = to_json(fields);
    let state = to_json(entity_state);
    let inputs = TrajectoryInputs {
        trajectory_id: "trj-ss-1",
        session_id: "ss-1",
        agent_id: "aj-1",
        status,
        fields: &fields,
        session_jsonl,
        tool_spans_jsonl,
        entity_state: &state,
        spec_version: "paw-agent@0.1.0",
        transcript: transcript.unwrap_or(if session_jsonl.trim().is_empty() {
            TranscriptPresence::NoEntries
        } else {
            TranscriptPresence::Present
        }),
        tool_spans_missing,
    };
    to_value(&build_trajectory(&inputs))
}

fn degraded(t: &Value) -> Vec<String> {
    degradations(&to_json(t))
}

fn span_decision(span: &Value) -> Value {
    let mut budget = InlineBudget::new(MAX_TRAJECTORY_INLINE_CHARS);
    to_value(&span_to_decision(&to_json(span), &mut budget))
}

fn entity_state_with_events() -> Value {
    parse(
        r#"{"events":[{"action":"Created","timestamp":"2026-01-01T00:00:00Z"},{"action":"Cancel","timestamp":"2026-01-01T00:00:01Z"}]}"#,
    )
}

fn two_turn_session_jsonl() -> String {
    [
        r#"{"id":"h-ss-1","parentId":null,"type":"header","tokens":0}"#,
        r#"{"id":"u-ss-1-0","parentId":"h-ss-1","type":"message","role":"user","content":"find the bug","tokens":3,"ts_ms":1767225600000}"#,
        r#"{"id":"a-1","parentId":"u-ss-1-0","type":"message","role":"assistant","content":[{"type":"thinking","thinking":"I should grep first"},{"type":"text","text":"Looking now"},{"type":"tool_use","id":"tc-1","name":"temper.bash","input":{"cmd":"rg TODO"}}],"tokens":42,"ts_ms":1767225601000,"input_tokens":100,"output_tokens":42}"#,
        r#"{"id":"t-2","parentId":"a-1","type":"message","role":"user","content":[{"type":"tool_result","tool_use_id":"tc-1","content":"src/lib.rs:12: TODO","is_error":false}],"tokens":9,"ts_ms":1767225602000}"#,
        r#"{"id":"a-3","parentId":"t-2","type":"message","role":"assistant","content":[{"type":"text","text":"Found it on line 12"}],"tokens":11,"ts_ms":1767225603000,"input_tokens":160,"output_tokens":11}"#,
    ]
    .join("\n")
}

fn two_turn_fields() -> Value {
    parse(
        r#"{"user_message":"find the bug","model":"sonnet-4-6","provider":"anthropic","session_mode":"execute","has_result":true,"session_leaf_id":"a-3","session_file_id":"session-entries:ss-1","tool_spans_file_id":"file-spans-1","turn_count":2,"input_tokens":260,"output_tokens":53,"context_tokens":160}"#,
    )
}

#[test]
fn span_to_decision_success_shape() {
    let span = parse(
        r#"{"tool_name":"temper.read","tool_call_id":"tc-123","arguments":"{\"path\":\"/tmp/foo\"}","result":"ok","duration_ms":42,"is_error":false}"#,
    );
    let dec = span_decision(&span);
    assert_eq!(dec["decision_id"], "tc-123");
    assert_eq!(dec["decision_type"], "tool_selection");
    assert_eq!(dec["cause_id"], "tc-123");
    assert_eq!(dec["choice"]["action"], "temper.read");
    assert_eq!(dec["choice"]["arguments"]["path"], "/tmp/foo");
    assert_eq!(dec["consequence"]["success"], true);
    assert_eq!(dec["consequence"]["result_summary"], "ok");
    assert!(dec["consequence"].get("error_type").is_none());
    assert_eq!(dec["_duration_ms"], 42);
}

#[test]
fn span_to_decision_error_classifies() {
    let span = parse(
        r#"{"tool_name":"temper.bash","tool_call_id":"tc-err","arguments":"{}","result":"Cedar denied bash execution","duration_ms":5,"is_error":true}"#,
    );
    let dec = span_decision(&span);
    assert_eq!(dec["consequence"]["success"], false);
    assert_eq!(dec["consequence"]["error_type"], "cedar_denied");
}

#[test]
fn span_to_decision_keeps_non_json_arguments_as_string() {
    let span = parse(
        r#"{"tool_name":"raw","tool_call_id":"tc-raw","arguments":"not-valid-json","result":"","duration_ms":0,"is_error":false}"#,
    );
    let dec = span_decision(&span);
    assert_eq!(dec["choice"]["arguments"], "not-valid-json");
}

#[test]
fn span_to_decision_truncates_long_result() {
    let long_result = "x".repeat(1000);
    let span = obj(vec![
        ("tool_name", Value::from("temper.bash")),
        ("tool_call_id", Value::from("tc-long")),
        ("arguments", Value::from("{}")),
        ("result", Value::from(long_result)),
        ("duration_ms", Value::from(1)),
        ("is_error", Value::from(false)),
    ]);
    let dec = span_decision(&span);
    let summary = dec["consequence"]["result_summary"].as_str().unwrap();
    assert_eq!(summary.chars().count(), MAX_RESULT_SUMMARY_CHARS);
}

#[test]
fn parse_tool_spans_skips_invalid_lines() {
    let jsonl = "{\"tool_call_id\":\"a\",\"tool_name\":\"x\",\"result\":\"\",\"duration_ms\":0,\"is_error\":false}\nINVALID\n{\"tool_call_id\":\"b\",\"tool_name\":\"y\",\"result\":\"\",\"duration_ms\":0,\"is_error\":false}\n";
    let mut budget = InlineBudget::new(MAX_TRAJECTORY_INLINE_CHARS);
    let decisions: Vec<Value> = parse_tool_span_document(jsonl)
        .spans
        .iter()
        .map(|span| to_value(&span_to_decision(span, &mut budget)))
        .collect();
    assert_eq!(decisions.len(), 2);
    assert_eq!(decisions[0]["decision_id"], "a");
    assert_eq!(decisions[1]["decision_id"], "b");
}

#[test]
fn resolve_chain_reports_a_cyclic_ancestry_as_unresolved() {
    let jsonl = [
        r#"{"id":"u-0","parentId":null,"type":"message","role":"user","content":"go"}"#,
        r#"{"id":"a-0","parentId":"u-0","type":"message","role":"assistant","content":"ok"}"#,
        r#"{"id":"a","parentId":"b","type":"message","role":"assistant","content":"x"}"#,
        r#"{"id":"b","parentId":"a","type":"message","role":"user","content":"y"}"#,
    ]
    .join("\n");
    let entries = os_apps::session::parse_session_entries(&jsonl);
    let resolved = os_apps::chain::resolve_chain(&entries, "a");
    assert!(!resolved.from_recorded_leaf, "a leaf whose ancestry loops has not resolved");

    let fields = parse(r#"{"session_leaf_id":"a","has_result":true}"#);
    let state = entity_state_with_events();
    let t = build(&fields, &jsonl, "", &state, "Completed");
    assert!(
        degraded(&t).contains(&"transcript_leaf_unresolved".to_string()),
        "tags: {:?}",
        t["metadata"]["tags"]
    );
}

#[test]
fn build_trajectory_reconstructs_real_turns() {
    let fields = two_turn_fields();
    let jsonl = two_turn_session_jsonl();
    let spans = "{\"tool_call_id\":\"tc-1\",\"tool_name\":\"temper.bash\",\"arguments\":\"{}\",\"result\":\"src/lib.rs:12: TODO\",\"duration_ms\":137,\"is_error\":false}\n";
    let state = entity_state_with_events();
    let t = build(&fields, &jsonl, spans, &state, "Completed");

    let turns = t["turns"].as_array().unwrap();
    assert_eq!(turns.len(), 2, "two assistant messages means two turns");
    assert_eq!(turns[0]["turn_id"], 1);
    assert_eq!(turns[1]["turn_id"], 2);
    assert_eq!(turns[0]["span_id"], "ss-1:a-1");
    assert_eq!(turns[1]["span_id"], "ss-1:a-3");
    assert_eq!(turns[0]["timestamp"], "2026-01-01T00:00:01.000Z");
    assert_eq!(turns[1]["timestamp"], "2026-01-01T00:00:03.000Z");

    let turn1_messages = turns[0]["messages"].as_array().unwrap();
    assert_eq!(turn1_messages.len(), 2);
    assert_eq!(turn1_messages[0]["role"], "user");
    assert_eq!(turn1_messages[0]["content"]["text"], "find the bug");
    assert_eq!(turn1_messages[1]["role"], "assistant");
    assert_eq!(turn1_messages[1]["content"]["type"], "tool_call");
    assert_eq!(turn1_messages[1]["content"]["text"], "Looking now");
    assert_eq!(turn1_messages[1]["reasoning"], "I should grep first");

    let turn2_messages = turns[1]["messages"].as_array().unwrap();
    assert_eq!(turn2_messages.len(), 2);
    assert_eq!(turn2_messages[0]["role"], "tool");
    assert_eq!(turn2_messages[0]["content"]["type"], "tool_response");
    assert_eq!(turn2_messages[0]["content"]["data"]["tool_results"][0]["tool_call_id"], "tc-1");
}

#[test]
fn build_trajectory_populates_decisions_with_cause_id() {
    let fields = two_turn_fields();
    let jsonl = two_turn_session_jsonl();
    let spans = "{\"tool_call_id\":\"tc-1\",\"tool_name\":\"temper.bash\",\"arguments\":\"{}\",\"result\":\"ignored\",\"duration_ms\":137,\"is_error\":false}\n";
    let state = entity_state_with_events();
    let t = build(&fields, &jsonl, spans, &state, "Completed");

    let decisions = t["turns"][0]["decisions"].as_array().unwrap();
    assert_eq!(decisions.len(), 1);
    assert_eq!(decisions[0]["decision_id"], "tc-1");
    assert_eq!(decisions[0]["cause_id"], "tc-1");
    assert_eq!(decisions[0]["decision_type"], "tool_selection");
    assert_eq!(decisions[0]["choice"]["action"], "temper.bash");
    assert_eq!(decisions[0]["choice"]["arguments"]["cmd"], "rg TODO");
    assert_eq!(decisions[0]["consequence"]["success"], true);
    assert_eq!(
        decisions[0]["consequence"]["result_summary"], "src/lib.rs:12: TODO",
        "the tool_result observation wins over the span result"
    );
    assert_eq!(decisions[0]["_duration_ms"], 137);
    assert_eq!(t["turns"][0]["duration_ms"], 137.0);
    assert_eq!(t["turns"][0]["error"], false);
    assert!(
        t["turns"][1]["decisions"].as_array().unwrap().is_empty(),
        "the final text-only turn makes no tool decisions"
    );
}

#[test]
fn build_trajectory_marks_turn_error_on_failed_tool_call() {
    let jsonl = [
        r#"{"id":"u-1","parentId":null,"type":"message","role":"user","content":"go"}"#,
        r#"{"id":"a-1","parentId":"u-1","type":"message","role":"assistant","content":[{"type":"tool_use","id":"tc-9","name":"temper.bash","input":{}}]}"#,
        r#"{"id":"t-2","parentId":"a-1","type":"message","role":"user","content":[{"type":"tool_result","tool_use_id":"tc-9","content":"Cedar denied bash","is_error":true}]}"#,
    ]
    .join("\n");
    let fields = parse(r#"{"session_leaf_id":"t-2","has_result":false}"#);
    let state = entity_state_with_events();
    let t = build(&fields, &jsonl, "", &state, "Failed");

    assert_eq!(t["turns"][0]["error"], true);
    assert_eq!(t["turns"][0]["decisions"][0]["consequence"]["success"], false);
    assert_eq!(t["turns"][0]["decisions"][0]["consequence"]["error_type"], "cedar_denied");
}

#[test]
fn build_trajectory_references_externalized_content_instead_of_inlining() {
    let jsonl = [
        r#"{"id":"u-1","parentId":null,"type":"message","role":"user","content":"go"}"#,
        r#"{"id":"a-1","parentId":"u-1","type":"message","role":"assistant","content_file_id":"file-abc","content_file_version_id":"ver-1","tokens":9000}"#,
    ]
    .join("\n");
    let fields = parse(r#"{"session_leaf_id":"a-1","has_result":true}"#);
    let state = entity_state_with_events();
    let t = build(&fields, &jsonl, "", &state, "Completed");

    let assistant = &t["turns"][0]["messages"][1];
    assert_eq!(assistant["content"]["data"]["content_file_id"], "file-abc");
    assert_eq!(assistant["content"]["data"]["content_file_version_id"], "ver-1");
    assert_eq!(assistant["content"]["data"]["externalized"], true);
    assert!(assistant["content"].get("text").is_none(), "externalized bodies must never be inlined");
}

#[test]
fn build_trajectory_bounds_inline_text() {
    let huge = "x".repeat(MAX_MESSAGE_INLINE_CHARS * 3);
    let jsonl = lines(&[
        obj(vec![
            ("id", Value::from("u-1")),
            ("parentId", Value::Null),
            ("type", Value::from("message")),
            ("role", Value::from("user")),
            ("content", Value::from(huge)),
        ]),
        parse(r#"{"id":"a-1","parentId":"u-1","type":"message","role":"assistant","content":[{"type":"text","text":"ok"}]}"#),
    ]);
    let fields = parse(r#"{"session_leaf_id":"a-1","has_result":true}"#);
    let state = entity_state_with_events();
    let t = build(&fields, &jsonl, "", &state, "Completed");

    let user = &t["turns"][0]["messages"][0];
    let text = user["content"]["text"].as_str().unwrap();
    assert_eq!(text.chars().count(), MAX_MESSAGE_INLINE_CHARS);
    assert_eq!(user["content"]["data"]["truncated_chars"], Value::from(MAX_MESSAGE_INLINE_CHARS * 2));
}

#[test]
fn build_trajectory_bounds_total_inline_text_across_messages() {
    let chunk = "y".repeat(MAX_MESSAGE_INLINE_CHARS);
    let mut values: Vec<Value> =
        vec![parse(r#"{"id":"u-0","parentId":null,"type":"message","role":"user","content":"start"}"#)];
    let mut parent = "u-0".to_string();
    for index in 1..40 {
        let assistant = format!("a-{index}");
        values.push(obj(vec![
            ("id", Value::from(assistant.clone())),
            ("parentId", Value::from(parent.clone())),
            ("type", Value::from("message")),
            ("role", Value::from("assistant")),
            ("content", Value::Array(vec![obj(vec![("type", Value::from("text")), ("text", Value::from(chunk.clone()))])])),
        ]));
        let user = format!("u-{index}");
        values.push(obj(vec![
            ("id", Value::from(user.clone())),
            ("parentId", Value::from(assistant)),
            ("type", Value::from("message")),
            ("role", Value::from("user")),
            ("content", Value::from(chunk.clone())),
        ]));
        parent = user;
    }
    let jsonl = lines(&values);
    let fields = obj(vec![("session_leaf_id", Value::from(parent)), ("has_result", Value::from(true))]);
    let state = entity_state_with_events();
    let t = build(&fields, &jsonl, "", &state, "Completed");

    let inline_chars: usize = t["turns"]
        .as_array()
        .unwrap()
        .iter()
        .flat_map(|turn| turn["messages"].as_array().unwrap())
        .filter_map(|message| message["content"].get("text").and_then(Value::as_str))
        .map(|text| text.chars().count())
        .sum();
    assert!(inline_chars <= MAX_TRAJECTORY_INLINE_CHARS, "inline text budget exceeded: {inline_chars}");
}

#[test]
fn build_trajectory_carries_token_signals_when_recorded() {
    let jsonl = [
        r#"{"id":"u-1","parentId":null,"type":"message","role":"user","content":"go"}"#,
        r#"{"id":"a-1","parentId":"u-1","type":"message","role":"assistant","content":[{"type":"text","text":"done"}],"input_tokens":12,"output_tokens":3,"prompt_token_ids":[1,2,3],"completion_token_ids":[4,5],"response_mask":[1,1],"logprobs":[-0.25,-1.5]}"#,
    ]
    .join("\n");
    let fields = parse(r#"{"session_leaf_id":"a-1","has_result":true}"#);
    let state = entity_state_with_events();
    let t = build(&fields, &jsonl, "", &state, "Completed");

    let turn = &t["turns"][0];
    assert_eq!(turn["prompt_token_ids"], parse("[1, 2, 3]"));
    assert_eq!(turn["completion_token_ids"], parse("[4, 5]"));
    assert_eq!(turn["response_mask"], parse("[1, 1]"));
    assert_eq!(turn["logprobs"], parse("[-0.25, -1.5]"));
    assert_eq!(turn["_prompt_tokens"], 12);
    assert_eq!(turn["_completion_tokens"], 3);
}

#[test]
fn build_trajectory_omits_malformed_token_signals() {
    let jsonl = [
        r#"{"id":"u-1","parentId":null,"type":"message","role":"user","content":"go"}"#,
        r#"{"id":"a-1","parentId":"u-1","type":"message","role":"assistant","content":[{"type":"text","text":"done"}],"prompt_token_ids":["not","numbers"],"response_mask":[7000],"logprobs":"nope"}"#,
    ]
    .join("\n");
    let fields = parse(r#"{"session_leaf_id":"a-1"}"#);
    let state = entity_state_with_events();
    let t = build(&fields, &jsonl, "", &state, "Completed");

    let turn = &t["turns"][0];
    assert!(turn.get("prompt_token_ids").is_none());
    assert!(turn.get("response_mask").is_none());
    assert!(turn.get("logprobs").is_none());
}

#[test]
fn build_trajectory_sets_contract_metadata() {
    let fields = two_turn_fields();
    let jsonl = two_turn_session_jsonl();
    let state = entity_state_with_events();
    let t = build(&fields, &jsonl, "", &state, "Completed");

    assert_eq!(t["trajectory_id"], "trj-ss-1");
    assert_eq!(t["version"], "0.1.0");
    assert_eq!(t["metadata"]["trajectory_id"], "trj-ss-1");
    assert_eq!(t["metadata"]["harness"], "temperpaw");
    assert_eq!(t["metadata"]["spec_version"], "paw-agent@0.1.0");
    assert_eq!(t["metadata"]["framework"], "temperpaw");
    assert_eq!(t["metadata"]["agent_id"], "aj-1");
    assert_eq!(t["metadata"]["outcome"], "success");
    assert_eq!(t["metadata"]["domain"], "temperpaw-agent");
    assert_eq!(t["metadata"]["task_description"], "find the bug");
    assert_eq!(
        t["metadata"]["timestamp_start"], "2026-01-01T00:00:00.000Z",
        "the first entry's own timestamp beats the event hot tail"
    );
    assert_eq!(t["metadata"]["timestamp_end"], "2026-01-01T00:00:01Z");
    let tags = t["metadata"]["tags"].as_array().unwrap();
    assert!(tags.iter().any(|v| v == "sonnet-4-6"));
    assert!(tags.iter().any(|v| v == "anthropic"));
    assert!(tags.iter().any(|v| v == "execute"));
    assert_eq!(t["_session_turn_count"], 2);
    assert_eq!(t["_token_usage"]["input_tokens"], 260);
    assert_eq!(t["_token_usage"]["output_tokens"], 53);
    assert_eq!(t["_token_usage"]["context_tokens"], 160);
}

#[test]
fn build_trajectory_references_session_artifacts_as_resources() {
    let fields = two_turn_fields();
    let jsonl = two_turn_session_jsonl();
    let state = entity_state_with_events();
    let t = build(&fields, &jsonl, "", &state, "Completed");

    let resources = t["context"]["resources"].as_array().unwrap();
    let kinds: Vec<&str> = resources.iter().map(|r| r["type"].as_str().unwrap()).collect();
    assert!(kinds.contains(&"session_tree"));
    assert!(kinds.contains(&"tool_spans"));
    assert_eq!(
        resources.iter().find(|r| r["type"] == "tool_spans").unwrap()["uri"],
        "temperfs://Files('file-spans-1')"
    );
    assert_eq!(
        resources.iter().find(|r| r["type"] == "session_tree").unwrap()["uri"],
        "temper://SessionEntries?SessionId=ss-1",
        "an entity-backed transcript must not be advertised as a TemperFS file"
    );
}

#[test]
fn build_trajectory_reports_a_sealed_span_document_without_faking_a_decision() {
    let spans = [
        "{\"tool_call_id\":\"tc-a\",\"tool_name\":\"read\",\"result\":\"ok\",\"duration_ms\":1,\"is_error\":false}\n",
        "{\"tool_call_id\":\"\",\"tool_name\":\"_tool_spans_truncated\",\"result\":\"tool span file size ceiling reached\",\"duration_ms\":0,\"is_error\":false}\n",
    ].concat();
    let spans = spans.as_str();
    let fields = parse(r#"{"user_message":"x","has_result":true}"#);
    let state = entity_state_with_events();
    let t = build(&fields, "", spans, &state, "Completed");

    assert_eq!(t["_tool_spans_truncated"], true);
    let decisions = t["turns"][0]["decisions"].as_array().unwrap();
    assert_eq!(decisions.len(), 1, "the marker must not become a decision");
    assert_eq!(decisions[0]["decision_id"], "tc-a");
}

#[test]
fn build_trajectory_keeps_unclaimed_spans_as_decisions() {
    let jsonl = [
        r#"{"id":"u-1","parentId":null,"type":"message","role":"user","content":"go"}"#,
        r#"{"id":"a-1","parentId":"u-1","type":"message","role":"assistant","content_file_id":"file-xyz","tokens":900}"#,
    ]
    .join("\n");
    let spans = "{\"tool_call_id\":\"tc-orphan\",\"tool_name\":\"temper.read\",\"arguments\":\"{}\",\"result\":\"ok\",\"duration_ms\":4,\"is_error\":false}\n";
    let fields = parse(r#"{"session_leaf_id":"a-1","has_result":true}"#);
    let state = entity_state_with_events();
    let t = build(&fields, &jsonl, spans, &state, "Completed");

    let decisions = t["turns"][0]["decisions"].as_array().unwrap();
    assert_eq!(decisions.len(), 1);
    assert_eq!(decisions[0]["decision_id"], "tc-orphan");
    assert_eq!(decisions[0]["cause_id"], "tc-orphan");
}

#[test]
fn build_trajectory_without_session_tree_falls_back_to_spans() {
    let fields = parse(r#"{"user_message":"x","has_result":false}"#);
    let spans = "{\"tool_call_id\":\"tc-a\",\"tool_name\":\"read\",\"arguments\":\"{}\",\"result\":\"ok\",\"duration_ms\":2,\"is_error\":false}\n";
    let state = entity_state_with_events();
    let t = build(&fields, "", spans, &state, "Cancelled");

    assert_eq!(t["metadata"]["outcome"], "partial_success");
    let turns = t["turns"].as_array().unwrap();
    assert_eq!(turns.len(), 1);
    assert_eq!(turns[0]["decisions"].as_array().unwrap().len(), 1);
    assert_eq!(turns[0]["decisions"][0]["decision_id"], "tc-a");
}

#[test]
fn build_trajectory_empty_session_still_emits_one_turn() {
    let fields = parse(r#"{"user_message":"","has_result":false}"#);
    let state = entity_state_with_events();
    let t = build(&fields, "", "", &state, "Failed");

    assert_eq!(t["metadata"]["outcome"], "failure");
    let turns = t["turns"].as_array().unwrap();
    assert_eq!(turns.len(), 1);
    assert_eq!(turns[0]["turn_id"], 1);
    assert_eq!(turns[0]["error"], true);
    assert!(turns[0]["decisions"].as_array().unwrap().is_empty());
    assert!(
        turns[0]["timestamp"].as_str().is_some_and(|s| !s.is_empty()),
        "turn timestamp must be non-empty"
    );
}

#[test]
fn build_trajectory_includes_system_message_when_present() {
    let fields = parse(r#"{"user_message":"","system_prompt":"you are a helpful agent"}"#);
    let state = entity_state_with_events();
    let t = build(&fields, "", "", &state, "Completed");
    assert_eq!(t["system_message"]["content"], "you are a helpful agent");
    assert!(
        t["system_message"]["timestamp"].as_str().is_some_and(|s| !s.is_empty()),
        "system_message.timestamp must be non-empty"
    );
    assert!(t["system_message"].get("role").is_none(), "role must be omitted");
}

#[test]
fn build_trajectory_skips_system_message_when_empty() {
    let fields = parse(r#"{"user_message":"","system_prompt":""}"#);
    let state = entity_state_with_events();
    let t = build(&fields, "", "", &state, "Completed");
    assert!(t.get("system_message").is_none());
}

#[test]
fn build_trajectory_missing_events_emits_epoch_fallback() {
    let fields = parse(r#"{"user_message":"x"}"#);
    let t = build(&fields, "", "", &parse("{}"), "Completed");
    assert_eq!(t["metadata"]["timestamp_start"], "1970-01-01T00:00:00Z");
    assert_eq!(t["metadata"]["timestamp_end"], "1970-01-01T00:00:00Z");
}

#[test]
fn build_trajectory_uses_event_log_when_entries_lack_timestamps() {
    let jsonl = [
        r#"{"id":"u-1","parentId":null,"type":"message","role":"user","content":"go"}"#,
        r#"{"id":"a-1","parentId":"u-1","type":"message","role":"assistant","content":[{"type":"text","text":"done"}]}"#,
    ]
    .join("\n");
    let state = parse(
        r#"{"events":[{"action":"Created","timestamp":"2026-03-01T00:00:00Z"},{"action":"RecordResult","timestamp":"2026-03-01T00:00:09Z"}]}"#,
    );
    let fields = parse(r#"{"session_leaf_id":"a-1"}"#);
    let t = build(&fields, &jsonl, "", &state, "Completed");
    assert_eq!(t["turns"][0]["timestamp"], "2026-03-01T00:00:09Z");
}

#[test]
fn build_trajectory_counts_tool_arguments_against_the_global_budget() {
    let payload = "q".repeat(MAX_ARGUMENTS_CHARS);
    let mut values: Vec<Value> =
        vec![parse(r#"{"id":"u-0","parentId":null,"type":"message","role":"user","content":"go"}"#)];
    let mut parent = "u-0".to_string();
    for turn in 1..40 {
        let assistant = format!("a-{turn}");
        values.push(obj(vec![
            ("id", Value::from(assistant.clone())),
            ("parentId", Value::from(parent.clone())),
            ("type", Value::from("message")),
            ("role", Value::from("assistant")),
            (
                "content",
                Value::Array(vec![obj(vec![
                    ("type", Value::from("tool_use")),
                    ("id", Value::from(format!("tc-{turn}"))),
                    ("name", Value::from("temper.write")),
                    ("input", obj(vec![("body", Value::from(payload.clone()))])),
                ])]),
            ),
        ]));
        let tool = format!("t-{turn}");
        values.push(obj(vec![
            ("id", Value::from(tool.clone())),
            ("parentId", Value::from(assistant)),
            ("type", Value::from("message")),
            ("role", Value::from("user")),
            (
                "content",
                Value::Array(vec![obj(vec![
                    ("type", Value::from("tool_result")),
                    ("tool_use_id", Value::from(format!("tc-{turn}"))),
                    ("content", Value::from("ok")),
                ])]),
            ),
        ]));
        parent = tool;
    }
    let jsonl = lines(&values);
    let fields = obj(vec![("session_leaf_id", Value::from(parent)), ("has_result", Value::from(true))]);
    let state = entity_state_with_events();
    let t = build(&fields, &jsonl, "", &state, "Completed");

    let argument_chars: usize = t["turns"]
        .as_array()
        .unwrap()
        .iter()
        .flat_map(|turn| turn["decisions"].as_array().unwrap())
        .filter_map(|decision| decision["choice"].get("arguments"))
        .map(|arguments| serde_json::to_string(arguments).unwrap_or_default().chars().count())
        .sum();
    assert!(
        argument_chars <= MAX_TRAJECTORY_INLINE_CHARS * 2,
        "tool arguments escaped the inline budget: {argument_chars} chars"
    );
    assert_eq!(
        t["turns"][30]["decisions"][0]["choice"]["arguments"]["_truncated"],
        Value::from(true),
        "late decisions must degrade to a preview once the budget is spent"
    );
    assert!(
        t["turns"][0]["messages"][1]["content"]["data"]["tool_calls"][0].get("arguments").is_none(),
        "the message must not duplicate the decision's arguments"
    );
}

#[test]
fn build_trajectory_keeps_repeated_tool_call_ids_apart_per_turn() {
    let jsonl = [
        r#"{"id":"u-1","parentId":null,"type":"message","role":"user","content":"go"}"#,
        r#"{"id":"a-1","parentId":"u-1","type":"message","role":"assistant","content":[{"type":"tool_use","id":"tool_1","name":"temper.read","input":{"path":"/first"}}]}"#,
        r#"{"id":"t-1","parentId":"a-1","type":"message","role":"user","content":[{"type":"tool_result","tool_use_id":"tool_1","content":"first result","is_error":false}]}"#,
        r#"{"id":"a-2","parentId":"t-1","type":"message","role":"assistant","content":[{"type":"tool_use","id":"tool_1","name":"temper.bash","input":{"cmd":"second"}}]}"#,
        r#"{"id":"t-2","parentId":"a-2","type":"message","role":"user","content":[{"type":"tool_result","tool_use_id":"tool_1","content":"second failed","is_error":true}]}"#,
    ]
    .join("\n");
    let spans = [
        "{\"tool_call_id\":\"tool_1\",\"tool_name\":\"temper.read\",\"result\":\"first result\",\"duration_ms\":11,\"is_error\":false}\n",
        "{\"tool_call_id\":\"tool_1\",\"tool_name\":\"temper.bash\",\"result\":\"second failed\",\"duration_ms\":22,\"is_error\":true}\n",
    ].concat();
    let spans = spans.as_str();
    let fields = parse(r#"{"session_leaf_id":"t-2","has_result":true}"#);
    let state = entity_state_with_events();
    let t = build(&fields, &jsonl, spans, &state, "Completed");

    let first = &t["turns"][0]["decisions"][0];
    let second = &t["turns"][1]["decisions"][0];
    assert_eq!(first["choice"]["action"], "temper.read");
    assert_eq!(first["consequence"]["result_summary"], "first result");
    assert_eq!(first["consequence"]["success"], true);
    assert_eq!(first["_duration_ms"], 11);
    assert_eq!(second["choice"]["action"], "temper.bash");
    assert_eq!(second["consequence"]["result_summary"], "second failed");
    assert_eq!(second["consequence"]["success"], false);
    assert_eq!(second["_duration_ms"], 22);
    assert_eq!(t["turns"][0]["error"], false);
    assert_eq!(t["turns"][1]["error"], true);
    assert_eq!(
        t["turns"][0]["duration_ms"], 11.0,
        "a repeated id must not double-count one span onto two turns"
    );
}

#[test]
fn build_trajectory_keeps_repeated_ids_among_unclaimed_spans() {
    let spans = [
        "{\"tool_call_id\":\"tool_1\",\"tool_name\":\"read\",\"result\":\"a\",\"duration_ms\":1,\"is_error\":false}\n",
        "{\"tool_call_id\":\"tool_1\",\"tool_name\":\"bash\",\"result\":\"b\",\"duration_ms\":2,\"is_error\":false}\n",
    ].concat();
    let spans = spans.as_str();
    let fields = parse(r#"{"user_message":"x","has_result":true}"#);
    let state = entity_state_with_events();
    let t = build(&fields, "", spans, &state, "Completed");

    let decisions = t["turns"][0]["decisions"].as_array().unwrap();
    assert_eq!(decisions.len(), 2);
    assert_eq!(decisions[0]["choice"]["action"], "read");
    assert_eq!(decisions[1]["choice"]["action"], "bash");
}

#[test]
fn build_trajectory_does_not_read_a_quoted_truncation_marker_as_truncation() {
    let span = obj(vec![
        ("tool_call_id", Value::from("tc-a")),
        ("tool_name", Value::from("temper.read")),
        ("result", Value::from(format!("pub const MARKER: &str = \"{TOOL_SPANS_TRUNCATED_MARKER}\";"))),
        ("duration_ms", Value::from(1)),
        ("is_error", Value::from(false)),
    ]);
    let spans = format!("{span}\n");
    let fields = parse(r#"{"user_message":"x","has_result":true}"#);
    let state = entity_state_with_events();
    let t = build(&fields, "", &spans, &state, "Completed");

    assert!(
        t.get("_tool_spans_truncated").is_none(),
        "truncation is a reserved tool_name, not a substring of any result"
    );
    assert_eq!(t["turns"][0]["decisions"].as_array().unwrap().len(), 1);
    assert!(!parse_tool_span_document(&spans).truncated);
}

#[test]
fn build_trajectory_drops_misaligned_completion_token_signals() {
    let jsonl = [
        r#"{"id":"u-1","parentId":null,"type":"message","role":"user","content":"go"}"#,
        r#"{"id":"a-1","parentId":"u-1","type":"message","role":"assistant","content":[{"type":"text","text":"done"}],"prompt_token_ids":[1,2,3],"completion_token_ids":[4,5,6],"response_mask":[1,1,1],"logprobs":[-0.1,-0.2]}"#,
    ]
    .join("\n");
    let fields = parse(r#"{"session_leaf_id":"a-1"}"#);
    let state = entity_state_with_events();
    let t = build(&fields, &jsonl, "", &state, "Completed");

    let turn = &t["turns"][0];
    assert_eq!(
        turn["prompt_token_ids"],
        parse("[1, 2, 3]"),
        "the prompt side does not index into the completion and still travels"
    );
    for field in ["completion_token_ids", "response_mask", "logprobs"] {
        assert!(turn.get(field).is_none(), "{field} must not ship in a misaligned set");
    }
    assert_eq!(turn["_token_signals_misaligned"]["logprobs"], Value::from(2));
    assert_eq!(turn["_token_signals_misaligned"]["response_mask"], Value::from(3));
}

#[test]
fn build_trajectory_keeps_a_lone_completion_token_signal() {
    let jsonl = [
        r#"{"id":"u-1","parentId":null,"type":"message","role":"user","content":"go"}"#,
        r#"{"id":"a-1","parentId":"u-1","type":"message","role":"assistant","content":[{"type":"text","text":"done"}],"logprobs":[-0.1,-0.2]}"#,
    ]
    .join("\n");
    let fields = parse(r#"{"session_leaf_id":"a-1"}"#);
    let state = entity_state_with_events();
    let t = build(&fields, &jsonl, "", &state, "Completed");

    assert_eq!(t["turns"][0]["logprobs"], parse("[-0.1, -0.2]"));
    assert!(t["turns"][0].get("_token_signals_misaligned").is_none());
}

#[test]
fn build_trajectory_marks_an_absent_transcript_as_degraded() {
    let fields = parse(r#"{"has_result":true,"tool_spans_file_id":"file-spans-1"}"#);
    let spans = "{\"tool_call_id\":\"tc-1\",\"tool_name\":\"temper.bash\",\"result\":\"ok\",\"duration_ms\":3,\"is_error\":false}\n";
    let state = entity_state_with_events();

    for (presence, expected) in [
        (TranscriptPresence::MissingFile, "transcript_missing_file"),
        (TranscriptPresence::EmptyFile, "transcript_empty_file"),
        (TranscriptPresence::PendingFirstTurn, "transcript_pending_first_turn"),
        (TranscriptPresence::NoEntries, "transcript_no_entries"),
        (TranscriptPresence::Undeclared, "transcript_undeclared"),
    ] {
        let t = build_with(&fields, "", spans, &state, "Completed", Some(presence), false);

        assert_eq!(
            degraded(&t),
            vec![expected.to_string()],
            "a {} transcript must be reported as degraded",
            presence.as_str()
        );
        assert_eq!(t["_transcript"]["present"], false);
        assert_eq!(t["_transcript"]["reasons"], Value::Array(vec![Value::from(presence.as_str())]));
    }
}

#[test]
fn build_trajectory_marks_an_unresolved_leaf_as_degraded() {
    let mut fields = two_turn_fields();
    fields["session_leaf_id"] = Value::from("a-5-never-written");
    let jsonl = two_turn_session_jsonl();
    let state = entity_state_with_events();
    let t = build(&fields, &jsonl, "", &state, "Completed");

    assert_eq!(degraded(&t), vec!["transcript_leaf_unresolved".to_string()]);
    assert_eq!(t["_transcript"]["present"], true);
    assert_eq!(t["turns"].as_array().unwrap().len(), 2, "the recoverable turns are still emitted");
}

#[test]
fn build_trajectory_marks_a_transcript_without_turns_as_degraded() {
    let jsonl = r#"{"id":"h-ss-1","parentId":null,"type":"header","tokens":0}"#.to_string();
    let fields = parse(r#"{"session_leaf_id":"h-ss-1","has_result":true}"#);
    let state = entity_state_with_events();
    let t = build(&fields, &jsonl, "", &state, "Completed");

    assert!(
        degraded(&t).contains(&"transcript_no_turns".to_string()),
        "tags: {:?}",
        t["metadata"]["tags"]
    );
    assert_eq!(t["turns"].as_array().unwrap().len(), 1);
}

#[test]
fn build_trajectory_marks_unparseable_tool_spans_as_degraded() {
    let fields = two_turn_fields();
    let jsonl = two_turn_session_jsonl();
    let spans = [
        "{\"tool_call_id\":\"tc-1\",\"tool_name\":\"temper.bash\",\"result\":\"ok\",\"duration_ms\":3,\"is_error\":false}\n",
        "{\"tool_call_id\":\"tc-2\",\"tool_name\":\"temper.re\n"
    ].concat();
    let spans = spans.as_str();
    let state = entity_state_with_events();
    let t = build(&fields, &jsonl, spans, &state, "Completed");

    assert_eq!(degraded(&t), vec!["tool_spans_unparseable".to_string()]);
    assert_eq!(t["_tool_spans_unparsed_lines"], 1);
}

#[test]
fn build_trajectory_marks_an_unparseable_transcript_as_degraded() {
    let mut session_lines: Vec<String> = two_turn_session_jsonl().lines().map(str::to_string).collect();
    session_lines.push("{\"id\":\"a-4\",\"parentId\":\"a-3\",\"type\"".to_string());
    let jsonl = session_lines.join("\n");
    let fields = two_turn_fields();
    let state = entity_state_with_events();
    let t = build(&fields, &jsonl, "", &state, "Completed");

    assert_eq!(degraded(&t), vec!["transcript_unparseable".to_string()]);
    assert_eq!(t["_transcript"]["present"], true);
    assert_eq!(t["_transcript"]["unparsed_lines"], 1);
    assert_eq!(
        t["turns"].as_array().unwrap().len(),
        2,
        "the readable turns are still kept — one bad line must not cost the trajectory"
    );
}

#[test]
fn build_trajectory_reports_no_degradation_for_a_complete_run() {
    let fields = two_turn_fields();
    let jsonl = two_turn_session_jsonl();
    let spans = "{\"tool_call_id\":\"tc-1\",\"tool_name\":\"temper.bash\",\"result\":\"ok\",\"duration_ms\":3,\"is_error\":false}\n";
    let state = entity_state_with_events();
    let t = build(&fields, &jsonl, spans, &state, "Completed");

    assert!(degraded(&t).is_empty(), "tags: {:?}", t["metadata"]["tags"]);
    assert!(t.get("_transcript").is_none());
    assert!(t.get("_tool_spans_missing").is_none());
}

#[test]
fn build_trajectory_marks_missing_and_truncated_tool_spans() {
    let fields = two_turn_fields();
    let jsonl = two_turn_session_jsonl();
    let state = entity_state_with_events();

    let t = build_with(&fields, &jsonl, "", &state, "Completed", None, true);
    assert_eq!(degraded(&t), vec!["tool_spans_missing_file".to_string()]);
    assert_eq!(t["_tool_spans_missing"], true);

    let marker = obj(vec![
        ("tool_name", Value::from(TOOL_SPANS_TRUNCATED_MARKER)),
        ("tool_call_id", Value::from("")),
        ("result", Value::from("")),
        ("duration_ms", Value::from(0)),
        ("is_error", Value::from(false)),
    ]);
    let sealed = format!("{}\n", marker);
    let t = build(&fields, &jsonl, &sealed, &state, "Completed");
    assert_eq!(t["_tool_spans_truncated"], true);
    assert_eq!(degraded(&t), vec!["tool_spans_truncated".to_string()]);
}

#[test]
fn cause_id_mirrors_the_kernel_modeled_decision_id() {
    let fields = two_turn_fields();
    let jsonl = two_turn_session_jsonl();
    let spans = "{\"tool_call_id\":\"tc-1\",\"tool_name\":\"temper.bash\",\"result\":\"ok\",\"duration_ms\":3,\"is_error\":false}\n";
    let state = entity_state_with_events();
    let t = build(&fields, &jsonl, spans, &state, "Completed");

    let mut checked = 0;
    for turn in t["turns"].as_array().unwrap() {
        for decision in turn["decisions"].as_array().unwrap() {
            assert_eq!(decision["cause_id"], decision["decision_id"], "the join key must stay a kernel-modeled field");
            checked += 1;
        }
    }
    assert!(checked > 0, "the fixture must contain decisions");
}

fn signal_line(id: &str, parent: &str, fields: Vec<(&str, Value)>) -> Value {
    let mut pairs = vec![
        ("id", Value::from(id)),
        ("parentId", Value::from(parent)),
        ("type", Value::from("message")),
        ("role", Value::from("assistant")),
        ("content", parse(r#"[{"type":"text","text":"ok"}]"#)),
    ];
    pairs.extend(fields);
    obj(pairs)
}

#[test]
fn build_trajectory_bounds_token_signals_across_the_document() {
    let per_turn = MAX_TOKEN_SIGNAL_BYTES / 8;
    let mut values: Vec<Value> =
        vec![parse(r#"{"id":"u-0","parentId":null,"type":"message","role":"user","content":"go"}"#)];
    let mut parent = "u-0".to_string();
    for turn in 1..=2 {
        let assistant = format!("a-{turn}");
        values.push(signal_line(
            &assistant,
            &parent,
            vec![
                ("completion_token_ids", Value::Array(vec![Value::from(1234_u64); per_turn])),
                ("response_mask", Value::Array(vec![Value::from(1_u64); per_turn])),
            ],
        ));
        parent = assistant;
    }
    let jsonl = lines(&values);
    let fields = obj(vec![("session_leaf_id", Value::from(parent)), ("has_result", Value::from(true))]);
    let state = entity_state_with_events();
    let t = build(&fields, &jsonl, "", &state, "Completed");

    let signal_bytes: usize = t["turns"]
        .as_array()
        .unwrap()
        .iter()
        .flat_map(|turn| {
            ["prompt_token_ids", "completion_token_ids", "response_mask", "logprobs"]
                .into_iter()
                .filter_map(|field| turn.get(field))
                .map(|value| value.to_string().len())
        })
        .sum();
    assert!(
        signal_bytes <= MAX_TOKEN_SIGNAL_BYTES,
        "token signals must stay under the trajectory ceiling, got {signal_bytes}"
    );

    let dropped = &t["turns"][1]["_token_signals_dropped"];
    assert_eq!(
        dropped["completion_token_ids"], per_turn as u64,
        "a dropped signal must name itself and its length: {dropped}"
    );
    assert_eq!(
        t["context"]["entities"][1]["metadata"]["_token_signals_dropped"]["response_mask"],
        per_turn as u64,
        "the drop must also reach the kernel-modeled inventory"
    );
}

#[test]
fn signal_tags_close_the_tag_list_when_turns_carry_and_drop() {
    let per_turn = MAX_TOKEN_SIGNAL_BYTES / 8;
    let mut values: Vec<Value> =
        vec![parse(r#"{"id":"u-0","parentId":null,"type":"message","role":"user","content":"go"}"#)];
    let mut parent = "u-0".to_string();
    for turn in 1..=2 {
        let assistant = format!("a-{turn}");
        values.push(signal_line(
            &assistant,
            &parent,
            vec![
                ("completion_token_ids", Value::Array(vec![Value::from(1234_u64); per_turn])),
                ("response_mask", Value::Array(vec![Value::from(1_u64); per_turn])),
            ],
        ));
        parent = assistant;
    }
    let jsonl = lines(&values);
    let fields = obj(vec![("session_leaf_id", Value::from(parent)), ("has_result", Value::from(true))]);
    let state = entity_state_with_events();
    let t = build(&fields, &jsonl, "", &state, "Completed");

    assert!(t["turns"][0].get("completion_token_ids").is_some());
    assert!(t["turns"][1].get("_token_signals_dropped").is_some());
    let tags: Vec<&str> = t["metadata"]["tags"].as_array().unwrap().iter().filter_map(Value::as_str).collect();
    let n = tags.len();
    assert!(n >= 2);
    assert_eq!(tags[n - 2], TOKEN_SIGNALS_TAG);
    assert_eq!(tags[n - 1], "degraded:token_signals_dropped");
}

#[test]
fn build_trajectory_does_not_advertise_signals_it_dropped() {
    let oversized = MAX_TOKEN_SIGNAL_BYTES;
    let jsonl = lines(&[
        parse(r#"{"id":"u-1","parentId":null,"type":"message","role":"user","content":"go"}"#),
        signal_line(
            "a-1",
            "u-1",
            vec![
                ("completion_token_ids", Value::Array(vec![Value::from(123456_u64); oversized])),
                ("response_mask", Value::Array(vec![Value::from(1_u64); oversized])),
            ],
        ),
    ]);
    let fields = parse(r#"{"session_leaf_id":"a-1","has_result":true}"#);
    let state = entity_state_with_events();
    let t = build(&fields, &jsonl, "", &state, "Completed");

    assert!(t["turns"][0].get("completion_token_ids").is_none(), "the signal must not have been written");
    let tags: Vec<&str> = t["metadata"]["tags"].as_array().unwrap().iter().filter_map(Value::as_str).collect();
    assert!(!tags.contains(&TOKEN_SIGNALS_TAG), "a row that carries no signal must not advertise one: {tags:?}");
    assert!(
        t["context"]["entities"][0]["metadata"]["_token_signals_dropped"].is_object(),
        "the drop itself still has to be recorded"
    );
    assert!(
        degraded(&t).contains(&"token_signals_dropped".to_string()),
        "a row built without signals it was offered is degraded: {:?}",
        t["metadata"]["tags"]
    );
}

#[test]
fn build_trajectory_carries_capture_stage_signal_drops() {
    let jsonl = [
        r#"{"id":"u-1","parentId":null,"type":"message","role":"user","content":"go"}"#,
        r#"{"id":"a-1","parentId":"u-1","type":"message","role":"assistant","content":[{"type":"text","text":"ok"}],"completion_token_ids_dropped_bytes":40000,"logprobs_dropped_bytes":52000}"#,
    ]
    .join("\n");
    let fields = parse(r#"{"session_leaf_id":"a-1","has_result":true}"#);
    let state = entity_state_with_events();
    let t = build(&fields, &jsonl, "", &state, "Completed");

    assert_eq!(t["turns"][0]["_token_signals_dropped"]["completion_token_ids"], 40_000);
    assert_eq!(
        t["context"]["entities"][0]["metadata"]["_token_signals_dropped"]["logprobs"],
        52_000,
        "the drop must reach the kernel-modeled inventory, not only the turn"
    );
    assert!(degraded(&t).contains(&"token_signals_dropped".to_string()));
    let tags: Vec<&str> = t["metadata"]["tags"].as_array().unwrap().iter().filter_map(Value::as_str).collect();
    assert!(!tags.contains(&TOKEN_SIGNALS_TAG), "nothing readable was carried: {tags:?}");
}

#[test]
fn build_trajectory_bounds_oversized_tool_arguments() {
    let big_argument = "z".repeat(MAX_ARGUMENTS_CHARS * 2);
    let jsonl = lines(&[
        parse(r#"{"id":"u-1","parentId":null,"type":"message","role":"user","content":"go"}"#),
        obj(vec![
            ("id", Value::from("a-1")),
            ("parentId", Value::from("u-1")),
            ("type", Value::from("message")),
            ("role", Value::from("assistant")),
            (
                "content",
                Value::Array(vec![obj(vec![
                    ("type", Value::from("tool_use")),
                    ("id", Value::from("tc-big")),
                    ("name", Value::from("temper.write")),
                    ("input", obj(vec![("body", Value::from(big_argument))])),
                ])]),
            ),
        ]),
    ]);
    let fields = parse(r#"{"session_leaf_id":"a-1"}"#);
    let state = entity_state_with_events();
    let t = build(&fields, &jsonl, "", &state, "Completed");

    let arguments = &t["turns"][0]["decisions"][0]["choice"]["arguments"];
    assert_eq!(arguments["_truncated"], true);
    assert!(arguments["_preview"].as_str().unwrap().chars().count() <= MAX_ARGUMENTS_CHARS);
}

#[test]
fn run_provenance_travels_in_tags() {
    let fields = two_turn_fields();
    let jsonl = two_turn_session_jsonl();
    let state = entity_state_with_events();
    let t = build(&fields, &jsonl, "", &state, "Completed");
    let tags: Vec<&str> = t["metadata"]["tags"].as_array().unwrap().iter().filter_map(Value::as_str).collect();
    assert_eq!(
        tags,
        vec![
            "sonnet-4-6".to_string(),
            "anthropic".to_string(),
            "execute".to_string(),
            format!("{HARNESS_TAG_PREFIX}{HARNESS}"),
            format!("{SPEC_VERSION_TAG_PREFIX}paw-agent@0.1.0"),
        ]
    );
}

#[test]
fn token_signal_inventory_is_recorded_as_a_context_entity() {
    let jsonl = lines(&[
        parse(r#"{"id":"u-1","parentId":null,"type":"message","role":"user","content":"go"}"#),
        signal_line(
            "a-1",
            "u-1",
            vec![
                ("prompt_token_ids", Value::Array(vec![Value::from(7_u64); 2])),
                ("completion_token_ids", Value::Array(vec![Value::from(3_u64); 2])),
                ("response_mask", Value::Array(vec![Value::from(1_u64); 2])),
                ("logprobs", Value::Array(vec![Value::from(-0.5_f64); 2])),
            ],
        ),
    ]);
    let fields = parse(r#"{"session_leaf_id":"a-1","has_result":true}"#);
    let state = entity_state_with_events();
    let emitted = build(&fields, &jsonl, "", &state, "Completed");

    let carrier = emitted["context"]["entities"][0].clone();
    assert_eq!(carrier["type"], TOKEN_SIGNAL_CARRIER_TYPE);
    assert_eq!(carrier["id"], emitted["turns"][0]["span_id"]);
    assert_eq!(carrier["metadata"]["turn_id"], 1);
    assert_eq!(carrier["metadata"]["stored_on"], "turns[].<signal>");
    for field in ["prompt_token_ids", "completion_token_ids", "response_mask", "logprobs"] {
        assert_eq!(carrier["metadata"]["lengths"][field], 2, "the inventory must record {field}");
        assert!(emitted["turns"][0][field].is_array(), "{field} itself still travels on the turn");
    }
    let tags: Vec<&str> = emitted["metadata"]["tags"].as_array().unwrap().iter().filter_map(Value::as_str).collect();
    assert!(tags.contains(&TOKEN_SIGNALS_TAG));
}

#[test]
fn event_bookends_take_the_first_and_last_event() {
    let state = to_json(&parse(
        r#"{"events":[{"timestamp":"a"},{"action":"x"},{"timestamp":"c"}]}"#,
    ));
    assert_eq!(extract_event_bookends(&state), ("a".to_string(), "c".to_string()));
    let state = to_json(&parse(r#"{"events":[{"action":"x"}]}"#));
    assert_eq!(
        extract_event_bookends(&state),
        ("1970-01-01T00:00:00Z".to_string(), "1970-01-01T00:00:00Z".to_string())
    );
}

#[test]
fn token_signal_budget_spends_serialized_bytes() {
    let mut budget = TokenSignalBudget::new(8);
    let value = to_json(&parse("[1,2,3]"));
    assert_eq!(budget.take(&value), Some(7));
    assert_eq!(budget.remaining, 1);
    assert_eq!(budget.take(&value), None);
    assert_eq!(budget.remaining, 1);
}
