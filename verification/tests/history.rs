use os_apps::history::{
    context_progress_dispatch_enabled, estimate_message_tokens, extract_tool_result_ids,
    extract_tool_use_ids, normalize_provider, prune_old_tool_results,
    repair_interrupted_tool_use_messages, stringify_content, INTERRUPTED_RESULT,
};
use os_apps::json::{Json, JsonNumber};
use serde_json::Value;

fn to_json(v: &Value) -> Json {
    match v {
        Value::Null => Json::Null,
        Value::Bool(b) => Json::Bool(*b),
        Value::Number(n) => Json::Number(match (n.as_u64(), n.as_i64()) {
            (Some(u), _) => JsonNumber::PosInt(u),
            (None, Some(i)) => JsonNumber::NegInt(i),
            _ => JsonNumber::Float {
                text: n.to_string(),
                as_i64: n.as_f64().map_or(0, |f| f as i64),
                as_u64: n.as_f64().map_or(0, |f| f as u64),
            },
        }),
        Value::String(s) => Json::String(s.clone()),
        Value::Array(items) => Json::Array(items.iter().map(to_json).collect()),
        Value::Object(map) => Json::Object(map.iter().map(|(k, v)| (k.clone(), to_json(v))).collect()),
    }
}

fn to_value(j: &Json) -> Value {
    match j {
        Json::Null => Value::Null,
        Json::Bool(b) => Value::Bool(*b),
        Json::Number(JsonNumber::PosInt(u)) => Value::from(*u),
        Json::Number(JsonNumber::NegInt(i)) => Value::from(*i),
        Json::Number(JsonNumber::Float { text, .. }) => serde_json::from_str(text).unwrap(),
        Json::String(s) => Value::String(s.clone()),
        Json::Array(items) => Value::Array(items.iter().map(to_value).collect()),
        Json::Object(members) => {
            Value::Object(members.iter().map(|(k, v)| (k.clone(), to_value(v))).collect())
        }
    }
}

fn parse(text: &str) -> Json {
    to_json(&serde_json::from_str::<Value>(text).unwrap())
}

#[test]
fn extract_tool_ids_reads_tool_calls_and_results() {
    let tool_use_ids = extract_tool_use_ids(&parse(
        r#"{"role": "assistant", "content": [{"type": "tool_use", "id": "tool-1", "name": "execute", "input": {}}]}"#,
    ));
    let tool_result_ids = extract_tool_result_ids(&parse(
        r#"{"role": "user", "content": [{"type": "tool_result", "tool_use_id": "tool-1", "content": "done"}]}"#,
    ));

    assert!(tool_use_ids.contains(&"tool-1".to_string()));
    assert!(tool_result_ids.contains(&"tool-1".to_string()));
}

#[test]
fn tool_use_ids_come_sorted_and_once() {
    let ids = extract_tool_use_ids(&parse(
        r#"{"content": [
            {"type": "tool_use", "id": "b"}, {"type": "tool_use", "id": "a"},
            {"type": "tool_use", "id": "b"}, {"type": "text", "id": "c"}, {"type": "tool_use"}
        ]}"#,
    ));
    assert_eq!(ids, vec!["a".to_string(), "b".to_string()]);
    assert!(extract_tool_use_ids(&parse(r#"{"content": "text"}"#)).is_empty());
}

#[test]
fn prune_old_tool_results_truncates_old_payloads() {
    let long = "x".repeat(260);
    let mut messages = vec![
        parse(r#"{"role": "assistant", "content": [{"type": "text", "text": "old turn"}]}"#),
        parse(&format!(
            r#"{{"role": "user", "content": [{{"type": "tool_result", "tool_use_id": "tool-1", "content": "{long}"}}]}}"#
        )),
        parse(r#"{"role": "assistant", "content": [{"type": "text", "text": "middle turn"}]}"#),
        parse(r#"{"role": "assistant", "content": [{"type": "text", "text": "recent turn"}]}"#),
    ];

    prune_old_tool_results(&mut messages, 1);

    let pruned = to_value(&messages[1]);
    let pruned = pruned["content"][0]["content"].as_str().unwrap();
    assert!(pruned.contains("tool result pruned"));
    assert_eq!(pruned, "[tool result pruned — 260 chars]");
}

#[test]
fn pruning_drops_images_and_marks_long_texts_in_old_turns_only() {
    let long = "y".repeat(201);
    let old = format!(
        r#"{{"role": "user", "content": [{{"type": "tool_result", "content": [
            {{"type": "image", "data": "..."}}, {{"type": "text", "text": "{long}"}}, {{"type": "text", "text": "short"}}
        ]}}]}}"#
    );
    let mut messages = vec![
        parse(&old),
        parse(r#"{"role": "assistant", "content": "a"}"#),
        parse(&old),
        parse(r#"{"role": "assistant", "content": "b"}"#),
    ];
    prune_old_tool_results(&mut messages, 1);
    let first = to_value(&messages[0]);
    let parts = first["content"][0]["content"].as_array().unwrap();
    assert_eq!(parts.len(), 2);
    assert_eq!(parts[0]["text"], "[text pruned — 201 chars]");
    assert_eq!(parts[1]["text"], "short");
    // The user message after the first assistant turn is within the kept turn.
    let third = to_value(&messages[2]);
    assert_eq!(third["content"][0]["content"].as_array().unwrap().len(), 3);
}

#[test]
fn pruning_keeps_everything_with_few_turns() {
    let mut messages = vec![parse(r#"{"role": "assistant", "content": "a"}"#)];
    prune_old_tool_results(&mut messages, 1);
    assert_eq!(to_value(&messages[0]), serde_json::from_str::<Value>(r#"{"role": "assistant", "content": "a"}"#).unwrap());
}

#[test]
fn repair_closes_unanswered_tool_calls() {
    let messages = vec![
        parse(r#"{"role": "assistant", "content": [{"type": "tool_use", "id": "t2"}, {"type": "tool_use", "id": "t1"}, {"type": "tool_use", "id": "t3"}]}"#),
        parse(r#"{"role": "user", "content": [{"type": "tool_result", "tool_use_id": "t3"}]}"#),
        parse(r#"{"role": "assistant", "content": [{"type": "tool_use", "id": "t4"}]}"#),
    ];
    let repaired: Vec<Value> = repair_interrupted_tool_use_messages(&messages).iter().map(to_value).collect();
    assert_eq!(repaired.len(), 5);
    assert_eq!(repaired[1]["role"], "user");
    let closing = repaired[1]["content"].as_array().unwrap();
    assert_eq!(closing.len(), 2);
    assert_eq!(closing[0]["tool_use_id"], "t1");
    assert_eq!(closing[1]["tool_use_id"], "t2");
    assert_eq!(closing[0]["content"], INTERRUPTED_RESULT);
    assert_eq!(closing[0]["is_error"], Value::Bool(true));
    assert_eq!(repaired[2], to_value(&messages[1]));
    assert_eq!(repaired[4]["content"][0]["tool_use_id"], "t4");
}

#[test]
fn repair_leaves_answered_histories_alone() {
    let messages = vec![
        parse(r#"{"role": "assistant", "content": [{"type": "tool_use", "id": "t1"}]}"#),
        parse(r#"{"role": "user", "content": [{"type": "tool_result", "tool_use_id": "t1"}]}"#),
    ];
    assert_eq!(repair_interrupted_tool_use_messages(&messages).len(), 2);
}

#[test]
fn token_estimate_sums_content_bytes() {
    let messages = vec![
        parse(r#"{"role": "user", "content": "héllo"}"#),
        parse(r#"{"role": "assistant", "content": [{"type": "text"}]}"#),
        parse(r#"{"role": "user"}"#),
    ];
    assert_eq!(estimate_message_tokens(&messages), 6 + 17);
    assert_eq!(stringify_content(&parse(r#"[{"type":"text"}]"#)), r#"[{"type":"text"}]"#);
}

#[test]
fn provider_names_are_normalized() {
    assert_eq!(normalize_provider("  Open_Router "), "openrouter");
    assert_eq!(normalize_provider("CODEX"), "openai_codex");
    assert_eq!(normalize_provider("openai-codex"), "openai_codex");
    assert_eq!(normalize_provider("Anthropic"), "anthropic");
}

#[test]
fn progress_dispatch_reads_either_field_spelling() {
    assert!(context_progress_dispatch_enabled(&parse(r#"{"fields": {"context_progress_enabled": true}}"#)));
    assert!(context_progress_dispatch_enabled(&parse(r#"{"fields": {"ContextProgressEnabled": " Yes "}}"#)));
    assert!(!context_progress_dispatch_enabled(&parse(r#"{"fields": {"context_progress_enabled": "off", "ContextProgressEnabled": true}}"#)));
    assert!(!context_progress_dispatch_enabled(&parse(r#"{"fields": "on"}"#)));
    assert!(!context_progress_dispatch_enabled(&parse(r#"{}"#)));
}
