use os_apps::genai::{
    build_gen_ai_input_messages, build_gen_ai_output_messages, build_gen_ai_system_instructions,
    normalize_tool_result_content, prefix_at_char_boundary, truncate_for_gen_ai_attr,
};
use os_apps::json::{Json, JsonNumber};
use serde_json::Value;

fn to_json(v: &Value) -> Json {
    match v {
        Value::Null => Json::Null,
        Value::Bool(b) => Json::Bool(*b),
        Value::Number(n) => Json::Number(match (n.as_u64(), n.as_i64()) {
            (Some(u), _) => JsonNumber::PosInt(u),
            (None, Some(i)) => JsonNumber::NegInt(i),
            _ => JsonNumber::Float {
                text: n.to_string(),
                as_i64: n.as_f64().map_or(0, |f| f as i64),
                as_u64: n.as_f64().map_or(0, |f| f as u64),
            },
        }),
        Value::String(s) => Json::String(s.clone()),
        Value::Array(items) => Json::Array(items.iter().map(to_json).collect()),
        Value::Object(map) => Json::Object(map.iter().map(|(k, v)| (k.clone(), to_json(v))).collect()),
    }
}

fn parse(text: &str) -> Json {
    to_json(&serde_json::from_str::<Value>(text).unwrap())
}

#[test]
fn gen_ai_system_instructions_use_otel_schema() {
    let payload = build_gen_ai_system_instructions("You are a precise assistant.");
    let parsed: Value = serde_json::from_str(&payload).unwrap();
    assert_eq!(parsed[0]["type"], "text");
    assert_eq!(parsed[0]["content"], "You are a precise assistant.");
}

#[test]
fn gen_ai_system_instructions_are_empty_for_an_empty_prompt() {
    assert_eq!(build_gen_ai_system_instructions(""), "[]");
}

#[test]
fn gen_ai_input_messages_preserve_chat_history_and_tool_results() {
    let payload = build_gen_ai_input_messages(&vec![
        parse(r#"{"role": "user", "content": "List the recent sessions."}"#),
        parse(
            r#"{
            "role": "assistant",
            "content": [{
                "type": "tool_use",
                "id": "tool_123",
                "name": "temper.list_sessions",
                "input": {"top": 3}
            }]
        }"#,
        ),
        parse(
            r#"{
            "role": "user",
            "content": [{
                "type": "tool_result",
                "tool_use_id": "tool_123",
                "content": [{"type": "text", "text": "[\"s1\",\"s2\"]"}],
                "is_error": false
            }]
        }"#,
        ),
    ]);

    let parsed: Value = serde_json::from_str(&payload).unwrap();
    assert_eq!(parsed[0]["role"], "user");
    assert_eq!(parsed[0]["parts"][0]["type"], "text");
    assert_eq!(parsed[1]["role"], "assistant");
    assert_eq!(parsed[1]["parts"][0]["type"], "tool_call");
    assert_eq!(parsed[1]["parts"][0]["name"], "temper.list_sessions");
    assert_eq!(parsed[2]["role"], "tool");
    assert_eq!(parsed[2]["parts"][0]["type"], "tool_call_response");
    assert_eq!(parsed[2]["parts"][0]["id"], "tool_123");
}

#[test]
fn gen_ai_output_messages_preserve_text_and_tool_calls() {
    let payload = build_gen_ai_output_messages(
        &parse(
            r#"[
            {"type": "text", "text": "I need to inspect the latest sessions first."},
            {
                "type": "tool_use",
                "id": "tool_456",
                "name": "temper.list_sessions",
                "input": {"top": 5}
            }
        ]"#,
        ),
        "tool_use",
    );

    let parsed: Value = serde_json::from_str(&payload).unwrap();
    assert_eq!(parsed[0]["role"], "assistant");
    assert_eq!(parsed[0]["finish_reason"], "tool_use");
    assert_eq!(parsed[0]["parts"][0]["type"], "text");
    assert_eq!(parsed[0]["parts"][1]["type"], "tool_call");
    assert_eq!(parsed[0]["parts"][1]["id"], "tool_456");
}

#[test]
fn output_messages_are_empty_without_parts() {
    assert_eq!(build_gen_ai_output_messages(&parse(r#"[{"type": "image"}]"#), "end_turn"), "[]");
    assert_eq!(build_gen_ai_output_messages(&parse(r#""text""#), "end_turn"), "[]");
}

#[test]
fn oversized_payloads_are_replaced_by_a_size_note() {
    let huge: Vec<Json> = (0..10)
        .map(|_| parse(&format!(r#"{{"role": "system", "content": "{}"}}"#, "z".repeat(8000))))
        .collect();
    let payload = build_gen_ai_input_messages(&huge);
    let parsed: Value = serde_json::from_str(&payload).unwrap();
    assert_eq!(parsed.as_array().unwrap().len(), 1);
    let note = parsed[0]["parts"][0]["content"].as_str().unwrap();
    assert!(note.starts_with("[truncated, ") && note.ends_with(" bytes]"));
}

#[test]
fn tool_results_are_read_as_json_or_joined_text() {
    match normalize_tool_result_content(&parse(r#""{\"a\":1}""#)) {
        Json::Object(members) => assert_eq!(members[0].0, "a"),
        other => panic!("expected an object, got {other:?}"),
    }
    match normalize_tool_result_content(&parse(r#"[{"text": "one"}, {"x": 1}, {"text": "two"}]"#)) {
        Json::String(s) => assert_eq!(s, "one\ntwo"),
        other => panic!("expected a string, got {other:?}"),
    }
    match normalize_tool_result_content(&parse(r#"[{"x": 1}]"#)) {
        Json::String(s) => assert_eq!(s, r#"[{"x":1}]"#),
        other => panic!("expected a string, got {other:?}"),
    }
}

#[test]
fn long_texts_keep_a_char_aligned_quarter_budget_prefix() {
    assert_eq!(prefix_at_char_boundary("héllo", 2), "h");
    assert_eq!(prefix_at_char_boundary("héllo", 3), "hé");
    assert_eq!(prefix_at_char_boundary("héllo", 0), "");
    assert_eq!(prefix_at_char_boundary("héllo", 6), "héllo");
    let long = "é".repeat(5000);
    let cut = truncate_for_gen_ai_attr(&long);
    assert_eq!(cut, format!("{}... [truncated, 10000 bytes total]", "é".repeat(2048)));
    assert_eq!(truncate_for_gen_ai_attr("short"), "short");
}
