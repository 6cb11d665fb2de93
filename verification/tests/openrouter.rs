use os_apps::json::{Json, JsonNumber};
use os_apps::openrouter::{
    convert_messages_to_openrouter, convert_tools_to_openrouter, extract_openrouter_text,
};
use serde_json::Value;

fn to_json(v: &Value) -> Json {
    match v {
        Value::Null => Json::Null,
        Value::Bool(b) => Json::Bool(*b),
        Value::Number(n) => Json::Number(match (n.as_u64(), n.as_i64()) {
            (Some(u), _) => JsonNumber::PosInt(u),
            (None, Some(i)) => JsonNumber::NegInt(i),
            _ => JsonNumber::Float {
                text: n.to_string(),
                as_i64: n.as_f64().map_or(0, |f| f as i64),
                as_u64: n.as_f64().map_or(0, |f| f as u64),
            },
        }),
        Value::String(s) => Json::String(s.clone()),
        Value::Array(items) => Json::Array(items.iter().map(to_json).collect()),
        Value::Object(map) => Json::Object(map.iter().map(|(k, v)| (k.clone(), to_json(v))).collect()),
    }
}

fn to_value(j: &Json) -> Value {
    match j {
        Json::Null => Value::Null,
        Json::Bool(b) => Value::Bool(*b),
        Json::Number(JsonNumber::PosInt(u)) => Value::from(*u),
        Json::Number(JsonNumber::NegInt(i)) => Value::from(*i),
        Json::Number(JsonNumber::Float { text, .. }) => serde_json::from_str(text).unwrap(),
        Json::String(s) => Value::String(s.clone()),
        Json::Array(items) => Value::Array(items.iter().map(to_value).collect()),
        Json::Object(members) => {
            Value::Object(members.iter().map(|(k, v)| (k.clone(), to_value(v))).collect())
        }
    }
}

fn parse(text: &str) -> Json {
    to_json(&serde_json::from_str::<Value>(text).unwrap())
}

fn value(text: &str) -> Value {
    serde_json::from_str(text).unwrap()
}

#[test]
fn assistant_blocks_become_text_and_function_calls() {
    let out: Vec<Value> = convert_messages_to_openrouter(&vec![parse(
        r#"{"role": "assistant", "content": [
            {"type": "text", "text": "first"},
            {"type": "tool_use", "name": "execute", "input": {"code": "print(1)"}},
            {"type": "text", "text": "second"},
            {"type": "tool_use", "id": "call-9"}
        ]}"#,
    )])
    .iter()
    .map(to_value)
    .collect();
    assert_eq!(out.len(), 1);
    assert_eq!(out[0]["content"], "first\nsecond");
    let calls = out[0]["tool_calls"].as_array().unwrap();
    assert_eq!(calls[0]["id"], "tool_2");
    assert_eq!(calls[0]["type"], "function");
    assert_eq!(calls[0]["function"]["name"], "execute");
    assert_eq!(calls[0]["function"]["arguments"], r#"{"code":"print(1)"}"#);
    assert_eq!(calls[1]["id"], "call-9");
    assert_eq!(calls[1]["function"]["name"], "unknown_tool");
    assert_eq!(calls[1]["function"]["arguments"], "{}");
}

#[test]
fn assistant_without_calls_has_no_tool_calls_member() {
    let out = to_value(&convert_messages_to_openrouter(&vec![parse(
        r#"{"role": "assistant", "content": [{"type": "text", "text": "hi"}]}"#,
    )])[0]);
    assert_eq!(out, value(r#"{"role": "assistant", "content": "hi"}"#));
}

#[test]
fn user_tool_results_become_tool_messages_before_the_text() {
    let out: Vec<Value> = convert_messages_to_openrouter(&vec![parse(
        r#"{"role": "user", "content": [
            {"type": "text", "text": "see"},
            {"type": "tool_result", "tool_use_id": "t1", "content": [{"k": 1}]},
            {"type": "tool_result", "content": "plain"}
        ]}"#,
    )])
    .iter()
    .map(to_value)
    .collect();
    assert_eq!(out.len(), 3);
    assert_eq!(out[0], value(r#"{"role": "tool", "tool_call_id": "t1", "content": "[{\"k\":1}]"}"#));
    assert_eq!(out[1], value(r#"{"role": "tool", "tool_call_id": "unknown_tool_call", "content": "plain"}"#));
    assert_eq!(out[2], value(r#"{"role": "user", "content": "see"}"#));
}

#[test]
fn other_contents_pass_through() {
    let out: Vec<Value> = convert_messages_to_openrouter(&vec![
        parse(r#"{"content": "no role"}"#),
        parse(r#"{"role": "system"}"#),
        parse(r#"{"role": "system", "content": [{"type": "text", "text": "x"}]}"#),
        parse(r#"{"role": "assistant", "content": 7}"#),
    ])
    .iter()
    .map(to_value)
    .collect();
    assert_eq!(out[0], value(r#"{"role": "user", "content": "no role"}"#));
    assert_eq!(out[1], value(r#"{"role": "system", "content": ""}"#));
    assert_eq!(out[2], value(r#"{"role": "system", "content": [{"type": "text", "text": "x"}]}"#));
    assert_eq!(out[3], value(r#"{"role": "assistant", "content": 7}"#));
}

#[test]
fn tools_become_functions_and_unnamed_tools_are_dropped() {
    let out: Vec<Value> = convert_tools_to_openrouter(&vec![
        parse(r#"{"name": "execute", "description": "run", "input_schema": {"type": "object", "required": ["code"]}}"#),
        parse(r#"{"description": "nameless"}"#),
        parse(r#"{"name": "bare"}"#),
    ])
    .iter()
    .map(to_value)
    .collect();
    assert_eq!(out.len(), 2);
    assert_eq!(out[0]["type"], "function");
    assert_eq!(out[0]["function"]["parameters"]["required"][0], "code");
    assert_eq!(
        out[1],
        value(r#"{"type": "function", "function": {"name": "bare", "description": "", "parameters": {"type": "object", "properties": {}}}}"#)
    );
}

#[test]
fn reply_text_reads_strings_and_part_lists() {
    assert_eq!(extract_openrouter_text(&parse(r#"{"content": "plain"}"#)), "plain");
    assert_eq!(
        extract_openrouter_text(&parse(r#"{"content": [{"text": "a"}, {"content": "b"}, {"x": 1}]}"#)),
        "a\nb"
    );
    assert_eq!(extract_openrouter_text(&parse(r#"{"content": null}"#)), "");
}
