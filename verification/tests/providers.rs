use os_apps::json::{Json, JsonNumber};
use os_apps::providers::{
    add_cache_breakpoints, anthropic_attempt, anthropic_call_headers, anthropic_effective_prompt,
    anthropic_response, build_openrouter_messages, openrouter_attempt, openrouter_call_headers,
    openrouter_response, AttemptOutcome,
};
use os_apps::responses::{
    build_responses_body, build_responses_input, codex_attempt, codex_response, CodexAttempt,
};
use serde_json::Value;

fn to_json(v: &Value) -> Json {
    match v {
        Value::Null => Json::Null,
        Value::Bool(b) => Json::Bool(*b),
        Value::Number(n) => Json::Number(match (n.as_u64(), n.as_i64()) {
            (Some(u), _) => JsonNumber::PosInt(u),
            (None, Some(i)) => JsonNumber::NegInt(i),
            _ => JsonNumber::Float {
                text: n.to_string(),
                as_i64: n.as_f64().map_or(0, |f| f as i64),
                as_u64: n.as_f64().map_or(0, |f| f as u64),
            },
        }),
        Value::String(s) => Json::String(s.clone()),
        Value::Array(items) => Json::Array(items.iter().map(to_json).collect()),
        Value::Object(map) => Json::Object(map.iter().map(|(k, v)| (k.clone(), to_json(v))).collect()),
    }
}

fn to_value(j: &Json) -> Value {
    match j {
        Json::Null => Value::Null,
        Json::Bool(b) => Value::Bool(*b),
        Json::Number(JsonNumber::PosInt(u)) => Value::from(*u),
        Json::Number(JsonNumber::NegInt(i)) => Value::from(*i),
        Json::Number(JsonNumber::Float { text, .. }) => serde_json::from_str(text).unwrap(),
        Json::String(s) => Value::String(s.clone()),
        Json::Array(items) => Value::Array(items.iter().map(to_value).collect()),
        Json::Object(members) => {
            Value::Object(members.iter().map(|(k, v)| (k.clone(), to_value(v))).collect())
        }
    }
}

fn parse(text: &str) -> Json {
    to_json(&serde_json::from_str::<Value>(text).unwrap())
}

fn values(v: &[Json]) -> Vec<Value> {
    v.iter().map(to_value).collect()
}

#[test]
fn oauth_calls_move_the_system_prompt_into_the_first_message() {
    let messages = vec![parse(r#"{"role": "user", "content": "hi"}"#), parse(r#"{"role": "assistant", "content": "yo"}"#)];
    let (system, msgs) = anthropic_effective_prompt("Be brief.", &messages, true, "fixed prompt");
    assert_eq!(system, "fixed prompt");
    assert_eq!(to_value(&msgs[0])["content"], "[System instructions: Be brief.]\n\nhi");
    assert_eq!(to_value(&msgs[1])["content"], "yo");
    let (system, msgs) = anthropic_effective_prompt("Be brief.", &messages, false, "fixed prompt");
    assert_eq!(system, "Be brief.");
    assert_eq!(to_value(&msgs[0])["content"], "hi");
}

#[test]
fn cache_breakpoints_mark_the_last_two_user_messages() {
    let messages = vec![
        parse(r#"{"role": "user", "content": "one"}"#),
        parse(r#"{"role": "user", "content": [{"type": "text", "text": "two"}]}"#),
        parse(r#"{"role": "assistant", "content": "a"}"#),
        parse(r#"{"role": "user", "content": "three"}"#),
    ];
    let out = values(&add_cache_breakpoints(&messages));
    assert_eq!(out[0]["content"], "one");
    assert_eq!(out[1]["content"][0]["cache_control"]["type"], "ephemeral");
    assert_eq!(out[2]["content"], "a");
    assert_eq!(out[3]["content"][0]["text"], "three");
    assert_eq!(out[3]["content"][0]["cache_control"]["type"], "ephemeral");
}

#[test]
fn anthropic_headers_follow_the_auth_mode() {
    let oauth = anthropic_call_headers("tok", true, "cli/1.0");
    assert_eq!(oauth.len(), 6);
    assert_eq!(oauth[4], ("user-agent".to_string(), "cli/1.0".to_string()));
    assert_eq!(oauth[0], ("authorization".to_string(), "Bearer tok".to_string()));
    let key = anthropic_call_headers("key", false, "cli/1.0");
    assert_eq!(key[0], ("x-api-key".to_string(), "key".to_string()));
    assert_eq!(key[2].1, "prompt-caching-2024-07-31");
}

#[test]
fn anthropic_attempts_retry_transient_failures() {
    assert_eq!(anthropic_attempt(200, "{}"), AttemptOutcome::Success);
    assert_eq!(anthropic_attempt(529, "busy"), AttemptOutcome::Retry("HTTP 529: busy".to_string()));
    assert_eq!(
        anthropic_attempt(400, r#"{"error":{"message":"Error"}}"#),
        AttemptOutcome::Retry(r#"HTTP 400 (transient): {"error":{"message":"Error"}}"#.to_string())
    );
    let long = "x".repeat(600);
    assert_eq!(
        anthropic_attempt(401, &long),
        AttemptOutcome::Fail(format!("Anthropic API returned 401: {}", "x".repeat(500)))
    );
    assert_eq!(openrouter_attempt(503, "down"), AttemptOutcome::Retry("HTTP 503: down".to_string()));
    assert_eq!(openrouter_attempt(404, "nope"), AttemptOutcome::Fail("OpenRouter API returned 404: nope".to_string()));
}

#[test]
fn anthropic_replies_keep_content_and_usage() {
    let r = anthropic_response(&parse(
        r#"{"content": [{"type": "text", "text": "hi"}], "stop_reason": "tool_use",
            "usage": {"input_tokens": 10, "output_tokens": 2, "cache_read_input_tokens": 7}}"#,
    ));
    assert_eq!(r.stop_reason, "tool_use");
    assert_eq!((r.input_tokens, r.output_tokens, r.cache_read_input_tokens, r.cache_creation_input_tokens), (10, 2, 7, 0));
    let empty = anthropic_response(&parse("{}"));
    assert_eq!(empty.stop_reason, "end_turn");
    assert_eq!(to_value(&empty.content), serde_json::from_str::<Value>("[]").unwrap());
}

#[test]
fn openrouter_calls_lead_with_the_system_prompt_and_name_the_site() {
    let msgs = values(&build_openrouter_messages("sys", &vec![parse(r#"{"role": "user", "content": "q"}"#)]));
    assert_eq!(msgs.len(), 2);
    assert_eq!(msgs[0]["role"], "system");
    assert_eq!(msgs[1]["content"], "q");
    assert_eq!(build_openrouter_messages("", &vec![]).len(), 0);
    let h = openrouter_call_headers("k", " https://site ", "  ");
    assert_eq!(h.len(), 3);
    assert_eq!(h[2], ("HTTP-Referer".to_string(), "https://site".to_string()));
}

#[test]
fn openrouter_replies_become_blocks() {
    let r = openrouter_response(&parse(
        r#"{"choices": [{"message": {"content": "let me check", "tool_calls": [
            {"function": {"name": "execute", "arguments": "{\"code\": \"1\"}"}},
            {"id": "c2", "function": {"arguments": "not json"}}
        ]}}], "usage": {"prompt_tokens": 5, "output_tokens": 3}}"#,
    ));
    let content = to_value(&r.content);
    assert_eq!(content[0]["text"], "let me check");
    assert_eq!(content[1]["id"], "or_tool_1");
    assert_eq!(content[1]["input"]["code"], "1");
    assert_eq!(content[2]["id"], "c2");
    assert_eq!(content[2]["name"], "unknown_tool");
    assert_eq!(content[2]["input"], serde_json::from_str::<Value>("{}").unwrap());
    assert_eq!(r.stop_reason, "tool_use");
    assert_eq!((r.input_tokens, r.output_tokens), (5, 3));
    let plain = openrouter_response(&parse(r#"{"choices": []}"#));
    assert_eq!(plain.stop_reason, "end_turn");
    assert_eq!(to_value(&plain.content), serde_json::from_str::<Value>("[]").unwrap());
}

#[test]
fn responses_input_rewrites_the_history() {
    let input = values(&build_responses_input(&vec![
        parse(r#"{"role": "user", "content": "hello"}"#),
        parse(r#"{"role": "assistant", "content": [{"type": "text", "text": "calling"}, {"type": "tool_use", "id": "t1", "name": "execute", "input": {"code": "x"}}]}"#),
        parse(r#"{"role": "user", "content": [{"type": "tool_result", "tool_use_id": "t1", "content": [{"type": "text", "text": "a"}, {"type": "text", "text": "b"}]}, {"type": "text", "text": "ignored"}]}"#),
        parse(r#"{"role": "user", "content": [{"type": "text", "text": "more"}]}"#),
        parse(r#"{"role": "tool_result", "tool_use_id": "t2", "content": "done"}"#),
        parse(r#"{"role": "system", "content": "skipped"}"#),
    ]));
    assert_eq!(input.len(), 6);
    assert_eq!(input[0], serde_json::from_str::<Value>(r#"{"role": "user", "content": "hello"}"#).unwrap());
    assert_eq!(input[1]["content"][0]["text"], "calling");
    assert_eq!(input[2]["type"], "function_call");
    assert_eq!(input[2]["arguments"], r#"{"code":"x"}"#);
    assert_eq!(input[3], serde_json::from_str::<Value>(r#"{"type": "function_call_output", "call_id": "t1", "output": "a\nb"}"#).unwrap());
    assert_eq!(input[4]["content"], "more");
    assert_eq!(input[5]["call_id"], "t2");
}

#[test]
fn responses_body_streams_without_storing() {
    let body = to_value(&build_responses_body("m", "sys", &vec![], &vec![parse(r#"{"name": "execute"}"#)]));
    assert_eq!(body["stream"], Value::Bool(true));
    assert_eq!(body["store"], Value::Bool(false));
    assert_eq!(body["reasoning"]["effort"], "medium");
    assert_eq!(body["tools"][0]["strict"], Value::Bool(false));
    assert_eq!(body["tool_choice"], "auto");
    let bare = to_value(&build_responses_body("m", "sys", &vec![], &vec![]));
    assert!(bare.get("tools").is_none());
}

#[test]
fn codex_attempts_read_the_stream_or_say_why_not() {
    let body = "data: {\"type\":\"response.output_text.delta\",\"delta\":\"hi\"}\n\
data: {\"type\":\"response.completed\",\"response\":{\"usage\":{\"input_tokens\":4,\"output_tokens\":1}}}\n";
    match codex_attempt(200, body) {
        CodexAttempt::Done { items, usage } => {
            let r = codex_response(&items, &usage);
            assert_eq!(to_value(&r.content)[0]["text"], "hi");
            assert_eq!((r.input_tokens, r.output_tokens), (4, 1));
            assert_eq!(r.stop_reason, "end_turn");
        }
        other => panic!("expected output, got {other:?}"),
    }
    match codex_attempt(200, "data: {\"type\":\"response.created\"}\n") {
        CodexAttempt::Retry(m) => assert_eq!(m, "SSE stream truncated: 1 lines (34B) but no response.completed event"),
        other => panic!("expected a retry, got {other:?}"),
    }
    match codex_attempt(200, "data: {\"type\":\"response.completed\",\"response\":{}}") {
        CodexAttempt::Fail(m) => assert!(m.starts_with("OpenAI: no output items found in 1 lines")),
        other => panic!("expected a failure, got {other:?}"),
    }
    assert!(matches!(codex_attempt(429, ""), CodexAttempt::Retry(_)));
    match codex_attempt(500, "oops") {
        CodexAttempt::Fail(m) => assert_eq!(m, "OpenAI Codex API returned 500: oops"),
        other => panic!("expected a failure, got {other:?}"),
    }
}

#[test]
fn codex_function_calls_become_tool_use() {
    let items = vec![
        parse(r#"{"type": "reasoning"}"#),
        parse(r#"{"type": "function_call", "call_id": "c1", "name": "execute", "arguments": "{\"code\":\"1\"}"}"#),
        parse(r#"{"type": "message", "content": [{"type": "output_text", "text": ""}, {"type": "output_text", "text": "ok"}]}"#),
    ];
    let r = codex_response(&items, &parse("{}"));
    let content = to_value(&r.content);
    assert_eq!(content.as_array().unwrap().len(), 2);
    assert_eq!(content[0]["id"], "c1");
    assert_eq!(content[0]["input"]["code"], "1");
    assert_eq!(content[1]["text"], "ok");
    assert_eq!(r.stop_reason, "tool_use");
}

#[test]
fn successful_replies_need_no_cut_point() {
    let body = "é".repeat(300);
    assert_eq!(os_apps::providers::anthropic_attempt(200, &body), os_apps::providers::AttemptOutcome::Success);
    assert_eq!(os_apps::providers::openrouter_attempt(200, &body), os_apps::providers::AttemptOutcome::Success);
}
