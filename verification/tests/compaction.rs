use os_apps::compaction::{
    build_compaction_request_body, build_mock_summary, collect_codex_sse_output,
    compaction_auth_expired_error, compaction_auth_expired_reason,
    configured_compaction_provider_api_url, default_compaction_provider_api_url,
    estimate_summary_tokens, format_messages_for_summary, parse_compaction_response_text,
    parse_openai_responses_text, render_context_refs_for_compaction, resolve_compaction_provider,
    anthropic_compaction_headers, ContextRef, EntryType,
};
use os_apps::json::{Json, JsonNumber};
use serde_json::Value;

fn parse(text: &str) -> Value {
    serde_json::from_str(text).unwrap()
}

fn to_json(v: &Value) -> Json {
    match v {
        Value::Null => Json::Null,
        Value::Bool(b) => Json::Bool(*b),
        Value::Number(n) => Json::Number(match (n.as_u64(), n.as_i64()) {
            (Some(u), _) => JsonNumber::PosInt(u),
            (None, Some(i)) => JsonNumber::NegInt(i),
            _ => JsonNumber::Float {
                text: n.to_string(),
                as_i64: n.as_f64().map_or(0, |f| f as i64),
                as_u64: n.as_f64().map_or(0, |f| f as u64),
            },
        }),
        Value::String(s) => Json::String(s.clone()),
        Value::Array(items) => Json::Array(items.iter().map(to_json).collect()),
        Value::Object(map) => Json::Object(map.iter().map(|(k, v)| (k.clone(), to_json(v))).collect()),
    }
}

fn to_value(j: &Json) -> Value {
    match j {
        Json::Null => Value::Null,
        Json::Bool(b) => Value::Bool(*b),
        Json::Number(JsonNumber::PosInt(u)) => Value::from(*u),
        Json::Number(JsonNumber::NegInt(i)) => Value::from(*i),
        Json::Number(JsonNumber::Float { text, .. }) => serde_json::from_str(text).unwrap(),
        Json::String(s) => Value::String(s.clone()),
        Json::Array(items) => Value::Array(items.iter().map(to_value).collect()),
        Json::Object(members) => {
            Value::Object(members.iter().map(|(k, v)| (k.clone(), to_value(v))).collect())
        }
    }
}

fn context_ref(
    entry_id: &str,
    role: &str,
    file: &str,
    version: &str,
    entry_type: EntryType,
    inline_content: Option<Value>,
    inline_summary: Option<&str>,
) -> ContextRef {
    ContextRef {
        entry_id: entry_id.to_string(),
        role: role.to_string(),
        content_file_id: Some(file.to_string()),
        content_file_version_id: Some(version.to_string()),
        entry_type,
        inline_content: inline_content.as_ref().map(to_json),
        inline_summary: inline_summary.map(str::to_string),
    }
}

#[test]
fn render_context_refs_for_compaction_uses_loaded_file_content_and_inline_fallbacks() {
    let refs = vec![
        context_ref("cmp-1", "user", "cmp-file", "cmp-ver", EntryType::Compaction, None, Some("inline summary")),
        context_ref("msg-1", "assistant", "msg-file", "msg-ver", EntryType::Message, None, None),
        context_ref(
            "steer-1",
            "system",
            "steer-file",
            "steer-ver",
            EntryType::Steering,
            Some(Value::String("inline steering".to_string())),
            None,
        ),
    ];
    // What reading each entry's file gives: "cmp-1" fails, "msg-1" holds a
    // JSON block, "steer-1" is empty.
    let reads = vec![
        None,
        Some("{\"type\":\"text\",\"text\":\"hello\"}".to_string()),
        Some(String::new()),
    ];

    let rendered: Vec<Value> =
        render_context_refs_for_compaction(&refs, &reads).iter().map(to_value).collect();

    assert_eq!(rendered.len(), 3);
    assert_eq!(rendered[0]["content"], "[Previous conversation summary]\ninline summary");
    assert_eq!(rendered[1]["role"], "assistant");
    assert_eq!(rendered[1]["content"]["text"], "hello");
    assert_eq!(rendered[2]["role"], "system");
    assert_eq!(rendered[2]["content"], "inline steering");
}

#[test]
fn render_context_refs_skip_headers_and_empty_summaries() {
    let refs = vec![
        context_ref("h", "system", "f", "v", EntryType::Header, Some(Value::String("x".to_string())), None),
        context_ref("c", "user", "f", "v", EntryType::Compaction, None, Some("fallback")),
        context_ref("m", "user", "f", "v", EntryType::Message, None, None),
    ];
    let reads = vec![Some("ignored".to_string()), Some(String::new()), Some("not json".to_string())];
    let rendered: Vec<Value> =
        render_context_refs_for_compaction(&refs, &reads).iter().map(to_value).collect();
    assert_eq!(rendered, vec![parse(r#"{"role": "user", "content": "not json"}"#)]);
}

#[test]
fn compaction_provider_defaults_keep_openai_and_codex_separate() {
    assert_eq!(default_compaction_provider_api_url("openai"), "https://api.openai.com/v1/responses");
    assert_eq!(
        default_compaction_provider_api_url("openai_codex"),
        "https://chatgpt.com/backend-api/codex/responses"
    );
}

#[test]
fn configured_provider_url_overrides_the_default() {
    let config = to_json(&parse(r#"{"openrouter_api_url": "http://router.local"}"#));
    assert_eq!(configured_compaction_provider_api_url(&config, "openrouter"), "http://router.local");
    assert_eq!(
        configured_compaction_provider_api_url(&config, "anything"),
        "https://api.anthropic.com/v1/messages"
    );
}

#[test]
fn openai_compaction_body_sends_input_as_list_not_string() {
    for provider in ["openai", "openai_codex"] {
        let body = to_value(&build_compaction_request_body(
            provider,
            "gpt-test",
            "system text",
            "conversation text",
        ));
        assert_eq!(body["model"], "gpt-test");
        assert_eq!(body["instructions"], "system text");
        let input = body.get("input").unwrap_or_else(|| panic!("{provider}: missing input"));
        let arr = input
            .as_array()
            .unwrap_or_else(|| panic!("{provider}: input must be a list, got {input:?}"));
        assert_eq!(arr.len(), 1, "{provider}: expected single input item");
        assert_eq!(arr[0]["role"], "user");
        assert!(
            arr[0]["content"].as_str().unwrap_or("").contains("conversation text"),
            "{provider}: user content must include conversation text"
        );
        assert_eq!(body["store"], Value::Bool(false));
    }
}

#[test]
fn codex_compaction_body_requests_streaming_response() {
    let body = to_value(&build_compaction_request_body(
        "openai_codex",
        "gpt-test",
        "system text",
        "conversation text",
    ));
    assert_eq!(body["stream"], Value::Bool(true));
}

#[test]
fn openrouter_compaction_body_uses_chat_messages() {
    let body = to_value(&build_compaction_request_body(
        "openrouter",
        "anthropic/haiku-test",
        "sys",
        "convo",
    ));
    let messages = body["messages"].as_array().expect("messages must be array");
    assert_eq!(messages.len(), 2);
    assert_eq!(messages[0]["role"], "system");
    assert_eq!(messages[0]["content"], "sys");
    assert_eq!(messages[1]["role"], "user");
    assert!(messages[1]["content"].as_str().unwrap_or("").contains("convo"));
    assert_eq!(body["max_tokens"], Value::from(2048));
}

#[test]
fn anthropic_compaction_body_uses_messages_with_system_field() {
    let body = to_value(&build_compaction_request_body("anthropic", "model-test", "sys", "convo"));
    assert_eq!(body["model"], "model-test");
    assert_eq!(body["system"], "sys");
    let messages = body["messages"].as_array().expect("messages array");
    assert_eq!(messages.len(), 1);
    assert_eq!(messages[0]["role"], "user");
    assert_eq!(messages[0]["content"], "Summarize this conversation:\n\nconvo");
}

#[test]
fn parse_compaction_response_handles_openai_responses_json() {
    let body = r#"{
        "output": [{
            "type": "message",
            "content": [{ "type": "output_text", "text": "the summary" }]
        }]
    }"#;
    assert_eq!(parse_compaction_response_text("openai", body), "the summary");
}

#[test]
fn parse_compaction_response_handles_codex_sse_stream() {
    let body = "\
data: {\"type\":\"response.output_text.delta\",\"delta\":\"hello \"}\n\
data: {\"type\":\"response.output_text.delta\",\"delta\":\"world\"}\n\
data: {\"type\":\"response.completed\",\"response\":{\"output\":[]}}\n\
data: [DONE]\n";
    assert_eq!(parse_compaction_response_text("openai_codex", body), "hello world");
}

#[test]
fn parse_compaction_response_codex_prefers_completed_output_when_present() {
    let body = "\
data: {\"type\":\"response.output_text.delta\",\"delta\":\"partial\"}\n\
data: {\"type\":\"response.completed\",\"response\":{\"output\":[{\"type\":\"message\",\"content\":[{\"type\":\"output_text\",\"text\":\"final summary\"}]}]}}\n";
    assert_eq!(parse_compaction_response_text("openai_codex", body), "final summary");
}

#[test]
fn parse_compaction_response_handles_anthropic_messages_json() {
    let body = r#"{
        "content": [{ "type": "text", "text": "anthropic summary" }]
    }"#;
    assert_eq!(parse_compaction_response_text("anthropic", body), "anthropic summary");
}

#[test]
fn parse_compaction_response_handles_openrouter_chat_completions() {
    let body = r#"{
        "choices": [{ "message": { "content": "router summary" } }]
    }"#;
    assert_eq!(parse_compaction_response_text("openrouter", body), "router summary");
}

#[test]
fn parse_compaction_response_falls_back_when_body_unparseable() {
    assert_eq!(parse_compaction_response_text("openai", "not json"), "Summary unavailable");
}

#[test]
fn parse_compaction_response_falls_back_without_text() {
    assert_eq!(parse_compaction_response_text("anthropic", "{\"content\":[]}"), "Summary unavailable");
    assert_eq!(parse_compaction_response_text("openrouter", "{\"choices\":[]}"), "Summary unavailable");
    assert_eq!(parse_compaction_response_text("openai_codex", "data: [DONE]\n"), "Summary unavailable");
}

#[test]
fn codex_stream_uses_done_text_only_when_nothing_was_streamed() {
    let body = "data: {\"type\":\"response.output_text.done\",\"text\":\"  whole  \"}\n";
    let out = to_value(&collect_codex_sse_output(body));
    assert_eq!(out["output"][0]["content"][0]["text"], "whole");
    let body = "data: {\"type\":\"response.output_text.delta\",\"text\":\"a\"}\n\
data: {\"type\":\"response.output_text.done\",\"text\":\"b\"}\n\
data: {\"type\":\"response.output_item.done\",\"item\":{\"type\":\"message\",\"content\":[{\"text\":\"item\"}]}}\n";
    let out = collect_codex_sse_output(body);
    assert_eq!(parse_openai_responses_text(&out).as_deref(), Some("item"));
}

#[test]
fn compaction_auth_expired_result_is_action_routable() {
    let body = r#"{"error":{"code":"token_expired"}}"#;
    let err = compaction_auth_expired_error(body);

    assert_eq!(compaction_auth_expired_reason(&err).as_deref(), Some(body));
    assert_eq!(compaction_auth_expired_reason("regular compaction failure"), None);
}

#[test]
fn auth_expired_error_keeps_only_the_first_300_characters() {
    let body = "é".repeat(400);
    let err = compaction_auth_expired_error(&body);
    assert_eq!(err, format!("compaction_auth_expired: {}", "é".repeat(300)));
}

#[test]
fn summary_tokens_round_up_utf8_bytes() {
    assert_eq!(estimate_summary_tokens("   "), 0);
    assert_eq!(estimate_summary_tokens(" a "), 1);
    assert_eq!(estimate_summary_tokens("abcdefgh"), 2);
    assert_eq!(estimate_summary_tokens("abcdefghi"), 3);
    assert_eq!(estimate_summary_tokens("ééé"), 2);
}

#[test]
fn mock_summary_carries_the_conversation_tail() {
    let text = "x".repeat(700);
    let summary = build_mock_summary(&text);
    assert!(summary.starts_with("## Active Goal\nContinue the active task."));
    assert!(summary.ends_with(&format!("Raw context tail:\n{}", "x".repeat(600))));
}

#[test]
fn provider_resolution_takes_the_first_usable_key() {
    let config = to_json(&parse(
        r#"{"anthropic_api_key": "   ", "api_key": "sk-real", "openai_api_key": "{secret:openai}"}"#,
    ));
    assert_eq!(
        resolve_compaction_provider(&config, "anthropic"),
        Ok(("anthropic".to_string(), "sk-real".to_string()))
    );
    assert_eq!(
        resolve_compaction_provider(&config, "openai"),
        Err("missing API key for provider=openai".to_string())
    );
    assert_eq!(resolve_compaction_provider(&config, "mock"), Ok(("mock".to_string(), String::new())));
    assert_eq!(
        resolve_compaction_provider(&config, "gemini"),
        Err("unsupported compaction provider: gemini".to_string())
    );
}

#[test]
fn anthropic_headers_distinguish_oauth_tokens() {
    let oauth = anthropic_compaction_headers("sk-ant-oat-123");
    assert_eq!(oauth[0], ("authorization".to_string(), "Bearer sk-ant-oat-123".to_string()));
    assert_eq!(oauth.len(), 4);
    let key = anthropic_compaction_headers("sk-ant-api");
    assert_eq!(key[0], ("x-api-key".to_string(), "sk-ant-api".to_string()));
    assert_eq!(key.len(), 3);
}

#[test]
fn summary_text_renders_roles_blocks_and_cut_results() {
    let long = "r".repeat(250);
    let messages: Vec<Json> = vec![
        parse(r#"{"role": "user", "content": "plain"}"#),
        parse(&format!(
            r#"{{"role": "assistant", "content": [
                {{"type": "text", "text": "thinking"}},
                {{"type": "tool_use", "name": "bash"}},
                {{"type": "tool_result", "content": "{long}"}},
                {{"type": "image"}}
            ]}}"#
        )),
        parse(r#"{"content": {"k": 1}}"#),
    ]
    .iter()
    .map(to_json)
    .collect();
    let text = format_messages_for_summary(&messages);
    assert_eq!(
        text,
        format!(
            "## user\nplain\n\n## assistant\nthinking\n[tool_use: bash]\n[tool_result: {}]\n\n## unknown\n{{\"k\":1}}\n\n",
            "r".repeat(200)
        )
    );
}
