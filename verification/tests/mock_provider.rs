use os_apps::json::{Json, JsonNumber};
use os_apps::mock::{
    build_mock_step_response, detect_anthropic_oauth_mode, extract_memory_keys, extract_mock_plan,
    extract_tag_block, first_non_empty, latest_user_text, mock_plan_requests_hang,
    mock_text_response, resolve_mock_template, resolve_provider_api_key,
};
use serde_json::Value;

fn to_json(v: &Value) -> Json {
    match v {
        Value::Null => Json::Null,
        Value::Bool(b) => Json::Bool(*b),
        Value::Number(n) => Json::Number(match (n.as_u64(), n.as_i64()) {
            (Some(u), _) => JsonNumber::PosInt(u),
            (None, Some(i)) => JsonNumber::NegInt(i),
            _ => JsonNumber::Float {
                text: n.to_string(),
                as_i64: n.as_f64().map_or(0, |f| f as i64),
                as_u64: n.as_f64().map_or(0, |f| f as u64),
            },
        }),
        Value::String(s) => Json::String(s.clone()),
        Value::Array(items) => Json::Array(items.iter().map(to_json).collect()),
        Value::Object(map) => Json::Object(map.iter().map(|(k, v)| (k.clone(), to_json(v))).collect()),
    }
}

fn to_value(j: &Json) -> Value {
    match j {
        Json::Null => Value::Null,
        Json::Bool(b) => Value::Bool(*b),
        Json::Number(JsonNumber::PosInt(u)) => Value::from(*u),
        Json::Number(JsonNumber::NegInt(i)) => Value::from(*i),
        Json::Number(JsonNumber::Float { text, .. }) => serde_json::from_str(text).unwrap(),
        Json::String(s) => Value::String(s.clone()),
        Json::Array(items) => Value::Array(items.iter().map(to_value).collect()),
        Json::Object(members) => {
            Value::Object(members.iter().map(|(k, v)| (k.clone(), to_value(v))).collect())
        }
    }
}

fn parse(text: &str) -> Json {
    to_json(&serde_json::from_str::<Value>(text).unwrap())
}

const PROMPT: &str = "intro\n<agent_memory>\n<memory key=\"alpha\">a</memory>\n<memory key=\"beta\">b</memory>\n</agent_memory>\n<available_skills>s</available_skills>";

#[test]
fn tag_blocks_include_both_tags() {
    assert_eq!(extract_tag_block("x<t>in</t>y", "t"), "<t>in</t>");
    assert_eq!(extract_tag_block("x<t>in", "t"), "");
    assert_eq!(extract_tag_block("</t><t>", "t"), "");
    assert_eq!(extract_memory_keys(PROMPT), vec!["alpha".to_string(), "beta".to_string()]);
}

#[test]
fn mock_templates_fill_from_the_system_prompt() {
    let text = resolve_mock_template(
        "[{{latest_user}}] {{memory_count}}: {{memory_keys}} {{skills_block}}",
        PROMPT,
        "hi",
    );
    assert_eq!(text, "[hi] 2: alpha, beta <available_skills>s</available_skills>");
    assert!(resolve_mock_template("{{memory_block}}", PROMPT, "").starts_with("<agent_memory>\n<memory"));
}

#[test]
fn latest_user_text_and_plan_come_from_user_messages() {
    let messages = vec![
        parse(r#"{"role": "user", "content": "{\"mock_plan\": {\"steps\": [{\"text\": \"one\"}]}}"}"#),
        parse(r#"{"role": "assistant", "content": "{\"steps\": []}"}"#),
        parse(r#"{"role": "user", "content": [{"type": "text", "text": "later"}]}"#),
    ];
    assert_eq!(latest_user_text(&messages).as_deref(), Some(r#"[{"text":"later","type":"text"}]"#));
    let plan = extract_mock_plan(&messages).unwrap();
    assert_eq!(plan.len(), 1);
    assert!(!mock_plan_requests_hang(&messages));
    let hang = vec![parse(r#"{"role": "user", "content": "please [mock-hang]"}"#)];
    assert!(mock_plan_requests_hang(&hang));
    let hang_step = vec![parse(r#"{"role": "user", "content": "{\"steps\": [{\"mode\": \"hang\"}]}"}"#)];
    assert!(mock_plan_requests_hang(&hang_step));
}

#[test]
fn plan_steps_with_calls_reply_with_tool_use() {
    let messages = vec![parse(r#"{"role": "user", "content": "go"}"#)];
    let step = parse(r#"{"text": "ok {{latest_user}}", "tool_calls": [{"name": "execute", "input": {"code": "1"}}, {"id": "given"}]}"#);
    let r = build_mock_step_response(&messages, "", 3, &step).unwrap();
    assert_eq!(r.stop_reason, "tool_use");
    let content = to_value(&r.content);
    assert_eq!(content[0]["text"], "ok go");
    assert_eq!(content[1]["id"], "mock-tool-3-0");
    assert_eq!(content[1]["name"], "execute");
    assert_eq!(content[2]["id"], "given");
    assert_eq!(content[2]["name"], "unknown_tool");
    assert_eq!(r.input_tokens, 2);
    assert_eq!(r.output_tokens, serde_json::to_string(&content).unwrap().len() as i64);
}

#[test]
fn plan_steps_without_calls_reply_with_their_final_text() {
    let messages = vec![parse(r#"{"role": "user", "content": "go"}"#)];
    let r = build_mock_step_response(&messages, "", 0, &parse(r#"{"final_text": "done", "text": "t"}"#)).unwrap();
    assert_eq!(r.stop_reason, "end_turn");
    assert_eq!(to_value(&r.content), serde_json::from_str::<Value>(r#"[{"type": "text", "text": "done"}]"#).unwrap());
    let r = build_mock_step_response(&messages, "", 0, &parse(r#"{"final_text": 5}"#)).unwrap();
    assert_eq!(to_value(&r.content)[0]["text"], "mock provider completed");
    let r = build_mock_step_response(&messages, "", 0, &parse(r#"{"mode": "hang"}"#)).unwrap();
    assert_eq!(to_value(&r.content)[0]["text"], "mock hang placeholder");
    let t = mock_text_response(&messages, "héllo".to_string());
    assert_eq!(t.output_tokens, 6);
}

#[test]
fn provider_keys_come_from_the_first_filled_setting() {
    let config = parse(r#"{"anthropic_api_key": "  ", "anthropic_api_token": " tok ", "api_key": "k"}"#);
    assert_eq!(resolve_provider_api_key(&config, "anthropic"), Ok("tok".to_string()));
    assert_eq!(resolve_provider_api_key(&config, "openai"), Ok("k".to_string()));
    assert_eq!(resolve_provider_api_key(&config, "openai_codex"), Ok(String::new()));
    assert_eq!(
        resolve_provider_api_key(&config, "gemini"),
        Err("unsupported LLM provider: gemini".to_string())
    );
    assert_eq!(first_non_empty(&vec![None, Some(" ".to_string()), Some(" x ".to_string())]), "x");
    assert!(detect_anthropic_oauth_mode("key", " Bearer "));
    assert!(!detect_anthropic_oauth_mode("sk-ant-oat", "auto"));
}
