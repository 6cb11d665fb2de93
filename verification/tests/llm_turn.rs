use os_apps::callback::{conversation_messages, read_llm_reply, read_openrouter_reply, turn_budget_refusal};
use os_apps::emission::{
    declared_transcript, emission_agent, emission_error, emission_failed_result, emitted_result,
    session_status, terminal_refusal, trajectory_id, upload_accepted, upload_failure,
};
use os_apps::json::{Json, JsonNumber};
use os_apps::prompt::{exceeds_live_context, max_live_context_bytes, prepared_context_bytes};
use os_apps::skills_block::{render_skills_block, skill_listing, skill_listing_url, skill_prefixes, SkillRead};
use serde_json::Value;

fn to_json(v: &Value) -> Json {
    match v {
        Value::Null => Json::Null,
        Value::Bool(b) => Json::Bool(*b),
        Value::Number(n) => Json::Number(JsonNumber::PosInt(n.as_u64().unwrap())),
        Value::String(s) => Json::String(s.clone()),
        Value::Array(items) => Json::Array(items.iter().map(to_json).collect()),
        Value::Object(map) => Json::Object(map.iter().map(|(k, v)| (k.clone(), to_json(v))).collect()),
    }
}

fn to_value(j: &Json) -> Value {
    match j {
        Json::Null => Value::Null,
        Json::Bool(b) => Value::Bool(*b),
        Json::Number(JsonNumber::PosInt(u)) => Value::from(*u),
        Json::Number(JsonNumber::NegInt(i)) => Value::from(*i),
        Json::Number(JsonNumber::Float { text, .. }) => serde_json::from_str(text).unwrap(),
        Json::String(s) => Value::String(s.clone()),
        Json::Array(items) => Value::Array(items.iter().map(to_value).collect()),
        Json::Object(members) => {
            Value::Object(members.iter().map(|(k, v)| (k.clone(), to_value(v))).collect())
        }
    }
}

fn json(text: &str) -> Json {
    to_json(&serde_json::from_str::<Value>(text).unwrap())
}

#[test]
fn inline_conversation_falls_back_to_the_first_turn() {
    let msgs = conversation_messages(r#"[{"role": "user", "content": "a"}, {"role": "assistant", "content": "b"}]"#, "x");
    assert_eq!(msgs.len(), 2);
    assert_eq!(to_value(&msgs[1])["content"], "b");
    for text in ["", "not json", r#"{"role": "user"}"#] {
        let msgs = conversation_messages(text, "first task");
        assert_eq!(msgs.len(), 1);
        assert_eq!(to_value(&msgs[0]), serde_json::from_str::<Value>(r#"{"role": "user", "content": "first task"}"#).unwrap());
    }
}

#[test]
fn reply_bodies_parse_or_name_the_error() {
    assert!(read_llm_reply(r#"{"content": []}"#).is_ok());
    let e = read_llm_reply("{oops").unwrap_err();
    assert!(e.starts_with("failed to parse LLM response: "));
    assert!(e.len() > "failed to parse LLM response: ".len());
    assert!(read_openrouter_reply("[").unwrap_err().starts_with("failed to parse OpenRouter response: "));
}

#[test]
fn turn_budget_fails_once_reached() {
    assert_eq!(turn_budget_refusal(&json(r#"{"turn_count": 3}"#)), None);
    assert_eq!(turn_budget_refusal(&json(r#"{"turn_count": 3, "max_turns": "5"}"#)), None);
    assert_eq!(
        turn_budget_refusal(&json(r#"{"turn_count": 5, "max_turns": "5"}"#)),
        Some("turn budget exceeded (turn_count=5, max_turns=5)".to_string())
    );
    assert_eq!(
        turn_budget_refusal(&json(r#"{"turn_count": "7", "max_turns": 6}"#)),
        Some("turn budget exceeded (turn_count=7, max_turns=6)".to_string())
    );
    assert_eq!(turn_budget_refusal(&json(r#"{"turn_count": 9, "max_turns": "0"}"#)), None);
}

#[test]
fn prepared_context_size_and_live_limit() {
    let msgs = vec![json(r#"{"role": "user", "content": "hi"}"#)];
    let tools = vec![json(r#"{"name": "execute"}"#)];
    let expected = "sys".len()
        + serde_json::to_string(&vec![to_value(&msgs[0])]).unwrap().len()
        + serde_json::to_string(&vec![to_value(&tools[0])]).unwrap().len();
    assert_eq!(prepared_context_bytes(&msgs, &tools, "sys"), expected as u128);
    assert_eq!(prepared_context_bytes(&Vec::new(), &Vec::new(), ""), 4);
    assert!(exceeds_live_context(101, 100));
    assert!(!exceeds_live_context(100, 100));
    let empty = json("{}");
    assert_eq!(max_live_context_bytes(&empty, &empty), 48 * 1024 * 1024);
    assert_eq!(max_live_context_bytes(&json(r#"{"max_live_context_bytes": "1000"}"#), &empty), 1000);
    assert_eq!(
        max_live_context_bytes(&json(r#"{"max_live_context_bytes": "lots"}"#), &json(r#"{"max_live_context_bytes": "77"}"#)),
        77
    );
}

#[test]
fn skill_listing_keeps_items_with_ids() {
    let files = skill_listing(
        r#"{"value": [{"Id": "f1", "Path": "/system/skills/a/SKILL.md"}, {"path": "/x"},
            {"fields": {"entity_id": "f2", "path": "/agents/ag/skills/b/SKILL.md", "workspace_id": "ws"}}]}"#,
    );
    assert_eq!(
        files,
        vec![
            ("f1".to_string(), "/system/skills/a/SKILL.md".to_string(), String::new()),
            ("f2".to_string(), "/agents/ag/skills/b/SKILL.md".to_string(), "ws".to_string()),
        ]
    );
    assert!(skill_listing("not json").is_empty());
    assert_eq!(
        skill_prefixes("pj", ""),
        vec!["/system/skills/".to_string(), "/projects/pj/skills/".to_string()]
    );
    assert_eq!(
        skill_listing_url("http://t", "/system/skills/"),
        "http://t/tdata/Files?$filter=startswith(path,'/system/skills/') and name eq 'SKILL.md' and Status ne 'Archived'"
    );
}

fn read(path: &str, ws: &str, content: Option<&str>) -> SkillRead {
    SkillRead {
        file_id: format!("id-{path}"),
        path: path.to_string(),
        workspace_id: ws.to_string(),
        content: content.map(str::to_string),
    }
}

#[test]
fn skills_block_keeps_the_most_specific_scope() {
    let files = vec![
        read("/system/skills/deploy/SKILL.md", "", Some("---\nname: deploy\ndescription: Ship it\n---\nBody text")),
        read("/agents/ag/skills/deploy/SKILL.md", "ws-1", None),
        read("/projects/pj/skills/notes/SKILL.md", "", None),
    ];
    assert_eq!(
        render_skills_block(files, false),
        "<available_skills>\n  <skill name=\"deploy\" description=\"\" path=\"/agents/ag/skills/deploy/SKILL.md\" workspace_id=\"ws-1\" />\n  <skill name=\"notes\" description=\"\" path=\"/projects/pj/skills/notes/SKILL.md\" />\n</available_skills>"
    );
    let files = vec![read("/system/skills/deploy/SKILL.md", "", Some("---\nname: deploy\ndescription: A & B\n---\nBody text"))];
    assert_eq!(
        render_skills_block(files, false),
        "<available_skills>\n  <skill name=\"deploy\" description=\"A &amp; B\" path=\"/system/skills/deploy/SKILL.md\">\nBody text\n  </skill>\n</available_skills>"
    );
    let unread = vec![read("/agents/ag/skills/x/SKILL.md", "", None), read("/system/skills/y/SKILL.md", "", Some(""))];
    assert_eq!(render_skills_block(unread, true), "");
}

#[test]
fn emission_decisions() {
    assert_eq!(session_status(&json(r#"{"status": "Completed"}"#)), "Completed");
    assert_eq!(terminal_refusal("ss-1", "Failed"), None);
    assert_eq!(
        terminal_refusal("ss-1", "Running"),
        Some("emit_ots_trajectory: session ss-1 not in terminal state (status=Running)".to_string())
    );
    assert_eq!(trajectory_id(&json("{}"), "ss-1"), "trj-ss-1");
    assert_eq!(trajectory_id(&json(r#"{"trajectory_id": "trj-x"}"#), "ss-1"), "trj-x");
    assert_eq!(emission_agent(&json("{}"), "ss-1"), "ss-1");
    assert_eq!(declared_transcript(&json(r#"{"session_file_id": ""}"#)), None);
    assert_eq!(declared_transcript(&json(r#"{"session_file_id": "f"}"#)), Some("f".to_string()));
    let ok = to_value(&emitted_result("trj-1", &Vec::new()));
    assert_eq!(ok["trajectory_emission_status"], "emitted");
    assert_eq!(ok["trajectory_emission_error"], "");
    let degraded = to_value(&emitted_result("trj-1", &vec!["a".to_string(), "b".to_string()]));
    assert_eq!(degraded["trajectory_emission_status"], "emitted_degraded");
    assert_eq!(degraded["trajectory_emission_error"], "a,b");
    assert_eq!(to_value(&emission_failed_result("boom"))["trajectory_emission_status"], "failed");
    assert!(upload_accepted(201));
    assert!(!upload_accepted(500));
    assert_eq!(upload_failure(500, "down"), "POST /api/ots/trajectories failed (HTTP 500): down");
    assert_eq!(emission_error("ss-1", "x"), "emit_ots_trajectory failed for ss-1: x");
}

#[test]
fn negative_non_integers_read_as_no_unsigned_value() {
    assert!(os_apps::json::renders_negative("-0.5"));
    assert!(os_apps::json::renders_negative("-1e-7"));
    assert!(!os_apps::json::renders_negative("-0.0"));
    assert!(!os_apps::json::renders_negative("2.5"));
    let float = |text: &str, f: f64| Json::Number(JsonNumber::Float { text: text.to_string(), as_i64: f as i64, as_u64: f as u64 });
    assert_eq!(os_apps::session::json_u64(&float("2.7", 2.7)), Some(2));
    assert_eq!(os_apps::session::json_u64(&float("-0.5", -0.5)), None);
    assert_eq!(os_apps::session::json_u64(&float("-0.0", -0.0)), Some(0));
}
