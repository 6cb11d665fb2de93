use os_apps::json::{Json, JsonNumber};
use os_apps::prepare::build_sdk_reference;
use os_apps::prompt::{
    assemble_system_prompt, bool_field_or_config, check_phase_budget, choose_prompt_source,
    compute_system_prompt_hash, configured_budget_ms, configured_string, model_context_window,
    needs_compaction, plan_prompt_loads, render_memory_block, resolve_temper_api_url,
    session_metric_tags, CachedPrompt, PromptSections, PromptSource, PLAN_MODE_FALLBACK,
};
use serde_json::Value;

fn to_json(v: &Value) -> Json {
    match v {
        Value::Null => Json::Null,
        Value::Bool(b) => Json::Bool(*b),
        Value::Number(n) => Json::Number(match (n.as_u64(), n.as_i64()) {
            (Some(u), _) => JsonNumber::PosInt(u),
            (None, Some(i)) => JsonNumber::NegInt(i),
            _ => JsonNumber::Float {
                text: n.to_string(),
                as_i64: n.as_f64().map_or(0, |f| f as i64),
                as_u64: n.as_f64().map_or(0, |f| f as u64),
            },
        }),
        Value::String(s) => Json::String(s.clone()),
        Value::Array(items) => Json::Array(items.iter().map(to_json).collect()),
        Value::Object(map) => Json::Object(map.iter().map(|(k, v)| (k.clone(), to_json(v))).collect()),
    }
}

fn json(text: &str) -> Json {
    to_json(&serde_json::from_str::<Value>(text).unwrap())
}

fn no_sections() -> PromptSections {
    PromptSections {
        soul: Ok(String::new()),
        agent_instructions: Ok(String::new()),
        harness: Ok(String::new()),
        skills: Ok(String::new()),
        plan_mode: Ok(String::new()),
        active_plan: Ok(String::new()),
        memory: Ok(String::new()),
    }
}

#[test]
fn prompt_hash_is_fnv1a_over_the_joined_inputs() {
    let h = compute_system_prompt_hash(
        "soul-1", "agent-1", "harness-1", "project-1", "execute", "", "index", "read,write", "",
        "/workspace", "",
    );
    assert_eq!(h, "6f4855210505a734");
    assert_eq!(compute_system_prompt_hash("", "", "", "", "", "", "", "", "", "", ""), "2d746f3fc64016a5");
    assert_eq!(compute_system_prompt_hash("é", "", "", "", "", "", "", "", "", "", ""), "ed9b5c4037f64c61");
}

#[test]
fn prompt_hash_changes_with_any_input() {
    let plan = compute_system_prompt_hash(
        "soul-1", "agent-1", "harness-1", "project-1", "plan", "", "index", "read,write", "",
        "/workspace", "",
    );
    assert_eq!(plan, "3a3002ccf054e15c");
    assert_eq!(plan.len(), 16);
}

#[test]
fn configured_string_trims_lowercases_and_falls_back() {
    let fields = json(r#"{"skills_prompt_mode": "  FULL "}"#);
    let empty = json("{}");
    assert_eq!(configured_string(&fields, &empty, "skills_prompt_mode", "index"), "full");
    let config = json(r#"{"skills_prompt_mode": "Off"}"#);
    assert_eq!(configured_string(&empty, &config, "skills_prompt_mode", "index"), "off");
    let blank = json(r#"{"skills_prompt_mode": "   "}"#);
    assert_eq!(configured_string(&blank, &config, "skills_prompt_mode", "Index"), "index");
    assert_eq!(configured_string(&empty, &empty, "skills_prompt_mode", "INDEX"), "index");
}

#[test]
fn switch_settings_accept_one_true_and_yes() {
    let empty = json("{}");
    for (text, expected) in [(" Yes ", true), ("TRUE", true), ("1", true), ("0", false), ("on", false)] {
        let fields = json(&format!("{{\"flag\": \"{text}\"}}"));
        assert_eq!(bool_field_or_config(&fields, &empty, "flag", !expected), expected, "{text}");
    }
    assert!(bool_field_or_config(&empty, &empty, "flag", true));
    let config = json(r#"{"flag": "yes"}"#);
    assert!(bool_field_or_config(&empty, &config, "flag", false));
}

#[test]
fn budget_reads_positive_integers_only() {
    let empty = json("{}");
    let fields = json(r#"{"budget": "5000"}"#);
    assert_eq!(configured_budget_ms(&fields, &empty, "budget", 120_000), 5000);
    let bad = json(r#"{"budget": "soon"}"#);
    let config = json(r#"{"budget": "7000"}"#);
    assert_eq!(configured_budget_ms(&bad, &config, "budget", 120_000), 7000);
    let negative = json(r#"{"budget": "-5"}"#);
    assert_eq!(configured_budget_ms(&negative, &config, "budget", 120_000), 120_000);
    assert_eq!(configured_budget_ms(&empty, &empty, "budget", 120_000), 120_000);
}

#[test]
fn phase_budget_fails_only_past_the_budget() {
    assert_eq!(check_phase_budget("context_preparer", 100, 100, "load_messages"), Ok(()));
    assert_eq!(
        check_phase_budget("context_preparer", 150, 100, "load_messages"),
        Err("context_preparer: exceeded local budget after load_messages (elapsed_ms=150, budget_ms=100)"
            .to_string())
    );
}

#[test]
fn temper_api_url_prefers_the_session_then_a_resolved_config() {
    let empty = json("{}");
    let fields = json(r#"{"temper_api_url": "http://api:9000"}"#);
    assert_eq!(resolve_temper_api_url(&fields, &empty), "http://api:9000");
    let config = json(r#"{"temper_api_url": "http://cfg:8000"}"#);
    let blank = json(r#"{"temper_api_url": ""}"#);
    assert_eq!(resolve_temper_api_url(&blank, &config), "http://cfg:8000");
    let secret = json(r#"{"temper_api_url": "{secret:url}"}"#);
    assert_eq!(resolve_temper_api_url(&empty, &secret), "http://127.0.0.1:3000");
    assert_eq!(resolve_temper_api_url(&empty, &empty), "http://127.0.0.1:3000");
}

#[test]
fn prompt_loads_follow_the_session_state() {
    let state = json(
        r#"{"entity_id": "ss-1", "fields": {"AgentId": "ag-1", "project_id": "pj-1",
            "session_mode": "execute", "active_plan_id": "pl-1", "skills_prompt_mode": "Bodies"}}"#,
    );
    let loads = plan_prompt_loads(&state, &json("{}"), "soul-1");
    assert_eq!(loads.soul_id.as_deref(), Some("soul-1"));
    assert_eq!(loads.agent_id, "ag-1");
    assert_eq!(loads.project_harness_id, "");
    assert_eq!(loads.project_id, "pj-1");
    assert_eq!(loads.skills, Some(true));
    assert!(!loads.plan_mode);
    assert_eq!(loads.active_plan_id.as_deref(), Some("pl-1"));
    assert_eq!(loads.memory_entity_id, "ss-1");

    let plan_state = json(r#"{"fields": {"session_mode": "plan", "active_plan_id": "pl-1"}}"#);
    let config = json(r#"{"skills_prompt_mode": "off"}"#);
    let loads = plan_prompt_loads(&plan_state, &config, "");
    assert_eq!(loads.soul_id, None);
    assert_eq!(loads.skills, None);
    assert!(loads.plan_mode);
    assert_eq!(loads.active_plan_id, None);
    assert_eq!(loads.memory_entity_id, "");
}

#[test]
fn system_prompt_joins_loaded_sections_and_skips_failures() {
    let mut sections = no_sections();
    sections.soul = Ok("SOUL".to_string());
    sections.agent_instructions = Err("unreachable".to_string());
    sections.harness = Ok("HARNESS".to_string());
    sections.active_plan = Ok("step 1".to_string());
    sections.memory = Ok("MEM".to_string());
    let prompt = assemble_system_prompt("execute", "OVERRIDE", "", "", "/workspace", &sections);
    assert_eq!(prompt, "SOUL\n\nOVERRIDE\n\nHARNESS\n\n<active_plan>\nstep 1\n</active_plan>\n\nMEM");
}

#[test]
fn plan_mode_falls_back_to_builtin_instructions() {
    let mut sections = no_sections();
    sections.plan_mode = Err("missing".to_string());
    sections.active_plan = Ok("ignored in plan mode".to_string());
    let prompt = assemble_system_prompt("plan", "", "", "", "/workspace", &sections);
    assert_eq!(prompt, PLAN_MODE_FALLBACK);
    sections.plan_mode = Ok("STORED PLAN RULES".to_string());
    assert_eq!(assemble_system_prompt("plan", "", "", "", "/workspace", &sections), "STORED PLAN RULES");
}

#[test]
fn system_prompt_ends_with_the_sdk_reference_when_tools_are_enabled() {
    let sections = no_sections();
    let prompt = assemble_system_prompt("execute", "BASE", "read,bash", "http://sb", "/w", &sections);
    let sdk = build_sdk_reference("read,bash", "http://sb", "/w");
    assert!(!sdk.is_empty());
    assert_eq!(prompt, format!("BASE\n\n{sdk}"));
    assert_eq!(assemble_system_prompt("execute", "", "", "", "/w", &sections), "");
}

#[test]
fn memory_block_lists_each_memory_with_defaults() {
    let memories = match json(
        r#"[{"Key": "tz", "Content": "UTC", "MemoryType": "user"}, {"fields": {"Content": "likes tea"}}]"#,
    ) {
        Json::Array(items) => items,
        _ => unreachable!(),
    };
    assert_eq!(
        render_memory_block(&memories),
        "<agent_memory>\n  <memory key=\"tz\" type=\"user\">\n    UTC\n  </memory>\n  <memory key=\"unknown\" type=\"reference\">\n    likes tea\n  </memory>\n</agent_memory>"
    );
    assert_eq!(render_memory_block(&Vec::new()), "");
}

#[test]
fn compaction_is_needed_past_the_window_less_the_reserve() {
    assert_eq!(model_context_window("any-model"), 200_000);
    assert!(!needs_compaction(180_000, "m", 20_000));
    assert!(needs_compaction(180_001, "m", 20_000));
    assert!(needs_compaction(1, "m", 300_000));
    assert!(!needs_compaction(0, "m", 300_000));
}

#[test]
fn prompt_source_prefers_inline_then_file_then_assembly() {
    let cached = CachedPrompt {
        system_prompt_hash: "h1".to_string(),
        system_prompt: "cached prompt".to_string(),
        system_prompt_file_id: "f1".to_string(),
    };
    assert_eq!(choose_prompt_source("h1", Some(&cached), "h1", "f1"), PromptSource::Inline);
    assert_eq!(choose_prompt_source("h2", Some(&cached), "h2", "f2"), PromptSource::CacheFile);
    assert_eq!(choose_prompt_source("h2", Some(&cached), "h2", ""), PromptSource::Assemble);
    assert_eq!(choose_prompt_source("h2", None, "h1", "f1"), PromptSource::Assemble);
    let empty_prompt = CachedPrompt { system_prompt: String::new(), ..cached };
    assert_eq!(choose_prompt_source("h1", Some(&empty_prompt), "", ""), PromptSource::Assemble);
}

#[test]
fn metric_tags_carry_provider_and_model() {
    match session_metric_tags("anthropic", "m-1") {
        Json::Object(members) => {
            assert_eq!(members.len(), 2);
            assert_eq!(members[0].0, "provider");
            assert!(matches!(&members[1], (k, Json::String(v)) if k == "model" && v == "m-1"));
        }
        _ => panic!("tags are an object"),
    }
}
