use os_apps::json::{Json, JsonNumber};
use os_apps::prepare;
use os_apps::tools::{
    build_method_listing, build_sdk_reference, build_tool_definitions, enabled_tool_set,
    has_sandbox_surface, normalize_tool_token,
};
use serde_json::Value;

fn to_value(j: &Json) -> Value {
    match j {
        Json::Null => Value::Null,
        Json::Bool(b) => Value::Bool(*b),
        Json::Number(JsonNumber::PosInt(u)) => Value::from(*u),
        Json::Number(JsonNumber::NegInt(i)) => Value::from(*i),
        Json::Number(JsonNumber::Float { text, .. }) => serde_json::from_str(text).unwrap(),
        Json::String(s) => Value::String(s.clone()),
        Json::Array(items) => Value::Array(items.iter().map(to_value).collect()),
        Json::Object(members) => {
            Value::Object(members.iter().map(|(k, v)| (k.clone(), to_value(v))).collect())
        }
    }
}

fn description(tools: &[Json]) -> String {
    to_value(&tools[0])
        .get("description")
        .and_then(Value::as_str)
        .unwrap_or("")
        .to_string()
}

#[test]
fn enabled_tool_set_normalizes_legacy_aliases() {
    let enabled = enabled_tool_set("spawn_agent,save_memory,read_entity,temper_file_upload");
    assert!(enabled.contains(&"temper_spawn_session".to_string()));
    assert!(enabled.contains(&"temper_save_memory".to_string()));
    assert!(enabled.contains(&"temper_get".to_string()));
    assert!(enabled.contains(&"temper_write".to_string()));
}

#[test]
fn enabled_tool_set_trims_skips_blanks_and_keeps_each_once() {
    let enabled = enabled_tool_set(" bash , ,spawn_session,spawn_agent,bash,");
    assert_eq!(enabled.len(), 2);
    assert!(enabled.contains(&"bash".to_string()));
    assert!(enabled.contains(&"temper_spawn_session".to_string()));
    assert!(enabled_tool_set("  ,  ").is_empty());
    assert_eq!(normalize_tool_token("recall_memory"), "temper_recall_memory");
    assert_eq!(normalize_tool_token("custom"), "custom");
}

#[test]
fn build_tool_definitions_hides_disabled_methods() {
    let tools = build_tool_definitions("temper_get,temper_list", "", "/workspace");
    let description = description(&tools);

    assert!(description.contains("temper.get(entity_set, entity_id)"));
    assert!(description.contains("temper.list(entity_set, filter_str)"));
    assert!(!description.contains("temper.submit_specs(files_dict)"));
    assert!(!description.contains("sandbox.bash(command)"));
}

#[test]
fn build_tool_definitions_explains_submit_specs_requirements() {
    let tools = build_tool_definitions("temper_submit_specs", "", "/workspace");
    let description = description(&tools);

    assert!(description.contains("temper.submit_specs(files_dict)"));
    assert!(description.contains("model.csdl.xml"));
    assert!(description.contains("nested paths allowed"));
}

#[test]
fn build_tool_definitions_keeps_always_available_methods() {
    let tools = build_tool_definitions("", "", "/workspace");
    let description = description(&tools);

    assert!(description.contains("temper.done(result)"));
    assert!(description.contains("temper.switch_mode({\"mode\": \"plan\"})"));
    assert!(description.contains("temper.get_session_id()"));
}

#[test]
fn execute_tool_has_a_code_input_schema() {
    let tool = to_value(&build_tool_definitions("bash", "", "/w")[0]);
    assert_eq!(tool["name"], "execute");
    assert_eq!(tool["input_schema"]["type"], "object");
    assert_eq!(tool["input_schema"]["properties"]["code"]["type"], "string");
    assert_eq!(tool["input_schema"]["required"][0], "code");
}

#[test]
fn method_listing_is_one_line_per_available_method() {
    let enabled = enabled_tool_set("bash");
    let listing = build_method_listing(&enabled);
    let lines: Vec<&str> = listing.lines().collect();
    assert_eq!(lines[0], "- sandbox.bash(command) -> run shell command, returns stdout");
    // bash plus the six methods that need no token.
    assert_eq!(lines.len(), 7);
    assert!(has_sandbox_surface(&enabled));
    assert!(!has_sandbox_surface(&enabled_tool_set("temper_get")));
}

#[test]
fn build_sdk_reference_mentions_lazy_sandbox_when_enabled() {
    let sdk = build_sdk_reference("bash", "", "/workspace");
    assert!(sdk.contains("sandbox` (remote shell/files, provisioned on demand"));
}

#[test]
fn sdk_reference_shapes_follow_the_sandbox() {
    let ready = build_sdk_reference("bash", "http://sandbox", "/w");
    assert!(ready.contains("`sandbox` (remote shell/files)."));
    assert!(ready.contains("### Clone and explore"));
    assert!(ready.contains("- Sandbox working directory: /w\n\n## Examples\n"));
    assert!(ready.ends_with("</temper_sdk>"));
    let none = build_sdk_reference("temper_get", "", "/w");
    assert!(none.contains("One object is available: `temper` (platform API)."));
    assert!(!none.contains("### Clone and explore"));
}

#[test]
fn build_tool_definitions_reflect_enabled_methods() {
    let tools = prepare::build_tool_definitions("temper_get,temper_list", "", "/workspace");
    let description = description(&tools);

    assert!(description.contains("temper.get(entity_set, entity_id)"));
    assert!(description.contains("temper.list(entity_set, filter_str)"));
    assert!(description.contains("Treat each call as self-contained"));
    assert!(!description.contains("Variables persist across calls"));
    assert!(!description.contains("temper.submit_specs(files_dict)"));
}

#[test]
fn build_tool_definitions_empty_when_no_tools_enabled() {
    assert!(prepare::build_tool_definitions("", "", "/workspace").is_empty());
    assert!(prepare::build_sdk_reference("", "", "/workspace").is_empty());
}

#[test]
fn prepared_sdk_reference_uses_its_own_rules() {
    let sdk = prepare::build_sdk_reference("temper_get", "", "/w");
    assert!(sdk.contains("Treat each execute call as self-contained."));
    assert!(sdk.contains("TemperPaw.PM.MoveToTriage"));
}

#[test]
fn render_skill_index_avoids_body_injection() {
    let block = prepare::render_skill_index(vec![
        (
            "file-1".to_string(),
            "/system/skills/platform-awareness/SKILL.md".to_string(),
            "os-app-docs".to_string(),
        ),
        (
            "file-2".to_string(),
            "/agents/paw/skills/platform-awareness/SKILL.md".to_string(),
            "agent-docs".to_string(),
        ),
    ]);

    assert!(block.contains("mode=\"index\""));
    assert!(block.contains("path=\"/agents/paw/skills/platform-awareness/SKILL.md\""));
    assert!(block.contains("workspace_id=\"agent-docs\""));
    assert!(!block.contains("file-1"));
    assert!(!block.contains("</skill>"));
}

#[test]
fn skill_index_orders_by_name_and_keeps_one_per_name() {
    let block = prepare::render_skill_index(vec![
        ("a".to_string(), "/system/skills/zeta/SKILL.md".to_string(), String::new()),
        ("b".to_string(), "/projects/p/skills/alpha/SKILL.md".to_string(), "w&1".to_string()),
        ("c".to_string(), "/system/skills/alpha/SKILL.md".to_string(), String::new()),
    ]);
    assert_eq!(
        block,
        "<available_skills mode=\"index\">\n  <skill name=\"alpha\" path=\"/projects/p/skills/alpha/SKILL.md\" workspace_id=\"w&amp;1\" />\n  <skill name=\"zeta\" path=\"/system/skills/zeta/SKILL.md\" />\n</available_skills>"
    );
}
