use os_apps::compaction::{ContextRef, EntryType};
use os_apps::json::{Json, JsonNumber};
use os_apps::prepare::render_context_refs;
use serde_json::Value;

fn to_value(j: &Json) -> Value {
    match j {
        Json::Null => Value::Null,
        Json::Bool(b) => Value::Bool(*b),
        Json::Number(JsonNumber::PosInt(u)) => Value::from(*u),
        Json::Number(JsonNumber::NegInt(i)) => Value::from(*i),
        Json::Number(JsonNumber::Float { text, .. }) => serde_json::from_str(text).unwrap(),
        Json::String(s) => Value::String(s.clone()),
        Json::Array(items) => Value::Array(items.iter().map(to_value).collect()),
        Json::Object(members) => {
            Value::Object(members.iter().map(|(k, v)| (k.clone(), to_value(v))).collect())
        }
    }
}

fn entry(id: &str, role: &str, stored: bool, entry_type: EntryType, inline: Option<&str>, summary: Option<&str>) -> ContextRef {
    ContextRef {
        entry_id: id.to_string(),
        role: role.to_string(),
        content_file_id: if stored { Some(format!("{id}-file")) } else { None },
        content_file_version_id: None,
        entry_type,
        inline_content: inline.map(|t| Json::String(t.to_string())),
        inline_summary: summary.map(str::to_string),
    }
}

#[test]
fn prepared_context_renders_files_inline_content_and_summaries() {
    let refs = vec![
        entry("h", "system", false, EntryType::Header, None, None),
        entry("c", "user", true, EntryType::Compaction, None, Some("kept")),
        entry("m", "assistant", true, EntryType::Message, Some("fallback"), None),
        entry("s", "user", false, EntryType::Steering, Some("steer"), None),
        entry("j", "user", true, EntryType::Message, None, None),
    ];
    let reads = vec![
        Ok(String::new()),
        Err("gone".to_string()),
        Ok(String::new()),
        Ok("unused".to_string()),
        Ok("[1,2]".to_string()),
    ];
    let rendered: Vec<Value> = render_context_refs(&refs, &reads).unwrap().iter().map(to_value).collect();
    assert_eq!(rendered.len(), 4);
    assert_eq!(rendered[0]["content"], "[Previous conversation summary]\nkept");
    assert_eq!(rendered[1]["content"], "fallback");
    assert_eq!(rendered[2]["content"], "steer");
    assert_eq!(rendered[3]["content"][1], 2);
}

#[test]
fn a_failed_message_read_fails_the_prepared_context() {
    let refs = vec![
        entry("m1", "user", true, EntryType::Message, None, None),
        entry("m2", "user", true, EntryType::Message, None, None),
    ];
    let reads = vec![Err("first".to_string()), Err("second".to_string())];
    assert_eq!(render_context_refs(&refs, &reads).err(), Some("first".to_string()));
}
