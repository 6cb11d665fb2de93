use os_apps::approval::{
    agent_session_url, approval_notice, approval_result, channel_webhook, connected_channel_url,
    first_listed_entity, read_approved_action, retry_outcome, session_thread, webhook_body,
};
use os_apps::json::{Json, JsonNumber};
use os_apps::reply::{listed_soul_name, soul_by_id_url, soul_by_name_url, soul_entity_name};
use serde_json::Value;

fn to_json(v: &Value) -> Json {
    match v {
        Value::Null => Json::Null,
        Value::Bool(b) => Json::Bool(*b),
        Value::Number(n) => Json::Number(JsonNumber::PosInt(n.as_u64().unwrap())),
        Value::String(s) => Json::String(s.clone()),
        Value::Array(items) => Json::Array(items.iter().map(to_json).collect()),
        Value::Object(map) => Json::Object(map.iter().map(|(k, v)| (k.clone(), to_json(v))).collect()),
    }
}

fn to_value(j: &Json) -> Value {
    match j {
        Json::Null => Value::Null,
        Json::Bool(b) => Value::Bool(*b),
        Json::Number(JsonNumber::PosInt(u)) => Value::from(*u),
        Json::Number(JsonNumber::NegInt(i)) => Value::from(*i),
        Json::Number(JsonNumber::Float { text, .. }) => serde_json::from_str(text).unwrap(),
        Json::String(s) => Value::String(s.clone()),
        Json::Array(items) => Value::Array(items.iter().map(to_value).collect()),
        Json::Object(members) => {
            Value::Object(members.iter().map(|(k, v)| (k.clone(), to_value(v))).collect())
        }
    }
}

fn json(text: &str) -> Json {
    to_json(&serde_json::from_str::<Value>(text).unwrap())
}

#[test]
fn approved_action_reads_either_spelling_with_defaults() {
    let a = read_approved_action(&json(
        r#"{"TargetUrl": "http://t/x", "action_description": "delete file", "fields": {"AgentEntityId": "ag-1"}}"#,
    ));
    assert_eq!(a.target_url, "http://t/x");
    assert_eq!(a.target_body, "{}");
    assert_eq!(a.action_description, "delete file");
    assert_eq!(a.agent_entity_id, "ag-1");
    assert_eq!(a.reviewer_id, "unknown");
}

#[test]
fn retry_outcome_summarises_success_and_failure() {
    assert_eq!(retry_outcome(204, "ignored"), (true, "Action succeeded (HTTP 204)".to_string()));
    assert_eq!(retry_outcome(403, "forbidden"), (false, "Action failed (HTTP 403): forbidden".to_string()));
    let long = "x".repeat(250);
    let (ok, summary) = retry_outcome(500, &long);
    assert!(!ok);
    assert_eq!(summary, format!("Action failed (HTTP 500): {}", "x".repeat(200)));
    assert_eq!(retry_outcome(300, "moved").0, false);
    assert_eq!(retry_outcome(199, "").1, "Action failed (HTTP 199): ");
}

#[test]
fn notices_and_results_name_the_action() {
    assert_eq!(approval_notice(true, "delete file", "unused"), "**Approved and executed**: delete file");
    assert_eq!(
        approval_notice(false, "delete file", "Action failed (HTTP 500): boom"),
        "**Approved but failed**: delete file\nAction failed (HTTP 500): boom"
    );
    let r = to_value(&approval_result(false, "delete file", "bad"));
    assert_eq!(r["status"], "failed");
    assert_eq!(r["action_description"], "delete file");
    assert_eq!(r["result"], "bad");
    assert_eq!(to_value(&approval_result(true, "a", "b"))["status"], "executed");
}

#[test]
fn lookup_queries_escape_quotes() {
    assert_eq!(
        agent_session_url("http://t", "ag'1"),
        "http://t/tdata/ChannelSessions?$filter=agent_entity_id eq 'ag''1'&$top=1"
    );
    assert_eq!(
        connected_channel_url("http://t", "ch-1"),
        "http://t/tdata/Channels?$filter=Status eq 'Connected' and channel_id eq 'ch-1'&$top=1"
    );
}

#[test]
fn notification_needs_a_thread_and_a_webhook() {
    let sessions = json(r#"{"value": [{"fields": {"ChannelId": "ch-1", "ThreadId": "th-9"}}]}"#);
    let session = first_listed_entity(&sessions).unwrap();
    assert_eq!(session_thread(session), Some(("ch-1".to_string(), "th-9".to_string())));
    assert_eq!(session_thread(&json(r#"{"channel_id": "ch-1"}"#)), None);
    assert!(first_listed_entity(&json(r#"{"value": []}"#)).is_none());
    assert_eq!(channel_webhook(&json(r#"{"WebhookUrl": "http://hook"}"#)), Some("http://hook".to_string()));
    assert_eq!(channel_webhook(&json(r#"{"webhook_url": ""}"#)), None);
    let body = to_value(&webhook_body("th-9", "hello", "ag-1"));
    assert_eq!(body["thread_id"], "th-9");
    assert_eq!(body["content"], "hello");
    assert_eq!(body["agent_entity_id"], "ag-1");
}

#[test]
fn soul_lookups_by_id_and_name() {
    assert_eq!(soul_by_id_url("http://t", "so-1"), "http://t/tdata/Souls('so-1')");
    assert_eq!(
        soul_by_name_url("http://t", "O'Brien"),
        "http://t/tdata/Souls?$filter=Name eq 'O''Brien' and Status eq 'Active'&$top=1"
    );
    assert_eq!(soul_entity_name(&json(r#"{"fields": {"name": "Ada"}}"#)), Some("Ada".to_string()));
    assert_eq!(soul_entity_name(&Json::Null), None);
    assert_eq!(listed_soul_name(&json(r#"{"value": [{"Name": "Grace"}]}"#)), Some("Grace".to_string()));
    assert_eq!(listed_soul_name(&json(r#"{"value": []}"#)), None);
}
