use os_apps::callback::{llm_callback, retry_step, user_message_refusal, LlmCallback, RetryStep};
use os_apps::compaction::{ContextRef, EntryType};
use os_apps::json::{Json, JsonNumber};
use os_apps::providers::AttemptOutcome;
use os_apps::reuse::{
    plan_prepared_reuse, reuse_prepared_context, ContextDelta, PreparedView, ReusePlan,
};
use serde_json::Value;

fn to_json(v: &Value) -> Json {
    match v {
        Value::Null => Json::Null,
        Value::Bool(b) => Json::Bool(*b),
        Value::Number(n) => Json::Number(JsonNumber::PosInt(n.as_u64().unwrap())),
        Value::String(s) => Json::String(s.clone()),
        Value::Array(items) => Json::Array(items.iter().map(to_json).collect()),
        Value::Object(map) => Json::Object(map.iter().map(|(k, v)| (k.clone(), to_json(v))).collect()),
    }
}

fn to_value(j: &Json) -> Value {
    match j {
        Json::Null => Value::Null,
        Json::Bool(b) => Value::Bool(*b),
        Json::Number(JsonNumber::PosInt(u)) => Value::from(*u),
        Json::Number(JsonNumber::NegInt(i)) => Value::from(*i),
        Json::Number(JsonNumber::Float { text, .. }) => serde_json::from_str(text).unwrap(),
        Json::String(s) => Value::String(s.clone()),
        Json::Array(items) => Value::Array(items.iter().map(to_value).collect()),
        Json::Object(members) => {
            Value::Object(members.iter().map(|(k, v)| (k.clone(), to_value(v))).collect())
        }
    }
}

fn json(text: &str) -> Json {
    to_json(&serde_json::from_str::<Value>(text).unwrap())
}

const CONTENT: &str = r#"[{"type": "text", "text": "first"}, {"type": "tool_use", "id": "t1", "name": "execute"},
    {"type": "text", "text": "second"}, {"type": "thinking", "text": "hidden"}]"#;

#[test]
fn tool_use_runs_the_tool_calls() {
    match llm_callback("tool_use", &json(CONTENT), false, false, 5) {
        LlmCallback::ProcessToolCalls { tool_calls } => {
            assert_eq!(tool_calls.len(), 1);
            assert_eq!(to_value(&tool_calls[0])["id"], "t1");
        }
        other => panic!("unexpected {other:?}"),
    }
}

#[test]
fn end_turn_records_the_text_blocks() {
    assert!(matches!(
        llm_callback("end_turn", &json(CONTENT), false, false, 5),
        LlmCallback::RecordResult { result } if result == "first\nsecond"
    ));
    assert!(matches!(
        llm_callback("stop", &json(CONTENT), true, true, 5),
        LlmCallback::CheckSteering { result } if result == "first\nsecond"
    ));
    assert!(matches!(
        llm_callback("end_turn", &json(CONTENT), true, true, 0),
        LlmCallback::RecordResult { .. }
    ));
    assert!(matches!(llm_callback("end_turn", &json(CONTENT), true, false, 5), LlmCallback::NoResult));
}

#[test]
fn other_stop_reasons_fail_the_turn() {
    assert!(matches!(
        llm_callback("max_tokens", &json("[]"), false, false, 5),
        LlmCallback::Fail { error_message } if error_message == "unexpected stop_reason: max_tokens"
    ));
}

#[test]
fn empty_user_message_is_refused() {
    assert_eq!(
        user_message_refusal(&json(r#"{"user_message": ""}"#)),
        Some("user_message is empty — nothing to send to the LLM".to_string())
    );
    assert!(user_message_refusal(&json("{}")).is_some());
    assert_eq!(user_message_refusal(&json(r#"{"user_message": "hi"}"#)), None);
}

#[test]
fn retries_stop_after_five_attempts() {
    assert_eq!(retry_step("Anthropic API", 0, AttemptOutcome::Success), RetryStep::Read);
    assert_eq!(
        retry_step("Anthropic API", 3, AttemptOutcome::Retry("HTTP 529: busy".to_string())),
        RetryStep::Again("HTTP 529: busy".to_string())
    );
    assert_eq!(
        retry_step("Anthropic API", 4, AttemptOutcome::Retry("HTTP 529: busy".to_string())),
        RetryStep::GiveUp("Anthropic API failed after 5 attempts: HTTP 529: busy".to_string())
    );
    assert_eq!(
        retry_step("OpenRouter API", 0, AttemptOutcome::Fail("OpenRouter API returned 401: no".to_string())),
        RetryStep::GiveUp("OpenRouter API returned 401: no".to_string())
    );
}

fn prepared() -> PreparedView {
    PreparedView {
        use_session_tree: true,
        conversation_file_id: String::new(),
        session_file_id: "session-1".to_string(),
        session_leaf_id: "a-1".to_string(),
        workspace_id: "workspace-1".to_string(),
        prune_tool_results_after_turns: 4,
        messages: vec![
            json(r#"{"role": "user", "content": "hello"}"#),
            json(r#"{"role": "assistant", "content": [{"type":"text","text":"hi"}]}"#),
        ],
        entries_loaded: 2,
        content_files_loaded: 0,
    }
}

fn entry(id: &str, entry_type: EntryType, file: Option<&str>) -> ContextRef {
    ContextRef {
        entry_id: id.to_string(),
        role: "user".to_string(),
        content_file_id: file.map(str::to_string),
        content_file_version_id: None,
        entry_type,
        inline_content: Some(Json::String("next".to_string())),
        inline_summary: None,
    }
}

#[test]
fn try_reuse_prepared_context_appends_only_delta_messages() {
    let p = prepared();
    let delta = ContextDelta { refs: vec![entry("u-2", EntryType::Message, None)], includes_compaction: false };
    match plan_prepared_reuse(&p, Some(&delta), "", "session-1", "workspace-1", 4) {
        ReusePlan::Reuse { delta_entries_loaded, delta_content_files_loaded, resolve_delta } => {
            assert_eq!(delta_entries_loaded, 1);
            assert_eq!(delta_content_files_loaded, 0);
            assert!(resolve_delta);
            let reused = reuse_prepared_context(
                &p,
                delta_entries_loaded,
                delta_content_files_loaded,
                vec![json(r#"{"role": "user", "content": "next"}"#)],
            );
            assert_eq!(reused.messages.len(), 3);
            assert_eq!(to_value(&reused.messages[2])["content"], "next");
            assert_eq!(reused.entries_loaded, 3);
            assert_eq!(reused.content_files_loaded, 0);
            assert_eq!(reused.delta_entries_loaded, 1);
            assert_eq!(reused.delta_content_files_loaded, 0);
        }
        other => panic!("expected reuse, got {other:?}"),
    }
}

#[test]
fn try_reuse_prepared_context_requires_rebuild_when_compaction_enters_delta() {
    let p = prepared();
    let delta = ContextDelta {
        refs: vec![entry("c-1", EntryType::Compaction, None), entry("u-2", EntryType::Message, None)],
        includes_compaction: true,
    };
    assert!(matches!(
        plan_prepared_reuse(&p, Some(&delta), "", "session-1", "workspace-1", 4),
        ReusePlan::RebuildRequired { reason: "delta includes compaction" }
    ));
}

#[test]
fn reuse_rebuild_reasons_in_order() {
    let p = prepared();
    let delta = ContextDelta { refs: vec![entry("u-2", EntryType::Message, Some("f-1"))], includes_compaction: false };
    let reason = |p: &PreparedView, d: Option<&ContextDelta>, conv: &str, ws: &str, prune: u64| {
        match plan_prepared_reuse(p, d, conv, "session-1", ws, prune) {
            ReusePlan::RebuildRequired { reason } => reason,
            ReusePlan::Reuse { .. } => "reuse",
        }
    };
    assert_eq!(reason(&p, Some(&delta), "conv-2", "workspace-1", 4), "conversation file changed");
    assert_eq!(reason(&p, Some(&delta), "", "workspace-2", 4), "workspace changed");
    assert_eq!(reason(&p, Some(&delta), "", "workspace-1", 6), "prune window changed");
    assert_eq!(reason(&p, None, "", "workspace-1", 4), "prepared leaf is not an ancestor of current leaf");
    let no_tree = PreparedView { use_session_tree: false, ..prepared() };
    assert_eq!(reason(&no_tree, Some(&delta), "", "workspace-1", 4), "prepared artifact is not session-tree based");
    assert!(matches!(
        plan_prepared_reuse(&p, Some(&delta), "", "session-1", "workspace-1", 4),
        ReusePlan::Reuse { delta_entries_loaded: 1, delta_content_files_loaded: 1, resolve_delta: true }
    ));
    let empty = ContextDelta { refs: Vec::new(), includes_compaction: false };
    assert!(matches!(
        plan_prepared_reuse(&p, Some(&empty), "", "session-1", "workspace-1", 4),
        ReusePlan::Reuse { delta_entries_loaded: 0, delta_content_files_loaded: 0, resolve_delta: false }
    ));
}
