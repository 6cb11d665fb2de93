use os_apps::chain::{group_turns, resolve_chain};
use os_apps::json::{Json, JsonNumber};
use os_apps::session::{json_i64, json_u64, parse_session_entries};

/// Two real LLM cycles: user -> assistant(tool_use) -> tool_result ->
/// assistant(final text).
fn two_turn_session_jsonl() -> String {
    [
        r#"{"id":"h-ss-1","parentId":null,"type":"header","tokens":0}"#,
        r#"{"id":"u-ss-1-0","parentId":"h-ss-1","type":"message","role":"user","content":"find the bug","tokens":3,"ts_ms":1767225600000}"#,
        r#"{"id":"a-1","parentId":"u-ss-1-0","type":"message","role":"assistant","content":[{"type":"thinking","thinking":"I should grep first"},{"type":"text","text":"Looking now"},{"type":"tool_use","id":"tc-1","name":"temper.bash","input":{"cmd":"rg TODO"}}],"tokens":42,"ts_ms":1767225601000,"input_tokens":100,"output_tokens":42}"#,
        r#"{"id":"t-2","parentId":"a-1","type":"message","role":"user","content":[{"type":"tool_result","tool_use_id":"tc-1","content":"src/lib.rs:12: TODO","is_error":false}],"tokens":9,"ts_ms":1767225602000}"#,
        r#"{"id":"a-3","parentId":"t-2","type":"message","role":"assistant","content":[{"type":"text","text":"Found it on line 12"}],"tokens":11,"ts_ms":1767225603000,"input_tokens":160,"output_tokens":11}"#,
    ]
    .join("\n")
}

#[test]
fn resolve_chain_prefers_recorded_leaf() {
    let entries = parse_session_entries(&two_turn_session_jsonl());
    let resolved = resolve_chain(&entries, "a-3");
    let ids: Vec<&str> = resolved.chain.iter().map(|i| entries[*i].id.as_str()).collect();
    assert_eq!(ids, vec!["h-ss-1", "u-ss-1-0", "a-1", "t-2", "a-3"]);
    assert!(resolved.from_recorded_leaf);
}

#[test]
fn resolve_chain_falls_back_when_leaf_is_missing() {
    let entries = parse_session_entries(&two_turn_session_jsonl());
    let resolved = resolve_chain(&entries, "a-999-never-written");
    let ids: Vec<&str> = resolved.chain.iter().map(|i| entries[*i].id.as_str()).collect();
    assert_eq!(
        ids,
        vec!["h-ss-1", "u-ss-1-0", "a-1", "t-2", "a-3"],
        "a leaf ahead of durable rows must not empty the trajectory"
    );
    assert!(
        !resolved.from_recorded_leaf,
        "the fallback chain is missing the newest turns, and the caller has to know"
    );
}

#[test]
fn resolve_chain_survives_parent_cycle() {
    let jsonl = [
        r#"{"id":"a","parentId":"b","type":"message","role":"assistant","content":"x"}"#,
        r#"{"id":"b","parentId":"a","type":"message","role":"user","content":"y"}"#,
    ]
    .join("\n");
    let entries = parse_session_entries(&jsonl);
    let resolved = resolve_chain(&entries, "a");
    assert!(resolved.chain.len() <= entries.len());
}

#[test]
fn parse_session_entries_reads_fields_and_skips_bad_lines() {
    let jsonl = "\n  {\"id\":\"u-1\",\"parentId\":\"\",\"role\":\"user\",\"content\":\"hi\",\"tokens\":7,\"content_file_id\":\"\"}  \r\nnot json\n{\"parentId\":\"u-1\"}\n{\"id\":\"\"}\n{\"id\":\"a-2\",\"parentId\":\"u-1\",\"type\":\"compaction\",\"tokens\":-3,\"content_file_id\":\"f-9\"}\n";
    let entries = parse_session_entries(jsonl);
    assert_eq!(entries.len(), 2);
    assert_eq!(entries[0].id, "u-1");
    assert_eq!(entries[0].parent_id, None);
    assert_eq!(entries[0].entry_type, "message");
    assert_eq!(entries[0].role, "user");
    assert_eq!(entries[0].tokens, 7);
    assert_eq!(entries[0].content_file_id, None);
    assert!(matches!(entries[0].content, Some(Json::String(ref s)) if s == "hi"));
    assert_eq!(entries[1].id, "a-2");
    assert_eq!(entries[1].parent_id.as_deref(), Some("u-1"));
    assert_eq!(entries[1].entry_type, "compaction");
    assert_eq!(entries[1].role, "");
    assert_eq!(entries[1].tokens, 0);
    assert_eq!(entries[1].content_file_id.as_deref(), Some("f-9"));
    assert!(entries[1].content.is_none());
}

#[test]
fn recorded_at_prefers_millis_then_timestamp() {
    let jsonl = [
        r#"{"id":"a","ts_ms":1767225601000,"timestamp":"ignored"}"#,
        r#"{"id":"b","ts_ms":" 1767225602500 ","timestamp":"ignored"}"#,
        r#"{"id":"c","timestamp":"2026-01-01T00:00:09Z"}"#,
        r#"{"id":"d","timestamp":""}"#,
        r#"{"id":"e","ts_ms":"soon","timestamp":"2026-01-01T00:00:10Z"}"#,
    ]
    .join("\n");
    let entries = parse_session_entries(&jsonl);
    let stamps: Vec<Option<String>> = entries.iter().map(|e| e.recorded_at()).collect();
    assert_eq!(
        stamps,
        vec![
            Some("2026-01-01T00:00:01.000Z".to_string()),
            Some("2026-01-01T00:00:02.500Z".to_string()),
            Some("2026-01-01T00:00:09Z".to_string()),
            None,
            Some("2026-01-01T00:00:10Z".to_string()),
        ]
    );
}

#[test]
fn lenient_integer_readers() {
    assert_eq!(json_i64(&Json::Number(JsonNumber::PosInt(u64::MAX))), Some(i64::MAX));
    assert_eq!(json_i64(&Json::Number(JsonNumber::NegInt(-4))), Some(-4));
    assert_eq!(json_i64(&Json::String(" -12 ".to_string())), Some(-12));
    assert_eq!(json_i64(&Json::String("x".to_string())), None);
    assert_eq!(json_i64(&Json::Bool(true)), None);
    assert_eq!(json_u64(&Json::Number(JsonNumber::NegInt(-4))), None);
    assert_eq!(json_u64(&Json::String("+9".to_string())), Some(9));
    assert_eq!(json_u64(&Json::String("-9".to_string())), None);
    let float = Json::Number(JsonNumber::Float { text: "2.7".to_string(), as_i64: 2, as_u64: 2 });
    assert_eq!(json_u64(&float), Some(2));
    assert_eq!(json_i64(&float), Some(2));
}

#[test]
fn turns_group_the_parsed_chain() {
    let entries = parse_session_entries(&two_turn_session_jsonl());
    let resolved = resolve_chain(&entries, "a-3");
    let turns = group_turns(&entries, &resolved.chain);
    assert_eq!(turns.len(), 2);
    assert_eq!(turns[0].assistant, Some(2));
    assert_eq!(turns[1].assistant, Some(4));
    assert_eq!(turns[1].prompt, vec![3]);
}
