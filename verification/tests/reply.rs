use os_apps::json::{Json, JsonNumber};
use os_apps::reply::{
    build_reply_text, channel_reply_action_name, channel_reply_action_url, is_inline_reply_channel,
    truncate_body,
};
use serde_json::Value;

fn to_json(v: &Value) -> Json {
    match v {
        Value::Null => Json::Null,
        Value::Bool(b) => Json::Bool(*b),
        Value::Number(n) => Json::Number(match (n.as_u64(), n.as_i64()) {
            (Some(u), _) => JsonNumber::PosInt(u),
            (None, Some(i)) => JsonNumber::NegInt(i),
            _ => JsonNumber::Float {
                text: n.to_string(),
                as_i64: n.as_f64().map_or(0, |f| f as i64),
                as_u64: n.as_f64().map_or(0, |f| f as u64),
            },
        }),
        Value::String(s) => Json::String(s.clone()),
        Value::Array(items) => Json::Array(items.iter().map(to_json).collect()),
        Value::Object(map) => Json::Object(map.iter().map(|(k, v)| (k.clone(), to_json(v))).collect()),
    }
}

fn parse(text: &str) -> Json {
    to_json(&serde_json::from_str::<Value>(text).unwrap())
}

#[test]
fn inline_channel_routes_record_reply_delivered_directly() {
    assert_eq!(
        channel_reply_action_url("http://temper", "ch-inline", Some("cli")),
        "http://temper/tdata/Channels('ch-inline')/Paw.Channel.ReplyDelivered"
    );
    assert_eq!(
        channel_reply_action_url("http://temper", "ch-inline", Some("tui")),
        "http://temper/tdata/Channels('ch-inline')/Paw.Channel.ReplyDelivered"
    );
}

#[test]
fn webhook_or_unknown_channel_routes_keep_awaited_send_reply() {
    assert_eq!(
        channel_reply_action_url("http://temper", "ch-webhook", Some("discord")),
        "http://temper/tdata/Channels('ch-webhook')/Paw.Channel.SendReply?await_integration=true"
    );
    assert_eq!(
        channel_reply_action_url("http://temper", "ch-legacy", None),
        "http://temper/tdata/Channels('ch-legacy')/Paw.Channel.SendReply?await_integration=true"
    );
}

#[test]
fn inline_channels_are_matched_after_trimming() {
    assert!(is_inline_reply_channel(Some(" cli ")));
    assert!(!is_inline_reply_channel(Some("CLI")));
    assert_eq!(channel_reply_action_name(Some("tui")), "ReplyDelivered");
    assert_eq!(channel_reply_action_name(Some("slack")), "SendReply");
}

#[test]
fn reply_text_prefers_the_latest_event() {
    let state = parse(
        r#"{"events": [
            {"params": {"result": "first"}},
            {"params": {"fields": {"ErrorMessage": "boom"}}},
            {"params": {"result": ""}}
        ], "fields": {"result": "field result"}}"#,
    );
    assert_eq!(build_reply_text(&state, "Completed"), "boom");
}

#[test]
fn reply_text_falls_back_to_fields_then_status() {
    let state = parse(r#"{"events": [{"params": {}}], "fields": {"Result": "done"}}"#);
    assert_eq!(build_reply_text(&state, "Completed"), "done");
    let state = parse(r#"{"fields": {"error": "bad"}}"#);
    assert_eq!(build_reply_text(&state, "Failed"), "bad");
    let empty = parse(r#"{}"#);
    assert_eq!(build_reply_text(&empty, "Cancelled"), "Agent was cancelled before it could produce a reply.");
    assert_eq!(build_reply_text(&empty, "Failed"), "Agent failed before it could produce a reply.");
    assert_eq!(build_reply_text(&empty, "Completed"), "Agent completed without returning any reply text.");
    assert_eq!(build_reply_text(&empty, "Paused"), "Agent ended with status=Paused.");
    assert_eq!(build_reply_text(&empty, ""), "Agent finished without a reply.");
}

#[test]
fn reply_log_bodies_are_cut_at_240_bytes() {
    assert_eq!(truncate_body("short"), "short");
    let body = "a".repeat(300);
    assert_eq!(truncate_body(&body), format!("{}...", "a".repeat(240)));
}

#[test]
fn truncate_body_survives_a_multibyte_body() {
    let body = "é".repeat(400);
    let truncated = os_apps::trajectory::truncate_body(&body);
    assert!(truncated.ends_with("..."));
    assert_eq!(truncated.trim_end_matches('.').chars().count(), 240);

    assert_eq!(os_apps::trajectory::truncate_body("short"), "short");
    assert_eq!(os_apps::trajectory::truncate_body(""), "");
}
