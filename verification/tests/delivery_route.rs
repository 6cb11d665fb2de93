use os_apps::json::Json;
use os_apps::routes::{channel_session_lookup_filters, delivery_route_from_session_fields};

fn text(s: &str) -> Json {
    Json::String(s.to_string())
}

fn object(pairs: Vec<(&str, Json)>) -> Json {
    Json::Object(pairs.into_iter().map(|(k, v)| (k.to_string(), v)).collect())
}

#[test]
fn channel_session_lookup_prefers_current_session_then_parent_then_agent_binding() {
    let filters = channel_session_lookup_filters("ss-current", "aj-agent", "ss-parent");

    assert_eq!(
        filters,
        vec![
            "$filter=Status eq 'Active' and session_entity_id eq 'ss-current'&$top=1",
            "$filter=Status eq 'Active' and session_entity_id eq 'ss-parent'&$top=1",
            "$filter=Status eq 'Active' and agent_entity_id eq 'aj-agent'&$top=1",
            "$filter=agent_entity_id eq 'aj-agent'&$top=1",
        ]
    );
}

#[test]
fn channel_session_lookup_deduplicates_resumed_parent_session() {
    let filters = channel_session_lookup_filters("ss-current", "aj-agent", "ss-current");

    assert_eq!(
        filters,
        vec![
            "$filter=Status eq 'Active' and session_entity_id eq 'ss-current'&$top=1",
            "$filter=Status eq 'Active' and agent_entity_id eq 'aj-agent'&$top=1",
            "$filter=agent_entity_id eq 'aj-agent'&$top=1",
        ]
    );
}

#[test]
fn direct_no_route_session_skips_channel_session_lookup() {
    let filters = channel_session_lookup_filters("ss-direct", "ss-direct", "");

    assert!(
        filters.is_empty(),
        "direct API/mock sessions without a parent or route must not pay ChannelSession lookup"
    );
}

#[test]
fn reply_route_snapshot_requires_channel_and_thread() {
    let fields = object(vec![
        ("reply_channel_id", text("discord-channel-1")),
        ("reply_thread_id", text("discord-thread-1")),
        ("reply_channel_entity_id", text("ch-entity-1")),
        ("reply_channel_type", text("cli")),
    ]);

    let route = delivery_route_from_session_fields(&fields).expect("complete route");

    assert_eq!(route.channel_id, "discord-channel-1");
    assert_eq!(route.thread_id, "discord-thread-1");
    assert_eq!(route.channel_entity_id.as_deref(), Some("ch-entity-1"));
    assert_eq!(route.channel_type.as_deref(), Some("cli"));

    assert!(delivery_route_from_session_fields(&object(vec![(
        "reply_channel_id",
        text("discord-channel-1")
    )]))
    .is_none());
}

#[test]
fn odata_filters_double_single_quotes() {
    let filters = channel_session_lookup_filters("ss-o'brien", "", "");
    assert_eq!(
        filters,
        vec!["$filter=Status eq 'Active' and session_entity_id eq 'ss-o''brien'&$top=1"]
    );
}

#[test]
fn lookup_ids_are_trimmed_and_blank_parts_skipped() {
    let filters = channel_session_lookup_filters("  ss-a \n", "\taj-b ", "   ");
    assert_eq!(
        filters,
        vec![
            "$filter=Status eq 'Active' and session_entity_id eq 'ss-a'&$top=1",
            "$filter=Status eq 'Active' and agent_entity_id eq 'aj-b'&$top=1",
            "$filter=agent_entity_id eq 'aj-b'&$top=1",
        ]
    );
}

#[test]
fn route_fields_may_sit_under_fields_and_in_pascal_case() {
    let entity = object(vec![(
        "fields",
        object(vec![
            ("ReplyChannelId", text("c-1")),
            ("ReplyThreadId", text("t-1")),
            ("ReplyChannelType", text("   ")),
        ]),
    )]);
    let route = delivery_route_from_session_fields(&entity).expect("route under fields");
    assert_eq!(route.channel_id, "c-1");
    assert_eq!(route.thread_id, "t-1");
    assert_eq!(route.channel_entity_id, None);
    assert_eq!(route.channel_type, None, "a blank type is not kept");
}
