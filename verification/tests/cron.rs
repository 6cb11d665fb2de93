use os_apps::cron::{
    cron_message_sources, is_leap_year, parse_cron_interval, render_user_message,
    resolve_cron_session_config, string_field, unix_to_iso8601,
};
use os_apps::json::Json;
use os_apps::ots::rfc3339_from_millis;

fn text(s: &str) -> Json {
    Json::String(s.to_string())
}

fn object(pairs: Vec<(&str, Json)>) -> Json {
    Json::Object(pairs.into_iter().map(|(k, v)| (k.to_string(), v)).collect())
}

#[test]
fn render_user_message_falls_back_to_existing_message_when_template_empty() {
    let rendered = render_user_message(
        "",
        "Continue the katagami review queue.",
        3,
        "last result",
        "2026-06-03T13:00:00Z",
    )
    .expect("rendered message");

    assert_eq!(rendered, "Continue the katagami review queue.");
}

#[test]
fn resolved_cron_session_config_uses_trigger_defaults_for_missing_model_provider() {
    let fields = object(vec![("model", text("")), ("provider", text(""))]);
    let config = object(vec![
        ("default_llm_model", text("gpt-5")),
        ("default_llm_provider", text("openai_codex")),
    ]);

    let resolved = resolve_cron_session_config(&fields, &config).expect("resolved config");

    assert_eq!(resolved.model, "gpt-5");
    assert_eq!(resolved.provider, "openai_codex");
}

#[test]
fn render_user_message_reads_camel_case_cron_fields() {
    let fields = object(vec![
        ("UserMessageTemplate", text("")),
        ("UserMessage", text("Proof message from OData casing")),
    ]);

    let (template, existing_user_message) = cron_message_sources(&fields);
    let rendered = render_user_message(
        &template,
        &existing_user_message,
        1,
        "",
        "2026-06-03T15:00:00Z",
    )
    .expect("camel-case UserMessage should be accepted");

    assert_eq!(rendered, "Proof message from OData casing");
}

#[test]
fn render_user_message_substitutes_every_placeholder() {
    let rendered = render_user_message(
        "run {{run_count}} after {{last_result}} at {{now}} ({{run_count}})",
        "unused",
        -7,
        "ok",
        "2026-06-03T15:00:00Z",
    )
    .unwrap();
    assert_eq!(rendered, "run -7 after ok at 2026-06-03T15:00:00Z (-7)");
}

#[test]
fn render_user_message_refuses_a_blank_result() {
    let err = render_user_message("  ", " \n", 0, "", "").unwrap_err();
    assert_eq!(
        err,
        "CronJob user message is empty; configure user_message_template or user_message"
    );
    let err = render_user_message("{{last_result}}", "", 0, "   ", "").unwrap_err();
    assert!(err.starts_with("CronJob user message is empty"));
}

#[test]
fn cron_session_config_reports_what_is_missing() {
    let none = object(vec![]);
    match resolve_cron_session_config(&none, &none) {
        Err(e) => assert_eq!(e, "CronJob model is empty; configure model or tenant llm_model"),
        Ok(_) => panic!("no model configured"),
    }
    let fields = object(vec![("Model", text(" m ")), ("provider", text("{secret:key}"))]);
    match resolve_cron_session_config(&fields, &none) {
        Err(e) => assert_eq!(
            e,
            "CronJob provider is empty; configure provider or tenant llm_provider"
        ),
        Ok(_) => panic!("an unresolved secret is not a provider"),
    }
}

#[test]
fn string_field_trims_and_skips_secret_templates() {
    let fields = object(vec![
        ("a", text("{secret:x}")),
        ("b", Json::Bool(true)),
        ("c", text("  value  ")),
    ]);
    assert_eq!(string_field(&fields, &["a", "b", "c"]), Some("value".to_string()));
    assert_eq!(string_field(&fields, &["a", "b"]), None);
}

#[test]
fn parse_cron_interval_supports_the_documented_forms() {
    assert_eq!(parse_cron_interval("* * * * *"), 60);
    assert_eq!(parse_cron_interval("*/5 * * * *"), 300);
    assert_eq!(parse_cron_interval("0 * * * *"), 3600);
    assert_eq!(parse_cron_interval("0 */2 * * *"), 7200);
    assert_eq!(parse_cron_interval("0 */6 * * *"), 21600);
    assert_eq!(parse_cron_interval("0 0 * * *"), 86400);
    assert_eq!(parse_cron_interval("  0\t0 *  * *  "), 86400);
}

#[test]
fn parse_cron_interval_rejects_other_forms() {
    assert_eq!(parse_cron_interval(""), 0);
    assert_eq!(parse_cron_interval("* * * *"), 0);
    assert_eq!(parse_cron_interval("15 3 * * *"), 0);
    assert_eq!(parse_cron_interval("*/x * * * *"), 0);
    assert_eq!(parse_cron_interval("0 */y * * *"), 0);
    assert_eq!(parse_cron_interval("* * * * * *"), 0);
}

#[test]
fn unix_to_iso8601_formats_utc() {
    assert_eq!(unix_to_iso8601(0), "1970-01-01T00:00:00Z");
    assert_eq!(unix_to_iso8601(1_767_225_600), "2026-01-01T00:00:00Z");
    assert_eq!(unix_to_iso8601(1_709_209_845), "2024-02-29T12:30:45Z");
    assert_eq!(unix_to_iso8601(951_782_400), "2000-02-29T00:00:00Z");
    assert_eq!(unix_to_iso8601(4_107_542_399), "2100-02-28T23:59:59Z");
}

#[test]
fn timestamp_writers_agree_on_the_same_instant() {
    for millis in [0_i64, 1_709_209_845_123, 951_782_400_999, 4_107_542_399_001] {
        let iso = unix_to_iso8601((millis / 1000) as u64);
        let rfc = rfc3339_from_millis(millis);
        let expected = format!("{}.{:03}Z", &iso[..iso.len() - 1], millis % 1000);
        assert_eq!(rfc, expected);
    }
}

#[test]
fn leap_years_follow_the_gregorian_rule() {
    assert!(is_leap_year(2024));
    assert!(!is_leap_year(2100));
    assert!(is_leap_year(2000));
    assert!(!is_leap_year(2023));
}
