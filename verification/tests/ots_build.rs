use os_apps::ots::{
    classify_error, derive_outcome, rfc3339_from_millis, truncate_chars, COMPLETION_TOKEN_SIGNALS,
    TOKEN_SIGNAL_FIELDS,
};

#[test]
fn derive_outcome_matrix() {
    assert_eq!(derive_outcome("Completed", true), "success");
    assert_eq!(derive_outcome("Completed", false), "partial_success");
    assert_eq!(derive_outcome("Failed", true), "failure");
    assert_eq!(derive_outcome("Failed", false), "failure");
    assert_eq!(derive_outcome("Cancelled", true), "partial_success");
    assert_eq!(derive_outcome("Cancelled", false), "partial_success");
    assert_eq!(derive_outcome("Thinking", true), "failure"); // defensive
}

#[test]
fn classify_error_categories() {
    assert_eq!(classify_error(""), "unknown_error");
    assert_eq!(classify_error("request timed out after 30s"), "tool_timeout");
    assert_eq!(classify_error("Cedar denied action"), "cedar_denied");
    assert_eq!(classify_error("permission denied by policy"), "cedar_denied");
    assert_eq!(classify_error("subprocess failed"), "tool_error");
}

#[test]
fn truncate_chars_respects_utf8() {
    let s = "héllo wörld";
    assert_eq!(truncate_chars(s, 5), "héllo");
    assert_eq!(truncate_chars(s, 100), s);
}

#[test]
fn rfc3339_from_millis_formats_utc() {
    assert_eq!(rfc3339_from_millis(0), "1970-01-01T00:00:00.000Z");
    assert_eq!(rfc3339_from_millis(-5), "1970-01-01T00:00:00.000Z");
    assert_eq!(
        rfc3339_from_millis(1_767_225_600_000),
        "2026-01-01T00:00:00.000Z"
    );
    // Leap day, with sub-second precision retained.
    assert_eq!(
        rfc3339_from_millis(1_709_209_845_123),
        "2024-02-29T12:30:45.123Z"
    );
}

#[test]
fn token_signal_fields_cover_every_signal() {
    let mut expected: Vec<&str> = vec!["prompt_token_ids"];
    expected.extend(COMPLETION_TOKEN_SIGNALS.iter().map(|(field, _)| *field));
    let mut expected: Vec<&str> = expected;
    expected.sort_unstable();
    let mut declared: Vec<&str> = TOKEN_SIGNAL_FIELDS.to_vec();
    declared.sort_unstable();
    assert_eq!(declared, expected);
}
