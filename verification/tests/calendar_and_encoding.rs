use os_apps::dates::{civil_from_days, rfc3339_from_millis};
use os_apps::json::{Json, JsonNumber};
use os_apps::links::{check_config_digest, check_config_identity, check_config_read};
use os_apps::transport::{encoded, Error};

#[test]
fn consecutive_day_numbers_are_consecutive_dates() {
    assert_eq!(civil_from_days(0), (1970, 1, 1));
    assert_eq!(civil_from_days(19781), (2024, 2, 28));
    assert_eq!(civil_from_days(19782), (2024, 2, 29));
    assert_eq!(civil_from_days(19783), (2024, 3, 1));
    assert_eq!(civil_from_days(20453), (2025, 12, 31));
    assert_eq!(civil_from_days(20454), (2026, 1, 1));
    assert_eq!(civil_from_days(-1), (1969, 12, 31));
}

#[test]
fn rfc3339_text_is_fixed_width_up_to_year_9999() {
    let last = rfc3339_from_millis(253_402_300_799_999);
    assert_eq!(last, "9999-12-31T23:59:59.999Z");
    assert_eq!(last.len(), 24);
    assert_eq!(rfc3339_from_millis(1), "1970-01-01T00:00:00.001Z");
    assert!(rfc3339_from_millis(1_000) < rfc3339_from_millis(86_400_000));
}

#[test]
fn percent_encoding_keeps_unreserved_and_round_trips() {
    assert_eq!(encoded("abc-_.~XYZ09"), "abc-_.~XYZ09");
    let e = encoded("a b/é");
    assert_eq!(e, "a%20b%2F%C3%A9");
    assert_eq!(e.len(), 1 + 3 + 1 + 3 + 3 + 3);
    let mut decoded = Vec::new();
    let bytes = e.as_bytes();
    let mut i = 0;
    while i < bytes.len() {
        if bytes[i] == b'%' {
            decoded.push(u8::from_str_radix(&e[i + 1..i + 3], 16).unwrap());
            i += 3;
        } else {
            decoded.push(bytes[i]);
            i += 1;
        }
    }
    assert_eq!(decoded, "a b/é".as_bytes());
}

#[test]
fn linked_configuration_checks() {
    assert!(check_config_read(200, "{}").is_ok());
    assert!(matches!(check_config_read(404, "{}"), Err(Error::Response("linked resource configuration"))));
    assert!(matches!(
        check_config_read(200, &"x".repeat(32769)),
        Err(Error::Response("linked resource configuration"))
    ));
    let row = Json::Object(vec![("config_sha256".to_string(), Json::String("ab12".to_string()))]);
    assert!(check_config_digest("ab12", &row).is_ok());
    assert!(matches!(
        check_config_digest("ff00", &row),
        Err(Error::Binding("linked resource configuration hash differs"))
    ));
    let empty = Json::Object(vec![("n".to_string(), Json::Number(JsonNumber::PosInt(1)))]);
    assert!(matches!(check_config_digest("ab12", &empty), Err(Error::Field(f)) if f == "config_sha256"));
    assert!(check_config_identity(2, "res-1", "res-1").is_ok());
    assert!(matches!(
        check_config_identity(1, "res-1", "res-1"),
        Err(Error::Binding("linked resource configuration identity differs"))
    ));
    assert!(check_config_identity(2, "res-2", "res-1").is_err());
}

#[test]
fn claims_are_handed_out_first_come_and_once() {
    let queues = vec![("tool_1".to_string(), vec![0usize, 1])];
    let mut claimed = vec![false, false];
    assert_eq!(os_apps::chain::claim_span(&queues, &mut claimed, "tool_1"), Some(0));
    assert_eq!(os_apps::chain::claim_span(&queues, &mut claimed, "tool_1"), Some(1));
    assert_eq!(os_apps::chain::claim_span(&queues, &mut claimed, "tool_1"), None);
    assert_eq!(claimed, vec![true, true]);
    assert_eq!(os_apps::chain::claim_span(&queues, &mut claimed, "other"), None);
}

#[test]
fn later_instants_render_no_smaller() {
    let instants: [i64; 9] = [
        -1,
        0,
        999,
        59_999,
        3_599_999,
        86_399_999,
        951_782_400_000,
        4_102_444_800_000,
        253_402_300_799_999,
    ];
    for pair in instants.windows(2) {
        let earlier = rfc3339_from_millis(pair[0]);
        let later = rfc3339_from_millis(pair[1]);
        assert!(earlier <= later, "{} then {}", earlier, later);
    }
    assert!(rfc3339_from_millis(951_782_399_999) < rfc3339_from_millis(951_782_400_000));
}
