use os_apps::capability::{
    install_failure, install_refused, installer_api_url, plan_capability_install,
    read_capability_request, CapabilityRequest, InstallStep,
};
use os_apps::json::{Json, JsonNumber};
use serde_json::Value;

fn to_json(v: &Value) -> Json {
    match v {
        Value::Null => Json::Null,
        Value::Bool(b) => Json::Bool(*b),
        Value::Number(n) => Json::Number(JsonNumber::PosInt(n.as_u64().unwrap())),
        Value::String(s) => Json::String(s.clone()),
        Value::Array(items) => Json::Array(items.iter().map(to_json).collect()),
        Value::Object(map) => Json::Object(map.iter().map(|(k, v)| (k.clone(), to_json(v))).collect()),
    }
}

fn to_value(j: &Json) -> Value {
    match j {
        Json::Null => Value::Null,
        Json::Bool(b) => Value::Bool(*b),
        Json::Number(JsonNumber::PosInt(u)) => Value::from(*u),
        Json::Number(JsonNumber::NegInt(i)) => Value::from(*i),
        Json::Number(JsonNumber::Float { text, .. }) => serde_json::from_str(text).unwrap(),
        Json::String(s) => Value::String(s.clone()),
        Json::Array(items) => Value::Array(items.iter().map(to_value).collect()),
        Json::Object(members) => {
            Value::Object(members.iter().map(|(k, v)| (k.clone(), to_value(v))).collect())
        }
    }
}

fn json(text: &str) -> Json {
    to_json(&serde_json::from_str::<Value>(text).unwrap())
}

fn request(t: &str, name: &str, payload: &str) -> CapabilityRequest {
    CapabilityRequest {
        capability_type: t.to_string(),
        capability_name: name.to_string(),
        payload: payload.to_string(),
    }
}

fn view(steps: &[InstallStep]) -> Vec<(String, Value, String)> {
    steps.iter().map(|s| (s.url.clone(), to_value(&s.body), s.failure_prefix.clone())).collect()
}

fn v(text: &str) -> Value {
    serde_json::from_str(text).unwrap()
}

#[test]
fn request_fields_accept_both_spellings() {
    let r = read_capability_request(&json(r#"{"CapabilityType": "wasm", "capability_name": "m1"}"#));
    assert_eq!(r.capability_type, "wasm");
    assert_eq!(r.capability_name, "m1");
    assert_eq!(r.payload, "");
    assert_eq!(installer_api_url(&json("{}")), "http://127.0.0.1:3000");
    assert_eq!(installer_api_url(&json(r#"{"temper_api_url": "http://t"}"#)), "http://t");
}

#[test]
fn single_request_capabilities() {
    let steps = plan_capability_install("http://t", "ten", &request("os_app", "crm", "")).unwrap();
    assert_eq!(
        view(&steps),
        vec![(
            "http://t/api/apps/install".to_string(),
            v(r#"{"tenant": "ten", "app_name": "crm"}"#),
            "failed to install app 'crm': ".to_string()
        )]
    );
    let steps = plan_capability_install("http://t", "ten", &request("specs", "s", r#"{"a": 1}"#)).unwrap();
    assert_eq!(
        view(&steps),
        vec![(
            "http://t/api/specs/load-inline".to_string(),
            v(r#"{"tenant": "ten", "specs": {"a": 1}}"#),
            "failed to load specs 's': ".to_string()
        )]
    );
    let steps = plan_capability_install("http://t", "ten", &request("wasm", "mod", "AGFzbQ==")).unwrap();
    assert_eq!(
        view(&steps),
        vec![(
            "http://t/api/wasm/modules/mod".to_string(),
            v(r#"{"wasm_base64": "AGFzbQ=="}"#),
            "failed to upload WASM 'mod': ".to_string()
        )]
    );
    let steps = plan_capability_install("http://t", "ten", &request("cedar_policy", "p1", "permit;")).unwrap();
    assert_eq!(
        view(&steps),
        vec![(
            "http://t/api/tenants/ten/policies/create".to_string(),
            v(r#"{"policy_id": "p1", "cedar_text": "permit;"}"#),
            "failed to create Cedar policy 'p1': ".to_string()
        )]
    );
    assert!(plan_capability_install("http://t", "ten", &request("secret", "key", "")).unwrap().is_empty());
}

#[test]
fn app_bundle_loads_specs_then_modules_then_policies() {
    let payload = r#"{"policies": {"p1": "permit;"}, "wasm_modules": {"b": "BB", "a": 7}, "specs": {"x": 1}}"#;
    let steps = plan_capability_install("http://t", "ten", &request("app", "bundle", payload)).unwrap();
    assert_eq!(
        view(&steps),
        vec![
            (
                "http://t/api/specs/load-inline".to_string(),
                v(r#"{"tenant": "ten", "specs": {"x": 1}}"#),
                "app bundle: failed to load specs: ".to_string()
            ),
            (
                "http://t/api/wasm/modules/a".to_string(),
                v(r#"{"wasm_base64": ""}"#),
                "app bundle: failed to upload WASM 'a': ".to_string()
            ),
            (
                "http://t/api/wasm/modules/b".to_string(),
                v(r#"{"wasm_base64": "BB"}"#),
                "app bundle: failed to upload WASM 'b': ".to_string()
            ),
            (
                "http://t/api/tenants/ten/policies/create".to_string(),
                v(r#"{"policy_id": "p1", "cedar_text": "permit;"}"#),
                "app bundle: failed to create policy 'p1': ".to_string()
            ),
        ]
    );
    let steps = plan_capability_install("http://t", "ten", &request("app", "bundle", r#"{"specs": [1]}"#)).unwrap();
    assert!(steps.is_empty());
}

#[test]
fn refusals_name_what_is_missing() {
    let refuse = |t: &str, p: &str| plan_capability_install("http://t", "ten", &request(t, "n", p)).err().unwrap();
    assert_eq!(refuse("specs", ""), "specs capability requires payload with spec content");
    assert_eq!(refuse("wasm", ""), "wasm capability requires payload with base64 WASM bytes");
    assert_eq!(refuse("cedar_policy", ""), "cedar_policy capability requires payload with Cedar policy text");
    assert_eq!(refuse("app", ""), "app capability requires payload with specs/wasm_modules/policies");
    assert!(refuse("specs", "{not json").starts_with("invalid specs payload JSON: "));
    assert!(refuse("app", "[").starts_with("invalid app bundle JSON: "));
    assert_eq!(
        refuse("plugin", "x"),
        "unknown capability_type: 'plugin'. Expected: os_app, specs, wasm, secret, cedar_policy, app"
    );
}

#[test]
fn refused_requests_report_status_and_reply() {
    let steps = plan_capability_install("http://t", "ten", &request("os_app", "crm", "")).unwrap();
    assert!(install_refused(400));
    assert!(!install_refused(399));
    assert_eq!(install_failure(&steps[0], 409, "exists"), "failed to install app 'crm': 409 exists");
}
