use os_apps::json::{Json, JsonNumber};
use os_apps::links::{
    bucket_url, check_bucket_metadata, check_environment, check_r2_domains, check_railway_reply,
    railway_domain_query, verify_links, ApiTarget, BucketTarget,
};
use os_apps::transport::{provider_reply, Error, Host, Request, Response, Runtime};
use serde_json::Value;

fn to_json(v: &Value) -> Json {
    match v {
        Value::Null => Json::Null,
        Value::Bool(b) => Json::Bool(*b),
        Value::Number(n) => Json::Number(match (n.as_u64(), n.as_i64()) {
            (Some(u), _) => JsonNumber::PosInt(u),
            (None, Some(i)) => JsonNumber::NegInt(i),
            _ => JsonNumber::Float {
                text: n.to_string(),
                as_i64: n.as_f64().map_or(0, |f| f as i64),
                as_u64: n.as_f64().map_or(0, |f| f as u64),
            },
        }),
        Value::String(s) => Json::String(s.clone()),
        Value::Array(items) => Json::Array(items.iter().map(to_json).collect()),
        Value::Object(map) => Json::Object(map.iter().map(|(k, v)| (k.clone(), to_json(v))).collect()),
    }
}

fn json(text: &str) -> Json {
    to_json(&serde_json::from_str::<Value>(text).unwrap())
}

fn to_value(j: &Json) -> Value {
    match j {
        Json::Null => Value::Null,
        Json::Bool(b) => Value::Bool(*b),
        Json::Number(JsonNumber::PosInt(u)) => Value::from(*u),
        Json::Number(JsonNumber::NegInt(i)) => Value::from(*i),
        Json::Number(JsonNumber::Float { text, .. }) => serde_json::from_str(text).unwrap(),
        Json::String(s) => Value::String(s.clone()),
        Json::Array(items) => Value::Array(items.iter().map(to_value).collect()),
        Json::Object(members) => {
            Value::Object(members.iter().map(|(k, v)| (k.clone(), to_value(v))).collect())
        }
    }
}

fn api() -> ApiTarget {
    ApiTarget {
        token_secret: "railway_token".to_string(),
        project_id: "pj".to_string(),
        service_id: "sv".to_string(),
        environment_id: "env".to_string(),
    }
}

fn bucket() -> BucketTarget {
    BucketTarget {
        token_secret: "r2_token".to_string(),
        account_id: "acc 1".to_string(),
        bucket_name: "media".to_string(),
    }
}

const RAILWAY_OK: &str = r#"{"data": {
    "service": {"id": "sv", "projectId": "pj"},
    "serviceInstance": {"serviceId": "sv", "environmentId": "env", "domains": {"customDomains": [
        {"domain": "old.example", "projectId": "pj", "serviceId": "sv", "environmentId": "env", "deletedAt": null},
        {"domain": "api.deep-sci-fi.world", "projectId": "pj", "serviceId": "sv", "environmentId": "env", "deletedAt": null}
    ]}}}}"#;

const R2_DOMAINS_OK: &str = r#"{"success": true, "result": {"domains": [
    {"domain": "media.deep-sci-fi.world", "enabled": true, "status": {"ownership": "active", "ssl": "active"}}
]}}"#;

#[test]
fn only_production_is_accepted() {
    assert!(check_environment("production").is_ok());
    assert!(matches!(
        check_environment("staging"),
        Err(Error::Binding("media API supports only the production environment"))
    ));
}

#[test]
fn railway_query_names_the_service_and_environment() {
    let body = to_value(&railway_domain_query(&api()));
    assert_eq!(body["variables"]["serviceId"], "sv");
    assert_eq!(body["variables"]["environmentId"], "env");
    assert!(body["query"].as_str().unwrap().starts_with("query DsfMediaApiDomain("));
}

#[test]
fn railway_reply_with_the_owned_domain_is_accepted() {
    assert!(check_railway_reply(&json(RAILWAY_OK), &api()).is_ok());
}

#[test]
fn railway_reply_refusals() {
    let a = api();
    assert!(matches!(
        check_railway_reply(&json(r#"{"errors": [{"message": "x"}]}"#), &a),
        Err(Error::Response("Railway domain query"))
    ));
    assert!(matches!(
        check_railway_reply(&json(r#"{"errors": "boom", "data": {}}"#), &a),
        Err(Error::Response("Railway domain query"))
    ));
    assert!(matches!(
        check_railway_reply(&json(r#"{"errors": [], "data": {}}"#), &a),
        Err(Error::Response("Railway service"))
    ));
    assert!(matches!(
        check_railway_reply(&json(r#"{"data": {"service": {"id": "sv", "projectId": "pj"}}}"#), &a),
        Err(Error::Response("Railway service instance"))
    ));
    let other_project = RAILWAY_OK.replacen("\"projectId\": \"pj\"}", "\"projectId\": \"other\"}", 1);
    assert!(matches!(
        check_railway_reply(&json(&other_project), &a),
        Err(Error::Binding("linked API provider identity differs"))
    ));
    let no_id = RAILWAY_OK.replacen("\"id\": \"sv\", ", "", 1);
    assert!(matches!(check_railway_reply(&json(&no_id), &a), Err(Error::Field(f)) if f == "id"));
    let deleted = RAILWAY_OK.replace(
        "\"api.deep-sci-fi.world\", \"projectId\": \"pj\", \"serviceId\": \"sv\", \"environmentId\": \"env\", \"deletedAt\": null",
        "\"api.deep-sci-fi.world\", \"projectId\": \"pj\", \"serviceId\": \"sv\", \"environmentId\": \"env\", \"deletedAt\": \"2024\"",
    );
    assert!(matches!(
        check_railway_reply(&json(&deleted), &a),
        Err(Error::Binding("linked API does not own the production domain"))
    ));
    let many: Vec<String> = (0..101)
        .map(|_| r#"{"domain": "api.deep-sci-fi.world", "projectId": "pj", "serviceId": "sv", "environmentId": "env", "deletedAt": null}"#.to_string())
        .collect();
    let crowded = format!(
        r#"{{"data": {{"service": {{"id": "sv", "projectId": "pj"}}, "serviceInstance": {{"serviceId": "sv", "environmentId": "env", "domains": {{"customDomains": [{}]}}}}}}}}"#,
        many.join(",")
    );
    assert!(matches!(
        check_railway_reply(&json(&crowded), &a),
        Err(Error::Response("Railway custom domains"))
    ));
}

#[test]
fn bucket_url_percent_encodes_names() {
    assert_eq!(
        bucket_url(&bucket()),
        "https://api.cloudflare.com/client/v4/accounts/acc%201/r2/buckets/media"
    );
}

#[test]
fn bucket_metadata_must_name_the_linked_bucket() {
    let b = bucket();
    assert!(check_bucket_metadata(&json(r#"{"success": true, "result": {"name": "media"}}"#), &b).is_ok());
    assert!(matches!(
        check_bucket_metadata(&json(r#"{"success": true, "result": {"name": "other"}}"#), &b),
        Err(Error::Binding("linked media bucket identity differs"))
    ));
    assert!(matches!(
        check_bucket_metadata(&json(r#"{"success": "true", "result": {"name": "media"}}"#), &b),
        Err(Error::Binding("linked media bucket identity differs"))
    ));
}

#[test]
fn r2_domains_must_serve_the_media_domain() {
    assert!(check_r2_domains(&json(R2_DOMAINS_OK)).is_ok());
    assert!(matches!(
        check_r2_domains(&json(r#"{"success": false}"#)),
        Err(Error::Response("R2 custom domains"))
    ));
    assert!(matches!(
        check_r2_domains(&json(r#"{"success": true, "result": {}}"#)),
        Err(Error::Response("R2 custom domains"))
    ));
    let pending = R2_DOMAINS_OK.replace("\"ssl\": \"active\"", "\"ssl\": \"pending\"");
    assert!(matches!(
        check_r2_domains(&json(&pending)),
        Err(Error::Binding("linked bucket does not serve the production media domain"))
    ));
}

struct Providers {
    calls: Vec<(String, String)>,
}

impl Host for Providers {
    fn request(&mut self, request: &Request) -> Result<Response, Error> {
        self.calls.push((request.method.to_string(), request.url.clone()));
        let body = if request.url.contains("railway") {
            RAILWAY_OK.to_string()
        } else if request.url.ends_with("/domains/custom") {
            R2_DOMAINS_OK.to_string()
        } else {
            r#"{"success": true, "result": {"name": "media"}}"#.to_string()
        };
        Ok(Response { status: 200, body })
    }

    fn secret(&mut self, name: &str) -> Result<String, Error> {
        Ok(format!("secret-of-{name}"))
    }
}

#[test]
fn verify_links_asks_railway_then_the_bucket_twice() {
    let mut host = Providers { calls: Vec::new() };
    let mut runtime = Runtime { host: &mut host, base: "http://temper", tenant: "t", key: "k", now_ms: 0 };
    assert!(verify_links(&mut runtime, &api(), &bucket()).is_ok());
    assert_eq!(
        host.calls,
        vec![
            ("POST".to_string(), "https://backboard.railway.com/graphql/v2".to_string()),
            ("GET".to_string(), "https://api.cloudflare.com/client/v4/accounts/acc%201/r2/buckets/media".to_string()),
            (
                "GET".to_string(),
                "https://api.cloudflare.com/client/v4/accounts/acc%201/r2/buckets/media/domains/custom".to_string()
            ),
        ]
    );
}

#[test]
fn verify_links_refuses_a_credential_name_that_is_no_identifier() {
    let mut host = Providers { calls: Vec::new() };
    let mut runtime = Runtime { host: &mut host, base: "http://temper", tenant: "t", key: "k", now_ms: 0 };
    let bad = ApiTarget { token_secret: "bad name".to_string(), ..api() };
    assert!(matches!(verify_links(&mut runtime, &bad, &bucket()), Err(Error::Binding("invalid identifier"))));
    assert!(host.calls.is_empty());
}

#[test]
fn verify_refuses_other_environments_before_any_call() {
    let mut host = Providers { calls: Vec::new() };
    let mut runtime = Runtime { host: &mut host, base: "http://temper", tenant: "t", key: "k", now_ms: 0 };
    assert!(matches!(
        os_apps::links::verify(&mut runtime, "staging", &api(), &bucket()),
        Err(Error::Binding("media API supports only the production environment"))
    ));
    assert!(host.calls.is_empty());
    let mut runtime = Runtime { host: &mut host, base: "http://temper", tenant: "t", key: "k", now_ms: 0 };
    assert!(os_apps::links::verify(&mut runtime, "production", &api(), &bucket()).is_ok());
    assert_eq!(host.calls.len(), 3);
}

#[test]
fn provider_reply_refuses_listed_errors() {
    assert!(provider_reply(Response { status: 200, body: r#"{"ok": true}"#.to_string() }).is_ok());
    assert!(matches!(
        provider_reply(Response { status: 200, body: r#"{"errors": [{"m": 1}]}"#.to_string() }),
        Err(Error::Response("provider errors"))
    ));
    assert!(matches!(
        provider_reply(Response { status: 503, body: String::new() }),
        Err(Error::Http(503, "provider"))
    ));
    assert!(matches!(
        provider_reply(Response { status: 200, body: "not json".to_string() }),
        Err(Error::Response("provider"))
    ));
}
