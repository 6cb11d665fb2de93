//! Checks that the resources linked to a production media pipeline are the
//! ones that serve it: the Railway service that owns the API domain and the
//! R2 bucket behind the media domain.

use vstd::prelude::*;
use vstd::utf8::encode_utf8;
use crate::json::{Json, JsonV, spec_get, opt_str, spec_as_array, items_view, lemma_items_view, object2, string_value};
use crate::text::str_eq;
use crate::transport::{
    Error, Host, Runtime, is_binding, required, spec_required, is_field_error, encoded,
    percent_encode, identifier_ok,
};

verus! {

/// The only environment the media API runs in.
pub const PRODUCTION: &'static str = "production";

/// The domain the linked API service must own.
pub const API_DOMAIN: &'static str = "api.deep-sci-fi.world";

/// The domain the linked bucket must serve.
pub const MEDIA_DOMAIN: &'static str = "media.deep-sci-fi.world";

/// Railway's GraphQL endpoint.
pub const RAILWAY_GRAPHQL_URL: &'static str = "https://backboard.railway.com/graphql/v2";

/// The query that reads a service, its instance in an environment and that
/// instance's custom domains.
pub const RAILWAY_DOMAIN_QUERY: &'static str = "query DsfMediaApiDomain($serviceId:String!,$environmentId:String!){service(id:$serviceId){id projectId} serviceInstance(serviceId:$serviceId,environmentId:$environmentId){serviceId environmentId domains{customDomains{id domain projectId serviceId environmentId deletedAt}}}}";

/// The linked Railway service, as its verified configuration names it.
pub struct ApiTarget {
    pub token_secret: String,
    pub project_id: String,
    pub service_id: String,
    pub environment_id: String,
}

/// The linked R2 bucket, as its verified configuration names it.
pub struct BucketTarget {
    pub token_secret: String,
    pub account_id: String,
    pub bucket_name: String,
}

/// The pipeline must target the production environment.
pub fn check_environment(environment_id: &str) -> (res: Result<(), Error>)
    ensures
        environment_id@ == PRODUCTION@ <==> res is Ok,
        res matches Err(e) ==> is_binding(e, "media API supports only the production environment"@),
{
    if str_eq(environment_id, PRODUCTION) {
        Ok(())
    } else {
        Err(Error::Binding("media API supports only the production environment"))
    }
}

/// Largest linked resource configuration read, in bytes.
pub const MAX_CONFIG_BYTES: usize = 32768;

/// A linked resource's configuration file is usable when it was read with
/// status 200 and is at most 32 KiB.
pub fn check_config_read(status: u16, body: &str) -> (res: Result<(), Error>)
    ensures
        (status == 200 && crate::compaction::utf8_len(body@) <= MAX_CONFIG_BYTES) <==> res is Ok,
        res matches Err(e) ==> e matches Error::Response(m) && m@ == "linked resource configuration"@,
{
    if status != 200 || body.len() > MAX_CONFIG_BYTES {
        return Err(Error::Response("linked resource configuration"));
    }
    Ok(())
}

/// A linked resource's configuration must hash to the digest its row
/// records (`config_sha256`); the digest of the file is given in lowercase
/// hexadecimal.
pub fn check_config_digest(digest_hex: &str, row: &Json) -> (res: Result<(), Error>)
    ensures
        match spec_required(row@, "config_sha256"@) {
            None => res matches Err(e) && is_field_error(e, "config_sha256"@),
            Some(d) => (d == digest_hex@ <==> res is Ok) && (res matches Err(e) ==> is_binding(
                e,
                "linked resource configuration hash differs"@,
            )),
        },
{
    let recorded = required(row, "config_sha256")?;
    if str_eq(digest_hex, recorded) {
        Ok(())
    } else {
        Err(Error::Binding("linked resource configuration hash differs"))
    }
}

/// A linked resource's configuration must be of version 2 and name the
/// resource it was read for.
pub fn check_config_identity(version: u64, resource_id: &str, id: &str) -> (res: Result<(), Error>)
    ensures
        (version == 2 && resource_id@ == id@) <==> res is Ok,
        res matches Err(e) ==> is_binding(e, "linked resource configuration identity differs"@),
{
    if version != 2 || !str_eq(resource_id, id) {
        return Err(Error::Binding("linked resource configuration identity differs"));
    }
    Ok(())
}

/// `value.pointer("/a/b")` for two object keys.
pub open spec fn at2(value: JsonV, a: Seq<char>, b: Seq<char>) -> Option<JsonV> {
    match spec_get(value, a) {
        Some(inner) => spec_get(inner, b),
        None => None,
    }
}

/// Reads `value.pointer("/a/b")` for two object keys.
fn pointer2<'a>(value: &'a Json, a: &str, b: &str) -> (res: Option<&'a Json>)
    ensures
        crate::json::opt_json(res) == at2(value@, a@, b@),
{
    match value.get(a) {
        Some(inner) => inner.get(b),
        None => None,
    }
}

/// The body of the Railway domain query for a service in an environment.
pub open spec fn spec_domain_query(api: ApiTarget) -> JsonV {
    JsonV::Object(seq![
        ("query"@, JsonV::String(RAILWAY_DOMAIN_QUERY@)),
        ("variables"@, JsonV::Object(seq![
            ("serviceId"@, JsonV::String(api.service_id@)),
            ("environmentId"@, JsonV::String(api.environment_id@)),
        ])),
    ])
}

/// The body of the Railway domain query for the linked service.
pub fn railway_domain_query(api: &ApiTarget) -> (res: Json)
    ensures
        res@ == spec_domain_query(*api),
{
    let variables = object2(
        "serviceId",
        string_value(api.service_id.as_str()),
        "environmentId",
        string_value(api.environment_id.as_str()),
    );
    object2("query", string_value(RAILWAY_DOMAIN_QUERY), "variables", variables)
}

/// A reply whose `errors` is present and is anything but an empty list.
pub open spec fn reports_errors(reply: JsonV) -> bool {
    match spec_get(reply, "errors"@) {
        Some(e) => match spec_as_array(e) {
            Some(items) => items.len() > 0,
            None => true,
        },
        None => false,
    }
}

/// A string member equal to `expected`.
pub open spec fn str_member_is(value: JsonV, key: Seq<char>, expected: Seq<char>) -> bool {
    opt_str(spec_get(value, key)) == Some(expected)
}

/// A custom domain entry that shows the linked service owning the API domain
/// in its environment, not deleted.
pub open spec fn owns_api_domain(domain: JsonV, api: ApiTarget) -> bool {
    &&& str_member_is(domain, "domain"@, API_DOMAIN@)
    &&& str_member_is(domain, "projectId"@, api.project_id@)
    &&& str_member_is(domain, "serviceId"@, api.service_id@)
    &&& str_member_is(domain, "environmentId"@, api.environment_id@)
    &&& spec_get(domain, "deletedAt"@) == Some(JsonV::Null)
}

/// A list of at most 100 entries under `value.pointer("/a/b")`.
pub open spec fn bounded_list(value: JsonV, a: Seq<char>, b: Seq<char>) -> Option<Seq<JsonV>> {
    match at2(value, a, b) {
        Some(v) => match spec_as_array(v) {
            Some(items) if items.len() <= 100 => Some(items),
            _ => None,
        },
        None => None,
    }
}

/// Why a check refuses a reply, as plain values.
pub enum Refusal {
    /// A required field is missing or empty.
    Field(Seq<char>),
    /// The reply names another resource than the linked one.
    Binding(Seq<char>),
    /// The reply is unusable.
    Response(Seq<char>),
}

/// An error that carries a refusal.
pub open spec fn refused_with(e: Error, r: Refusal) -> bool {
    match r {
        Refusal::Field(n) => is_field_error(e, n),
        Refusal::Binding(m) => is_binding(e, m),
        Refusal::Response(m) => e matches Error::Response(x) && x@ == m,
    }
}

/// Whether `res` agrees with `verdict`: success where nothing is refused,
/// else an error carrying the refusal.
pub open spec fn matches_verdict(res: Result<(), Error>, verdict: Option<Refusal>) -> bool {
    match verdict {
        None => res is Ok,
        Some(r) => res matches Err(e) && refused_with(e, r),
    }
}

/// What the Railway reply says of the linked service: the reply's errors,
/// a missing service or instance, a field of theirs that is missing or names
/// another service, project or environment, a missing or oversized domain
/// list, and a list without the API domain each refuse it, in that order.
pub open spec fn railway_verdict(reply: JsonV, api: ApiTarget) -> Option<Refusal> {
    if reports_errors(reply) {
        Some(Refusal::Response("Railway domain query"@))
    } else {
        match at2(reply, "data"@, "service"@) {
            None => Some(Refusal::Response("Railway service"@)),
            Some(service) => match at2(reply, "data"@, "serviceInstance"@) {
                None => Some(Refusal::Response("Railway service instance"@)),
                Some(instance) => identity_verdict(service, instance, api),
            },
        }
    }
}

/// The identity checks of the Railway reply, then its domain list.
pub open spec fn identity_verdict(service: JsonV, instance: JsonV, api: ApiTarget) -> Option<Refusal> {
    match spec_required(service, "id"@) {
        None => Some(Refusal::Field("id"@)),
        Some(sid) => if sid != api.service_id@ {
            Some(Refusal::Binding("linked API provider identity differs"@))
        } else {
            match spec_required(service, "projectId"@) {
                None => Some(Refusal::Field("projectId"@)),
                Some(pid) => if pid != api.project_id@ {
                    Some(Refusal::Binding("linked API provider identity differs"@))
                } else {
                    match spec_required(instance, "serviceId"@) {
                        None => Some(Refusal::Field("serviceId"@)),
                        Some(isid) => if isid != api.service_id@ {
                            Some(Refusal::Binding("linked API provider identity differs"@))
                        } else {
                            match spec_required(instance, "environmentId"@) {
                                None => Some(Refusal::Field("environmentId"@)),
                                Some(eid) => if eid != api.environment_id@ {
                                    Some(Refusal::Binding("linked API provider identity differs"@))
                                } else {
                                    domain_verdict(instance, api)
                                }
                            }
                        }
                    }
                }
            }
        }
    }
}

/// The domain check of the Railway reply.
pub open spec fn domain_verdict(instance: JsonV, api: ApiTarget) -> Option<Refusal> {
    match bounded_list(instance, "domains"@, "customDomains"@) {
        None => Some(Refusal::Response("Railway custom domains"@)),
        Some(domains) => if exists|k: int| 0 <= k < domains.len() && owns_api_domain(#[trigger] domains[k], api) {
            None
        } else {
            Some(Refusal::Binding("linked API does not own the production domain"@))
        },
    }
}

/// Whether a string member equals `expected`.
fn member_is(value: &Json, key: &str, expected: &str) -> (res: bool)
    ensures
        res == str_member_is(value@, key@, expected@),
{
    match value.get_str(key) {
        Some(s) => str_eq(s, expected),
        None => false,
    }
}

/// Whether a custom domain entry shows the linked service owning the API
/// domain.
fn is_api_domain(domain: &Json, api: &ApiTarget) -> (res: bool)
    ensures
        res == owns_api_domain(domain@, *api),
{
    let deleted_null = match domain.get("deletedAt") {
        Some(v) => v.is_null(),
        None => false,
    };
    member_is(domain, "domain", API_DOMAIN)
        && member_is(domain, "projectId", api.project_id.as_str())
        && member_is(domain, "serviceId", api.service_id.as_str())
        && member_is(domain, "environmentId", api.environment_id.as_str())
        && deleted_null
}

/// A list of at most 100 entries under `value.pointer("/a/b")`.
fn read_bounded_list<'a>(value: &'a Json, a: &str, b: &str) -> (res: Option<&'a Vec<Json>>)
    ensures
        match res {
            Some(items) => bounded_list(value@, a@, b@) == Some(items_view(items@)),
            None => bounded_list(value@, a@, b@) is None,
        },
{
    match pointer2(value, a, b) {
        Some(v) => match v.as_array() {
            Some(items) => {
                proof {
                    lemma_items_view(items@);
                }
                if items.len() <= 100 {
                    Some(items)
                } else {
                    None
                }
            },
            None => None,
        },
        None => None,
    }
}

/// Whether some entry of a domain list shows the linked service owning the
/// API domain.
fn any_api_domain(domains: &Vec<Json>, api: &ApiTarget) -> (res: bool)
    ensures
        res == exists|k: int| 0 <= k < domains@.len() && owns_api_domain(#[trigger] items_view(domains@)[k], *api),
{
    let ghost dv = items_view(domains@);
    proof {
        lemma_items_view(domains@);
    }
    let mut i: usize = 0;
    while i < domains.len()
        invariant
            i <= domains@.len(),
            dv == items_view(domains@),
            dv.len() == domains@.len(),
            forall|k: int| 0 <= k < domains@.len() ==> #[trigger] dv[k] == domains@[k]@,
            forall|k: int| 0 <= k < i ==> !owns_api_domain(#[trigger] dv[k], *api),
        decreases domains@.len() - i,
    {
        if is_api_domain(&domains[i], api) {
            assert(owns_api_domain(dv[i as int], *api));
            return true;
        }
        i += 1;
    }
    false
}

/// Checks the Railway domain reply against the linked service.
pub fn check_railway_reply(reply: &Json, api: &ApiTarget) -> (res: Result<(), Error>)
    ensures
        matches_verdict(res, railway_verdict(reply@, *api)),
{
    let failed = match reply.get("errors") {
        Some(e) => match e.as_array() {
            Some(items) => {
                proof {
                    lemma_items_view(items@);
                }
                items.len() > 0
            },
            None => true,
        },
        None => false,
    };
    if failed {
        return Err(Error::Response("Railway domain query"));
    }
    let service = match pointer2(reply, "data", "service") {
        Some(s) => s,
        None => return Err(Error::Response("Railway service")),
    };
    let instance = match pointer2(reply, "data", "serviceInstance") {
        Some(i) => i,
        None => return Err(Error::Response("Railway service instance")),
    };
    if !str_eq(required(service, "id")?, api.service_id.as_str()) {
        return Err(Error::Binding("linked API provider identity differs"));
    }
    if !str_eq(required(service, "projectId")?, api.project_id.as_str()) {
        return Err(Error::Binding("linked API provider identity differs"));
    }
    if !str_eq(required(instance, "serviceId")?, api.service_id.as_str()) {
        return Err(Error::Binding("linked API provider identity differs"));
    }
    if !str_eq(required(instance, "environmentId")?, api.environment_id.as_str()) {
        return Err(Error::Binding("linked API provider identity differs"));
    }
    let domains = match read_bounded_list(instance, "domains", "customDomains") {
        Some(d) => d,
        None => return Err(Error::Response("Railway custom domains")),
    };
    proof {
        lemma_items_view(domains@);
        assert(bounded_list(instance@, "domains"@, "customDomains"@) == Some(items_view(domains@)));
    }
    if any_api_domain(domains, api) {
        Ok(())
    } else {
        Err(Error::Binding("linked API does not own the production domain"))
    }
}

/// The Cloudflare API address of a bucket, with the account and bucket
/// names percent-encoded.
pub open spec fn spec_bucket_url(bucket: BucketTarget) -> Seq<char> {
    "https://api.cloudflare.com/client/v4/accounts/"@ + percent_encode(encode_utf8(bucket.account_id@))
        + "/r2/buckets/"@ + percent_encode(encode_utf8(bucket.bucket_name@))
}

/// The Cloudflare API address of the linked bucket.
pub fn bucket_url(bucket: &BucketTarget) -> (res: String)
    ensures
        res@ == spec_bucket_url(*bucket),
{
    let mut url = String::from_str("https://api.cloudflare.com/client/v4/accounts/");
    url.append(encoded(bucket.account_id.as_str()).as_str());
    url.append("/r2/buckets/");
    url.append(encoded(bucket.bucket_name.as_str()).as_str());
    url
}

/// A reply that reports `success: true`.
pub open spec fn succeeded(reply: JsonV) -> bool {
    spec_get(reply, "success"@) == Some(JsonV::Bool(true))
}

/// Whether a reply reports `success: true`.
fn reply_succeeded(reply: &Json) -> (res: bool)
    ensures
        res == succeeded(reply@),
{
    match reply.get("success") {
        Some(v) => match v.as_bool() {
            Some(b) => b,
            None => false,
        },
        None => false,
    }
}

/// What the bucket's metadata says of the link: it must report success and
/// carry the linked bucket's name.
pub open spec fn bucket_verdict(metadata: JsonV, bucket: BucketTarget) -> Option<Refusal> {
    if succeeded(metadata) && opt_str(at2(metadata, "result"@, "name"@)) == Some(bucket.bucket_name@) {
        None
    } else {
        Some(Refusal::Binding("linked media bucket identity differs"@))
    }
}

/// Checks the bucket's metadata against the linked bucket.
pub fn check_bucket_metadata(metadata: &Json, bucket: &BucketTarget) -> (res: Result<(), Error>)
    ensures
        matches_verdict(res, bucket_verdict(metadata@, *bucket)),
{
    let named = match pointer2(metadata, "result", "name") {
        Some(v) => match v.as_str() {
            Some(name) => str_eq(name, bucket.bucket_name.as_str()),
            None => false,
        },
        None => false,
    };
    if reply_succeeded(metadata) && named {
        Ok(())
    } else {
        Err(Error::Binding("linked media bucket identity differs"))
    }
}

/// A string at `value.pointer("/a/b")` equal to `expected`.
pub open spec fn str_at_is(value: JsonV, a: Seq<char>, b: Seq<char>, expected: Seq<char>) -> bool {
    opt_str(at2(value, a, b)) == Some(expected)
}

/// A custom domain of the bucket that serves the media domain: enabled, with
/// its ownership and certificate active.
pub open spec fn serves_media_domain(domain: JsonV) -> bool {
    &&& str_member_is(domain, "domain"@, MEDIA_DOMAIN@)
    &&& spec_get(domain, "enabled"@) == Some(JsonV::Bool(true))
    &&& str_at_is(domain, "status"@, "ownership"@, "active"@)
    &&& str_at_is(domain, "status"@, "ssl"@, "active"@)
}

/// What the bucket's custom domains say of the link: an unsuccessful reply or
/// a missing or oversized list is unusable; a list without the media domain
/// refuses the link.
pub open spec fn r2_verdict(reply: JsonV) -> Option<Refusal> {
    if !succeeded(reply) {
        Some(Refusal::Response("R2 custom domains"@))
    } else {
        match bounded_list(reply, "result"@, "domains"@) {
            None => Some(Refusal::Response("R2 custom domains"@)),
            Some(domains) => if exists|k: int| 0 <= k < domains.len() && serves_media_domain(#[trigger] domains[k]) {
                None
            } else {
                Some(Refusal::Binding("linked bucket does not serve the production media domain"@))
            },
        }
    }
}

/// Whether a string at `value.pointer("/a/b")` equals `expected`.
fn str_at(value: &Json, a: &str, b: &str, expected: &str) -> (res: bool)
    ensures
        res == str_at_is(value@, a@, b@, expected@),
{
    match pointer2(value, a, b) {
        Some(v) => match v.as_str() {
            Some(s) => str_eq(s, expected),
            None => false,
        },
        None => false,
    }
}

/// Whether a custom domain entry serves the media domain.
fn is_media_domain(domain: &Json) -> (res: bool)
    ensures
        res == serves_media_domain(domain@),
{
    let enabled = match domain.get("enabled") {
        Some(v) => match v.as_bool() {
            Some(b) => b,
            None => false,
        },
        None => false,
    };
    member_is(domain, "domain", MEDIA_DOMAIN) && enabled && str_at(domain, "status", "ownership", "active")
        && str_at(domain, "status", "ssl", "active")
}

/// Whether some entry of a domain list serves the media domain.
fn any_media_domain(domains: &Vec<Json>) -> (res: bool)
    ensures
        res == exists|k: int| 0 <= k < domains@.len() && serves_media_domain(#[trigger] items_view(domains@)[k]),
{
    let ghost dv = items_view(domains@);
    proof {
        lemma_items_view(domains@);
    }
    let mut i: usize = 0;
    while i < domains.len()
        invariant
            i <= domains@.len(),
            dv == items_view(domains@),
            dv.len() == domains@.len(),
            forall|k: int| 0 <= k < domains@.len() ==> #[trigger] dv[k] == domains@[k]@,
            forall|k: int| 0 <= k < i ==> !serves_media_domain(#[trigger] dv[k]),
        decreases domains@.len() - i,
    {
        if is_media_domain(&domains[i]) {
            assert(serves_media_domain(dv[i as int]));
            return true;
        }
        i += 1;
    }
    false
}

/// Checks the bucket's custom domains for the media domain.
pub fn check_r2_domains(reply: &Json) -> (res: Result<(), Error>)
    ensures
        matches_verdict(res, r2_verdict(reply@)),
{
    if !reply_succeeded(reply) {
        return Err(Error::Response("R2 custom domains"));
    }
    let domains = match read_bounded_list(reply, "result", "domains") {
        Some(d) => d,
        None => return Err(Error::Response("R2 custom domains")),
    };
    proof {
        lemma_items_view(domains@);
    }
    if any_media_domain(domains) {
        Ok(())
    } else {
        Err(Error::Binding("linked bucket does not serve the production media domain"))
    }
}

/// Confirms with the providers that the linked API service owns the
/// production API domain and the linked bucket serves the media domain.
/// The replies come from outside: a credential that is no identifier is
/// refused before any call, and success means that some Railway reply,
/// bucket metadata and custom-domain list each passed their check.
pub fn verify_links<H: Host>(runtime: &mut Runtime<'_, H>, api: &ApiTarget, bucket: &BucketTarget) -> (res: Result<
    (),
    Error,
>)
    ensures
        !identifier_ok(encode_utf8(api.token_secret@)) ==> (res matches Err(e) && is_binding(
            e,
            "invalid identifier"@,
        )),
        res is Ok ==> exists|r1: JsonV, r2: JsonV, r3: JsonV|
            #![trigger railway_verdict(r1, *api), bucket_verdict(r2, *bucket), r2_verdict(r3)]
            railway_verdict(r1, *api) is None && bucket_verdict(r2, *bucket) is None && r2_verdict(r3) is None,
{
    let query = railway_domain_query(api);
    let reply = runtime.bearer_json(api.token_secret.as_str(), "POST", RAILWAY_GRAPHQL_URL.to_string(), query)?;
    check_railway_reply(&reply, api)?;
    let ghost r1 = reply@;
    let url = bucket_url(bucket);
    let metadata = runtime.bearer_json(bucket.token_secret.as_str(), "GET", url.clone(), Json::Null)?;
    check_bucket_metadata(&metadata, bucket)?;
    let ghost r2 = metadata@;
    let mut domains_url = url;
    domains_url.append("/domains/custom");
    let domains = runtime.bearer_json(bucket.token_secret.as_str(), "GET", domains_url, Json::Null)?;
    let res = check_r2_domains(&domains);
    proof {
        if res is Ok {
            assert(railway_verdict(r1, *api) is None && bucket_verdict(r2, *bucket) is None && r2_verdict(
                domains@,
            ) is None);
        }
    }
    res
}

/// Checks a media pipeline's links before a production media write: the
/// pipeline must target production (refused before any provider call), and
/// then `verify_links` must confirm both linked resources.
pub fn verify<H: Host>(
    runtime: &mut Runtime<'_, H>,
    environment_id: &str,
    api: &ApiTarget,
    bucket: &BucketTarget,
) -> (res: Result<(), Error>)
    ensures
        environment_id@ != PRODUCTION@ ==> (res matches Err(e) && is_binding(
            e,
            "media API supports only the production environment"@,
        )),
        environment_id@ != PRODUCTION@ ==> *final(runtime) == *old(runtime),
        environment_id@ == PRODUCTION@ && !identifier_ok(encode_utf8(api.token_secret@)) ==> (res matches Err(e)
            && is_binding(e, "invalid identifier"@)),
        res is Ok ==> environment_id@ == PRODUCTION@ && exists|r1: JsonV, r2: JsonV, r3: JsonV|
            #![trigger railway_verdict(r1, *api), bucket_verdict(r2, *bucket), r2_verdict(r3)]
            railway_verdict(r1, *api) is None && bucket_verdict(r2, *bucket) is None && r2_verdict(r3) is None,
{
    check_environment(environment_id)?;
    verify_links(runtime, api, bucket)
}

} // verus!
