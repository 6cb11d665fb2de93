//! Installing an approved capability: the requests each kind of capability
//! takes, in order, and how a refused request is reported.

use vstd::prelude::*;
use crate::json::{
    Json, JsonV, spec_get, opt_str, spec_as_str, object1, object2, string_value, members_view,
    lemma_members_view,
};
use crate::json_text::{read_json, parsed_json, json_error_text};
use crate::prompt::{alt_field, alt_field_str, or_empty};
use crate::text::{str_eq, chars_of, i64_to_string, decimal};

verus! {

/// One installation request: where it goes, what it sends, and the text a
/// refusal of it is reported with, before the status and the reply.
pub struct InstallStep {
    pub url: String,
    pub body: Json,
    pub failure_prefix: String,
}

/// An installation request as plain values.
pub open spec fn step_view(s: InstallStep) -> (Seq<char>, JsonV, Seq<char>) {
    (s.url@, s.body@, s.failure_prefix@)
}

/// Installation requests as plain values.
pub open spec fn steps_view(v: Seq<InstallStep>) -> Seq<(Seq<char>, JsonV, Seq<char>)> {
    v.map_values(|s: InstallStep| step_view(s))
}

/// The capability a request asks for, read from its fields.
pub struct CapabilityRequest {
    pub capability_type: String,
    pub capability_name: String,
    pub payload: String,
}

/// The capability fields, each under its snake_case or PascalCase name.
pub open spec fn request_from(fields: JsonV, r: CapabilityRequest) -> bool {
    &&& r.capability_type@ == or_empty(alt_field(fields, "capability_type"@, "CapabilityType"@))
    &&& r.capability_name@ == or_empty(alt_field(fields, "capability_name"@, "CapabilityName"@))
    &&& r.payload@ == or_empty(alt_field(fields, "payload"@, "Payload"@))
}

/// An optional string, or the empty one.
fn owned_or_empty(o: Option<&str>) -> (res: String)
    ensures
        res@ == or_empty(crate::json::opt_view(o)),
{
    match o {
        Some(s) => s.to_string(),
        None => String::new(),
    }
}

/// Reads what a capability request asks for.
pub fn read_capability_request(fields: &Json) -> (res: CapabilityRequest)
    ensures
        request_from(fields@, res),
{
    CapabilityRequest {
        capability_type: owned_or_empty(alt_field_str(fields, "capability_type", "CapabilityType")),
        capability_name: owned_or_empty(alt_field_str(fields, "capability_name", "CapabilityName")),
        payload: owned_or_empty(alt_field_str(fields, "payload", "Payload")),
    }
}

/// The Temper API an installer talks to: the configured one, else the local
/// default.
pub open spec fn spec_installer_api_url(config: JsonV) -> Seq<char> {
    match opt_str(spec_get(config, "temper_api_url"@)) {
        Some(u) => u,
        None => "http://127.0.0.1:3000"@,
    }
}

/// The Temper API an installer talks to.
pub fn installer_api_url(config: &Json) -> (res: String)
    ensures
        res@ == spec_installer_api_url(config@),
{
    match config.get_str("temper_api_url") {
        Some(u) => u.to_string(),
        None => "http://127.0.0.1:3000".to_string(),
    }
}

/// The request that loads specs for a tenant.
pub open spec fn specs_step(api: Seq<char>, tenant: Seq<char>, specs: JsonV, prefix: Seq<char>) -> (
    Seq<char>,
    JsonV,
    Seq<char>,
) {
    (
        api + "/api/specs/load-inline"@,
        JsonV::Object(seq![("tenant"@, JsonV::String(tenant)), ("specs"@, specs)]),
        prefix,
    )
}

/// The request that uploads a WASM module.
pub open spec fn wasm_step(api: Seq<char>, name: Seq<char>, base64: Seq<char>, prefix: Seq<char>) -> (
    Seq<char>,
    JsonV,
    Seq<char>,
) {
    (
        api + "/api/wasm/modules/"@ + name,
        JsonV::Object(seq![("wasm_base64"@, JsonV::String(base64))]),
        prefix,
    )
}

/// The request that creates a Cedar policy for a tenant.
pub open spec fn policy_step(api: Seq<char>, tenant: Seq<char>, id: Seq<char>, text: Seq<char>, prefix: Seq<char>) -> (
    Seq<char>,
    JsonV,
    Seq<char>,
) {
    (
        api + "/api/tenants/"@ + tenant + "/policies/create"@,
        JsonV::Object(seq![("policy_id"@, JsonV::String(id)), ("cedar_text"@, JsonV::String(text))]),
        prefix,
    )
}

/// A member's string, or the empty one.
pub open spec fn str_or_empty(v: JsonV) -> Seq<char> {
    or_empty(spec_as_str(v))
}

/// The module uploads of a bundle's `wasm_modules`, in order.
pub open spec fn module_steps(api: Seq<char>, modules: Seq<(Seq<char>, JsonV)>) -> Seq<(Seq<char>, JsonV, Seq<char>)> {
    modules.map_values(|m: (Seq<char>, JsonV)|
        wasm_step(api, m.0, str_or_empty(m.1), "app bundle: failed to upload WASM '"@ + m.0 + "': "@))
}

/// The policies of a bundle's `policies`, in order.
pub open spec fn policy_steps(api: Seq<char>, tenant: Seq<char>, policies: Seq<(Seq<char>, JsonV)>) -> Seq<
    (Seq<char>, JsonV, Seq<char>),
> {
    policies.map_values(|p: (Seq<char>, JsonV)|
        policy_step(api, tenant, p.0, str_or_empty(p.1), "app bundle: failed to create policy '"@ + p.0 + "': "@))
}

/// The members of an object member, when it is an object.
pub open spec fn object_members(value: JsonV, key: Seq<char>) -> Option<Seq<(Seq<char>, JsonV)>> {
    match spec_get(value, key) {
        Some(JsonV::Object(members)) => Some(members),
        _ => None,
    }
}

/// The requests of a bundled app: its specs when they are an object, then
/// each WASM module, then each policy.
pub open spec fn bundle_steps(api: Seq<char>, tenant: Seq<char>, bundle: JsonV) -> Seq<(Seq<char>, JsonV, Seq<char>)> {
    (match object_members(bundle, "specs"@) {
        Some(_) => seq![specs_step(api, tenant, spec_get(bundle, "specs"@).unwrap(), "app bundle: failed to load specs: "@)],
        None => seq![],
    }) + (match object_members(bundle, "wasm_modules"@) {
        Some(m) => module_steps(api, m),
        None => seq![],
    }) + (match object_members(bundle, "policies"@) {
        Some(p) => policy_steps(api, tenant, p),
        None => seq![],
    })
}

/// The requests that install a capability, or why it cannot be installed:
/// an app by name; specs, a module, a policy or a bundle from the payload
/// (each needs one, and specs and bundles must be JSON); a secret needs none
/// (a person provisions it); any other type is refused.
pub open spec fn spec_install_plan(api: Seq<char>, tenant: Seq<char>, r: CapabilityRequest) -> Result<
    Seq<(Seq<char>, JsonV, Seq<char>)>,
    Seq<char>,
> {
    let t = r.capability_type@;
    let name = r.capability_name@;
    let payload = r.payload@;
    if t == "os_app"@ {
        Ok(seq![(
            api + "/api/apps/install"@,
            JsonV::Object(seq![("tenant"@, JsonV::String(tenant)), ("app_name"@, JsonV::String(name))]),
            "failed to install app '"@ + name + "': "@,
        )])
    } else if t == "specs"@ {
        if payload.len() == 0 {
            Err("specs capability requires payload with spec content"@)
        } else {
            match parsed_json(payload) {
                Some(specs) => Ok(seq![specs_step(api, tenant, specs, "failed to load specs '"@ + name + "': "@)]),
                None => Err("invalid specs payload JSON: "@ + json_error_text(payload)),
            }
        }
    } else if t == "wasm"@ {
        if payload.len() == 0 {
            Err("wasm capability requires payload with base64 WASM bytes"@)
        } else {
            Ok(seq![wasm_step(api, name, payload, "failed to upload WASM '"@ + name + "': "@)])
        }
    } else if t == "secret"@ {
        Ok(seq![])
    } else if t == "cedar_policy"@ {
        if payload.len() == 0 {
            Err("cedar_policy capability requires payload with Cedar policy text"@)
        } else {
            Ok(seq![policy_step(api, tenant, name, payload, "failed to create Cedar policy '"@ + name + "': "@)])
        }
    } else if t == "app"@ {
        if payload.len() == 0 {
            Err("app capability requires payload with specs/wasm_modules/policies"@)
        } else {
            match parsed_json(payload) {
                Some(bundle) => Ok(bundle_steps(api, tenant, bundle)),
                None => Err("invalid app bundle JSON: "@ + json_error_text(payload)),
            }
        }
    } else {
        Err("unknown capability_type: '"@ + t + "'. Expected: os_app, specs, wasm, secret, cedar_policy, app"@)
    }
}

/// Joins two strings.
fn concat3(a: &str, b: &str, c: &str) -> (res: String)
    ensures
        res@ == a@ + b@ + c@,
{
    let mut s = a.to_string();
    s.append(b);
    s.append(c);
    s
}

/// Joins two strings.
fn concat2(a: &str, b: &str) -> (res: String)
    ensures
        res@ == a@ + b@,
{
    let mut s = a.to_string();
    s.append(b);
    s
}

/// The request that loads specs.
fn make_specs_step(api: &str, tenant: &str, specs: Json, prefix: String) -> (res: InstallStep)
    ensures
        step_view(res) == specs_step(api@, tenant@, specs@, prefix@),
{
    let ghost sv = specs@;
    let body = object2("tenant", string_value(tenant), "specs", specs);
    InstallStep { url: concat2(api, "/api/specs/load-inline"), body, failure_prefix: prefix }
}

/// The request that uploads a module.
fn make_wasm_step(api: &str, name: &str, base64: &str, prefix: String) -> (res: InstallStep)
    ensures
        step_view(res) == wasm_step(api@, name@, base64@, prefix@),
{
    InstallStep {
        url: concat3(api, "/api/wasm/modules/", name),
        body: object1("wasm_base64", string_value(base64)),
        failure_prefix: prefix,
    }
}

/// The request that creates a policy.
fn make_policy_step(api: &str, tenant: &str, id: &str, text: &str, prefix: String) -> (res: InstallStep)
    ensures
        step_view(res) == policy_step(api@, tenant@, id@, text@, prefix@),
{
    let mut url = concat3(api, "/api/tenants/", tenant);
    url.append("/policies/create");
    InstallStep {
        url,
        body: object2("policy_id", string_value(id), "cedar_text", string_value(text)),
        failure_prefix: prefix,
    }
}

/// A member's string, or the empty one.
fn member_text(v: &Json) -> (res: &str)
    ensures
        res@ == str_or_empty(v@),
{
    match v.as_str() {
        Some(s) => s,
        None => {
            proof {
                reveal_strlit("");
            }
            assert(""@ =~= Seq::<char>::empty());
            ""
        },
    }
}

/// The requests of a bundled app.
fn plan_bundle(api: &str, tenant: &str, bundle: &Json) -> (res: Vec<InstallStep>)
    ensures
        steps_view(res@) == bundle_steps(api@, tenant@, bundle@),
{
    let mut steps: Vec<InstallStep> = Vec::new();
    if let Some(specs) = bundle.get("specs") {
        if let Json::Object(_) = specs {
            steps.push(make_specs_step(api, tenant, specs.duplicate(), String::from_str("app bundle: failed to load specs: ")));
        }
    }
    let ghost after_specs = steps_view(steps@);
    assert(after_specs =~= match object_members(bundle@, "specs"@) {
        Some(_) => seq![specs_step(api@, tenant@, spec_get(bundle@, "specs"@).unwrap(), "app bundle: failed to load specs: "@)],
        None => seq![],
    });
    if let Some(Json::Object(modules)) = bundle.get("wasm_modules") {
        proof {
            lemma_members_view(modules@);
        }
        let ghost mv = members_view(modules@);
        let mut i: usize = 0;
        while i < modules.len()
            invariant
                i <= modules@.len(),
                mv == members_view(modules@),
                mv.len() == modules@.len(),
                forall|k: int| 0 <= k < modules@.len() ==> #[trigger] mv[k] == (modules@[k].0@, modules@[k].1@),
                steps_view(steps@) == after_specs + module_steps(api@, mv.take(i as int)),
            decreases modules@.len() - i,
        {
            let name = modules[i].0.as_str();
            let prefix = concat3("app bundle: failed to upload WASM '", name, "': ");
            let step = make_wasm_step(api, name, member_text(&modules[i].1), prefix);
            let ghost before = steps_view(steps@);
            steps.push(step);
            proof {
                assert(mv.take(i + 1) =~= mv.take(i as int).push(mv[i as int]));
                assert(module_steps(api@, mv.take(i + 1)) =~= module_steps(api@, mv.take(i as int)).push(
                    step_view(step),
                ));
                assert(steps_view(steps@) =~= before.push(step_view(step)));
            }
            i += 1;
        }
        assert(mv.take(i as int) =~= mv);
    }
    let ghost after_modules = steps_view(steps@);
    assert(after_modules =~= after_specs + match object_members(bundle@, "wasm_modules"@) {
        Some(m) => module_steps(api@, m),
        None => seq![],
    });
    if let Some(Json::Object(policies)) = bundle.get("policies") {
        proof {
            lemma_members_view(policies@);
        }
        let ghost pv = members_view(policies@);
        let mut i: usize = 0;
        while i < policies.len()
            invariant
                i <= policies@.len(),
                pv == members_view(policies@),
                pv.len() == policies@.len(),
                forall|k: int| 0 <= k < policies@.len() ==> #[trigger] pv[k] == (policies@[k].0@, policies@[k].1@),
                steps_view(steps@) == after_modules + policy_steps(api@, tenant@, pv.take(i as int)),
            decreases policies@.len() - i,
        {
            let id = policies[i].0.as_str();
            let prefix = concat3("app bundle: failed to create policy '", id, "': ");
            let step = make_policy_step(api, tenant, id, member_text(&policies[i].1), prefix);
            let ghost before = steps_view(steps@);
            steps.push(step);
            proof {
                assert(pv.take(i + 1) =~= pv.take(i as int).push(pv[i as int]));
                assert(policy_steps(api@, tenant@, pv.take(i + 1)) =~= policy_steps(api@, tenant@, pv.take(i as int)).push(
                    step_view(step),
                ));
                assert(steps_view(steps@) =~= before.push(step_view(step)));
            }
            i += 1;
        }
        assert(pv.take(i as int) =~= pv);
    }
    assert(steps_view(steps@) =~= bundle_steps(api@, tenant@, bundle@));
    steps
}

/// The requests that install a capability, in order, or why it cannot be
/// installed.
pub fn plan_capability_install(api: &str, tenant: &str, request: &CapabilityRequest) -> (res: Result<
    Vec<InstallStep>,
    String,
>)
    ensures
        match res {
            Ok(steps) => spec_install_plan(api@, tenant@, *request) == Ok::<
                Seq<(Seq<char>, JsonV, Seq<char>)>,
                Seq<char>,
            >(steps_view(steps@)),
            Err(e) => spec_install_plan(api@, tenant@, *request) == Err::<
                Seq<(Seq<char>, JsonV, Seq<char>)>,
                Seq<char>,
            >(e@),
        },
{
    let t = request.capability_type.as_str();
    let name = request.capability_name.as_str();
    let payload = request.payload.as_str();
    let empty_payload = chars_of(payload).len() == 0;
    let mut steps: Vec<InstallStep> = Vec::new();
    if str_eq(t, "os_app") {
        let body = object2("tenant", string_value(tenant), "app_name", string_value(name));
        let step = InstallStep {
            url: concat2(api, "/api/apps/install"),
            body,
            failure_prefix: concat3("failed to install app '", name, "': "),
        };
        steps.push(step);
        assert(steps_view(steps@) =~= seq![step_view(step)]);
        Ok(steps)
    } else if str_eq(t, "specs") {
        if empty_payload {
            return Err(String::from_str("specs capability requires payload with spec content"));
        }
        match read_json(payload) {
            Ok(specs) => {
                let step = make_specs_step(api, tenant, specs, concat3("failed to load specs '", name, "': "));
                steps.push(step);
                assert(steps_view(steps@) =~= seq![step_view(step)]);
                Ok(steps)
            },
            Err(e) => Err(concat2("invalid specs payload JSON: ", e.as_str())),
        }
    } else if str_eq(t, "wasm") {
        if empty_payload {
            return Err(String::from_str("wasm capability requires payload with base64 WASM bytes"));
        }
        let step = make_wasm_step(api, name, payload, concat3("failed to upload WASM '", name, "': "));
        steps.push(step);
        assert(steps_view(steps@) =~= seq![step_view(step)]);
        Ok(steps)
    } else if str_eq(t, "secret") {
        assert(steps_view(steps@) =~= seq![]);
        Ok(steps)
    } else if str_eq(t, "cedar_policy") {
        if empty_payload {
            return Err(String::from_str("cedar_policy capability requires payload with Cedar policy text"));
        }
        let step = make_policy_step(api, tenant, name, payload, concat3("failed to create Cedar policy '", name, "': "));
        steps.push(step);
        assert(steps_view(steps@) =~= seq![step_view(step)]);
        Ok(steps)
    } else if str_eq(t, "app") {
        if empty_payload {
            return Err(String::from_str("app capability requires payload with specs/wasm_modules/policies"));
        }
        match read_json(payload) {
            Ok(bundle) => Ok(plan_bundle(api, tenant, &bundle)),
            Err(e) => Err(concat2("invalid app bundle JSON: ", e.as_str())),
        }
    } else {
        Err(concat3("unknown capability_type: '", t, "'. Expected: os_app, specs, wasm, secret, cedar_policy, app"))
    }
}

/// Whether an installation request was refused: a status of 400 or above.
pub fn install_refused(status: u16) -> (res: bool)
    ensures
        res == (status >= 400),
{
    status >= 400
}

/// How a refused installation request is reported: its prefix, the status,
/// a space and the reply.
pub fn install_failure(step: &InstallStep, status: u16, body: &str) -> (res: String)
    ensures
        res@ == step.failure_prefix@ + decimal(status as nat) + " "@ + body@,
{
    let mut s = step.failure_prefix.clone();
    s.append(i64_to_string(status as i64).as_str());
    s.append(" ");
    s.append(body);
    s
}

} // verus!
