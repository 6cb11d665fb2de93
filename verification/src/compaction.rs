//! Context compaction: the request sent to a summarizing model, the summary
//! read back from its reply, and the conversation text it is given.

use vstd::prelude::*;
use vstd::utf8::{decode_utf8, encode_utf8, is_char_boundary};
use crate::json::{Json, JsonV, opt_str, opt_view, spec_get};
use crate::text::{
    str_eq, str_contains, contains_seq, str_trim, trim, take_chars, spec_truncate,
    str_starts_with, has_prefix,
};

verus! {

/// Prefix of the error that reports expired provider credentials.
pub const COMPACTION_AUTH_EXPIRED_PREFIX: &'static str = "compaction_auth_expired:";

/// The summary used when the model's reply holds none.
pub const SUMMARY_FALLBACK: &'static str = "Summary unavailable";

/// `a` followed by `b`.
fn join2(a: &str, b: &str) -> (res: String)
    ensures
        res@ == a@ + b@,
{
    let mut out = String::from_str(a);
    out.append(b);
    out
}

/// `a`, `b` and `c` in turn.
fn join3(a: &str, b: &str, c: &str) -> (res: String)
    ensures
        res@ == a@ + b@ + c@,
{
    let mut out = String::from_str(a);
    out.append(b);
    out.append(c);
    out
}

/// The endpoint a provider is called at when none is configured.
pub open spec fn spec_default_api_url(provider: Seq<char>) -> Seq<char> {
    if provider == "openai"@ {
        "https://api.openai.com/v1/responses"@
    } else if provider == "openai_codex"@ {
        "https://chatgpt.com/backend-api/codex/responses"@
    } else if provider == "openrouter"@ {
        "https://openrouter.ai/api/v1/chat/completions"@
    } else {
        "https://api.anthropic.com/v1/messages"@
    }
}

/// The default endpoint of a compaction provider; any provider not named
/// otherwise is Anthropic.
pub fn default_compaction_provider_api_url(provider: &str) -> (res: &'static str)
    ensures
        res@ == spec_default_api_url(provider@),
{
    if str_eq(provider, "openai") {
        "https://api.openai.com/v1/responses"
    } else if str_eq(provider, "openai_codex") {
        "https://chatgpt.com/backend-api/codex/responses"
    } else if str_eq(provider, "openrouter") {
        "https://openrouter.ai/api/v1/chat/completions"
    } else {
        "https://api.anthropic.com/v1/messages"
    }
}

/// The configuration key that overrides a provider's endpoint.
pub open spec fn spec_api_url_key(provider: Seq<char>) -> Seq<char> {
    if provider == "openai"@ {
        "openai_api_url"@
    } else if provider == "openai_codex"@ {
        "openai_codex_api_url"@
    } else if provider == "openrouter"@ {
        "openrouter_api_url"@
    } else {
        "anthropic_api_url"@
    }
}

/// The endpoint of a compaction provider: the configured string under the
/// provider's key, else its default.
pub open spec fn spec_api_url(config: JsonV, provider: Seq<char>) -> Seq<char> {
    match opt_str(spec_get(config, spec_api_url_key(provider))) {
        Some(url) => url,
        None => spec_default_api_url(provider),
    }
}

/// The endpoint to call a compaction provider at.
pub fn configured_compaction_provider_api_url(config: &Json, provider: &str) -> (res: String)
    ensures
        res@ == spec_api_url(config@, provider@),
{
    let key = if str_eq(provider, "openai") {
        "openai_api_url"
    } else if str_eq(provider, "openai_codex") {
        "openai_codex_api_url"
    } else if str_eq(provider, "openrouter") {
        "openrouter_api_url"
    } else {
        "anthropic_api_url"
    };
    match config.get_str(key) {
        Some(url) => url.to_string(),
        None => default_compaction_provider_api_url(provider).to_string(),
    }
}

/// A configuration value that still holds a `{secret:...}` placeholder.
pub open spec fn is_secret_template(value: Seq<char>) -> bool {
    contains_seq(value, "{secret:"@)
}

/// Whether a configured value is an unresolved secret template.
pub fn is_unresolved_secret_template(value: &str) -> (res: bool)
    ensures
        res == is_secret_template(value@),
{
    str_contains(value, "{secret:")
}

/// The error that reports expired credentials, carrying the first 300
/// characters of the provider's reply.
pub open spec fn spec_auth_expired_error(body: Seq<char>) -> Seq<char> {
    COMPACTION_AUTH_EXPIRED_PREFIX@ + " "@ + spec_truncate(body, 300)
}

/// The error to return when the provider reports expired credentials.
pub fn compaction_auth_expired_error(body: &str) -> (res: String)
    ensures
        res@ == spec_auth_expired_error(body@),
{
    let head = take_chars(body, 300);
    join3(COMPACTION_AUTH_EXPIRED_PREFIX, " ", head.as_str())
}

/// The provider's reply carried by an expired-credentials error: what
/// follows the prefix, trimmed; `None` for any other error.
pub open spec fn spec_auth_expired_reason(error: Seq<char>) -> Option<Seq<char>> {
    if has_prefix(error, COMPACTION_AUTH_EXPIRED_PREFIX@) {
        Some(trim(error.skip(COMPACTION_AUTH_EXPIRED_PREFIX@.len() as int)))
    } else {
        None
    }
}

/// Reads the provider's reply back out of an expired-credentials error.
pub fn compaction_auth_expired_reason(error: &str) -> (res: Option<String>)
    ensures
        crate::text::opt_string(res) == spec_auth_expired_reason(error@),
{
    if !str_starts_with(error, COMPACTION_AUTH_EXPIRED_PREFIX) {
        return None;
    }
    let chars = crate::text::chars_of(error);
    let prefix_len = crate::text::chars_of(COMPACTION_AUTH_EXPIRED_PREFIX).len();
    let rest = crate::text::slice_chars(&chars, prefix_len, chars.len());
    assert(rest@ =~= error@.skip(COMPACTION_AUTH_EXPIRED_PREFIX@.len() as int));
    let trimmed = crate::text::trim_chars(&rest);
    Some(crate::text::string_from_chars(&trimmed))
}

/// The byte length that `str::len` reports for text `s`: the length of its
/// UTF-8 encoding.
pub open spec fn utf8_len(s: Seq<char>) -> usize {
    encode_utf8(s).len() as usize
}

/// The token estimate of a summary: a quarter of the UTF-8 length of its
/// trimmed text, rounded up (so at least 1 unless that text is empty).
pub open spec fn spec_summary_tokens(summary: Seq<char>) -> int {
    let t = trim(summary);
    let n = utf8_len(t) as int;
    if t.len() == 0 {
        0
    } else {
        n / 4 + if n % 4 == 0 { 0int } else { 1int }
    }
}

/// Estimates the tokens a summary takes in the context window.
pub fn estimate_summary_tokens(summary: &str) -> (res: usize)
    ensures
        res == spec_summary_tokens(summary@),
{
    let trimmed = str_trim(summary);
    let t = trimmed.as_str();
    if t.is_empty() {
        return 0;
    }
    let n = t.len();
    n / 4 + if n % 4 == 0 { 0 } else { 1 }
}

/// The fixed text of the summary made without a model.
pub const MOCK_SUMMARY_HEAD: &'static str = "## Active Goal\nContinue the active task.\n\n## Episodes\n\n### Episode: Prior conversation\n- **Goal:** Earlier conversation context\n- **Worked:** Conversation compacted using mock path\n- **Failed:** None recorded\n- **Discoveries:** No real model configured for compaction\n- **Artifacts:** None\n\n## Current State\n- **Where we are:** Resuming after compaction\n- **Next:** Continue the active task\n- **Open questions:** None\n\n---\nRaw context tail:\n";

/// A summary made without a model: the fixed text followed by the first 600
/// characters of the conversation.
pub fn build_mock_summary(conversation_text: &str) -> (res: String)
    ensures
        res@ == MOCK_SUMMARY_HEAD@ + spec_truncate(conversation_text@, 600),
{
    let tail = take_chars(conversation_text, 600);
    join2(MOCK_SUMMARY_HEAD, tail.as_str())
}

/// The user turn sent to the summarizing model.
pub open spec fn spec_user_prompt(conversation_text: Seq<char>) -> Seq<char> {
    "Summarize this conversation:\n\n"@ + conversation_text
}

/// Wraps the conversation text into the user turn.
pub fn compaction_user_prompt(conversation_text: &str) -> (res: String)
    ensures
        res@ == spec_user_prompt(conversation_text@),
{
    join2("Summarize this conversation:\n\n", conversation_text)
}

/// The headers of an Anthropic call: an OAuth token (one holding
/// `sk-ant-oat`) goes as a bearer token with the OAuth beta flag, any other
/// key as `x-api-key`.
pub open spec fn spec_anthropic_headers(api_key: Seq<char>) -> Seq<(Seq<char>, Seq<char>)> {
    if contains_seq(api_key, "sk-ant-oat"@) {
        seq![
            ("authorization"@, "Bearer "@ + api_key),
            ("anthropic-version"@, "2023-06-01"@),
            ("anthropic-beta"@, "oauth-2025-04-20"@),
            ("content-type"@, "application/json"@),
        ]
    } else {
        seq![
            ("x-api-key"@, api_key),
            ("anthropic-version"@, "2023-06-01"@),
            ("content-type"@, "application/json"@),
        ]
    }
}

/// Header pairs as plain values.
pub open spec fn headers_view(h: Seq<(String, String)>) -> Seq<(Seq<char>, Seq<char>)> {
    h.map_values(|p: (String, String)| (p.0@, p.1@))
}

/// The headers of a compaction call to Anthropic.
pub fn anthropic_compaction_headers(api_key: &str) -> (res: Vec<(String, String)>)
    ensures
        headers_view(res@) == spec_anthropic_headers(api_key@),
{
    let mut out: Vec<(String, String)> = Vec::new();
    if str_contains(api_key, "sk-ant-oat") {
        out.push(("authorization".to_string(), join2("Bearer ", api_key)));
        out.push(("anthropic-version".to_string(), "2023-06-01".to_string()));
        out.push(("anthropic-beta".to_string(), "oauth-2025-04-20".to_string()));
        out.push(("content-type".to_string(), "application/json".to_string()));
    } else {
        out.push(("x-api-key".to_string(), api_key.to_string()));
        out.push(("anthropic-version".to_string(), "2023-06-01".to_string()));
        out.push(("content-type".to_string(), "application/json".to_string()));
    }
    assert(headers_view(out@) =~= spec_anthropic_headers(api_key@));
    out
}

/// A configured credential that can be used: not blank, and not a secret
/// placeholder left unresolved.
pub open spec fn usable_credential(v: Seq<char>) -> bool {
    trim(v).len() > 0 && !is_secret_template(v)
}

/// The first usable credential among the configuration strings under
/// `keys`, in order.
pub open spec fn first_credential(config: JsonV, keys: Seq<Seq<char>>) -> Option<Seq<char>>
    decreases keys.len(),
{
    if keys.len() == 0 {
        None
    } else {
        match opt_str(spec_get(config, keys[0])) {
            Some(v) if usable_credential(v) => Some(v),
            _ => first_credential(config, keys.drop_first()),
        }
    }
}

/// The configuration keys that may hold a provider's credential, in the
/// order they are tried; `None` for a provider that is not supported.
pub open spec fn credential_keys(provider: Seq<char>) -> Option<Seq<Seq<char>>> {
    if provider == "anthropic"@ {
        Some(seq!["anthropic_api_key"@, "api_key"@])
    } else if provider == "openai"@ {
        Some(seq!["openai_api_key"@])
    } else if provider == "openai_codex"@ {
        Some(seq!["openai_codex_access_token"@, "openai_codex_token"@])
    } else if provider == "openrouter"@ {
        Some(seq!["openrouter_api_key"@])
    } else if provider == "mock"@ {
        Some(seq![])
    } else {
        None
    }
}

/// The provider and credential a compaction runs with: `mock` needs none;
/// a supported provider takes its first usable credential, and fails
/// without one; any other provider is refused.
pub open spec fn spec_resolve_provider(config: JsonV, provider: Seq<char>) -> Result<
    (Seq<char>, Seq<char>),
    Seq<char>,
> {
    match credential_keys(provider) {
        None => Err("unsupported compaction provider: "@ + provider),
        Some(keys) => if provider == "mock"@ {
            Ok((provider, seq![]))
        } else {
            match first_credential(config, keys) {
                Some(key) => Ok((provider, key)),
                None => Err("missing API key for provider="@ + provider),
            }
        },
    }
}

/// A resolved provider as plain values.
pub open spec fn provider_view(r: Result<(String, String), String>) -> Result<
    (Seq<char>, Seq<char>),
    Seq<char>,
> {
    match r {
        Ok((p, k)) => Ok((p@, k@)),
        Err(e) => Err(e@),
    }
}

/// The first usable credential under `keys`.
fn find_credential(config: &Json, keys: &[&str]) -> (res: Option<String>)
    ensures
        crate::text::opt_string(res) == first_credential(
            config@,
            keys@.map_values(|k: &str| k@),
        ),
{
    let ghost kv = keys@.map_values(|k: &str| k@);
    let mut i: usize = 0;
    assert(kv.skip(0) =~= kv);
    while i < keys.len()
        invariant
            i <= keys@.len(),
            kv == keys@.map_values(|k: &str| k@),
            first_credential(config@, kv) == first_credential(config@, kv.skip(i as int)),
        decreases keys@.len() - i,
    {
        assert(kv.skip(i as int).drop_first() =~= kv.skip(i + 1));
        assert(kv.skip(i as int)[0] == keys@[i as int]@);
        if let Some(v) = config.get_str(keys[i]) {
            let t = str_trim(v);
            if !t.as_str().is_empty() && !is_unresolved_secret_template(v) {
                return Some(v.to_string());
            }
        }
        i += 1;
    }
    assert(kv.skip(i as int).len() == 0);
    None
}

/// The outcome for a supported provider once its credential was looked for.
fn credential_outcome(p: &str, found: Option<String>) -> (res: Result<(String, String), String>)
    ensures
        provider_view(res) == (match crate::text::opt_string(found) {
            Some(key) => Ok((p@, key)),
            None => Err("missing API key for provider="@ + p@),
        }),
{
    match found {
        Some(key) => Ok((p.to_string(), key)),
        None => Err(join2("missing API key for provider=", p)),
    }
}

/// Picks the provider and credential for a compaction call.
#[verifier::spinoff_prover]
pub fn resolve_compaction_provider(config: &Json, configured_provider: &str) -> (res: Result<
    (String, String),
    String,
>)
    ensures
        provider_view(res) == spec_resolve_provider(config@, configured_provider@),
{
    let p = configured_provider;
    proof {
        reveal_strlit("anthropic");
        reveal_strlit("openai");
        reveal_strlit("openai_codex");
        reveal_strlit("openrouter");
        reveal_strlit("mock");
        assert("openai"@.len() == 6 && "openai_codex"@.len() == 12);
    }
    if str_eq(p, "anthropic") {
        let keys = ["anthropic_api_key", "api_key"];
        assert(keys@.map_values(|k: &str| k@) =~= seq!["anthropic_api_key"@, "api_key"@]);
        credential_outcome(p, find_credential(config, &keys))
    } else if str_eq(p, "openai") {
        let keys = ["openai_api_key"];
        assert(keys@.map_values(|k: &str| k@) =~= seq!["openai_api_key"@]);
        credential_outcome(p, find_credential(config, &keys))
    } else if str_eq(p, "openai_codex") {
        let keys = ["openai_codex_access_token", "openai_codex_token"];
        assert(keys@.map_values(|k: &str| k@) =~= seq![
            "openai_codex_access_token"@,
            "openai_codex_token"@,
        ]);
        credential_outcome(p, find_credential(config, &keys))
    } else if str_eq(p, "openrouter") {
        let keys = ["openrouter_api_key"];
        assert(keys@.map_values(|k: &str| k@) =~= seq!["openrouter_api_key"@]);
        credential_outcome(p, find_credential(config, &keys))
    } else if str_eq(p, "mock") {
        Ok((p.to_string(), String::new()))
    } else {
        Err(join2("unsupported compaction provider: ", p))
    }
}

/// A JSON string.
pub open spec fn jstring(s: Seq<char>) -> JsonV {
    JsonV::String(s)
}

/// A chat message `{"role": role, "content": content}`.
pub open spec fn chat_message(role: Seq<char>, content: Seq<char>) -> JsonV {
    JsonV::Object(seq![("role"@, jstring(role)), ("content"@, jstring(content))])
}

/// The body of the compaction call for each provider: the Responses API
/// (`openai`, and `openai_codex`, which also asks for a stream) takes the
/// system prompt as `instructions` and the input as a list; OpenRouter takes
/// chat messages; Anthropic takes a `system` field beside the messages.
pub open spec fn spec_request_body(
    provider: Seq<char>,
    model: Seq<char>,
    system_prompt: Seq<char>,
    conversation_text: Seq<char>,
) -> JsonV {
    let user = chat_message("user"@, spec_user_prompt(conversation_text));
    if provider == "openai"@ {
        JsonV::Object(
            seq![
                ("model"@, jstring(model)),
                ("instructions"@, jstring(system_prompt)),
                ("input"@, JsonV::Array(seq![user])),
                ("store"@, JsonV::Bool(false)),
            ],
        )
    } else if provider == "openai_codex"@ {
        JsonV::Object(
            seq![
                ("model"@, jstring(model)),
                ("instructions"@, jstring(system_prompt)),
                ("input"@, JsonV::Array(seq![user])),
                ("stream"@, JsonV::Bool(true)),
                ("store"@, JsonV::Bool(false)),
            ],
        )
    } else if provider == "openrouter"@ {
        JsonV::Object(
            seq![
                ("model"@, jstring(model)),
                ("max_tokens"@, crate::trajectory::juint(2048)),
                (
                    "messages"@,
                    JsonV::Array(seq![chat_message("system"@, system_prompt), user]),
                ),
            ],
        )
    } else {
        JsonV::Object(
            seq![
                ("model"@, jstring(model)),
                ("max_tokens"@, crate::trajectory::juint(2048)),
                ("system"@, jstring(system_prompt)),
                ("messages"@, JsonV::Array(seq![user])),
            ],
        )
    }
}

/// `{"role": role, "content": content}`.
fn make_chat_message(role: &str, content: &str) -> (res: Json)
    ensures
        res@ == chat_message(role@, content@),
{
    let mut m: Vec<(String, Json)> = Vec::new();
    proof {
        crate::json::lemma_members_view_empty(m@);
    }
    crate::json::push_member(&mut m, "role", Json::String(role.to_string()));
    crate::json::push_member(&mut m, "content", Json::String(content.to_string()));
    assert(crate::json::members_view(m@) =~= seq![
        ("role"@, jstring(role@)),
        ("content"@, jstring(content@)),
    ]);
    Json::Object(m)
}

/// A JSON array of the given items.
fn make_array(items: Vec<Json>) -> (res: Json)
    ensures
        res@ == JsonV::Array(crate::json::items_view(items@)),
{
    Json::Array(items)
}

/// One item in an array.
fn single(item: Json) -> (res: Json)
    ensures
        res@ == JsonV::Array(seq![item@]),
{
    let mut v: Vec<Json> = Vec::new();
    proof {
        crate::json::lemma_items_view_empty(v@);
    }
    crate::json::push_item(&mut v, item);
    assert(crate::json::items_view(v@) =~= seq![item@]);
    make_array(v)
}

/// Builds the request body of the compaction call.
pub fn build_compaction_request_body(
    provider: &str,
    model: &str,
    system_prompt: &str,
    conversation_text: &str,
) -> (res: Json)
    ensures
        res@ == spec_request_body(provider@, model@, system_prompt@, conversation_text@),
{
    proof {
        reveal_strlit("openai");
        reveal_strlit("openai_codex");
        reveal_strlit("openrouter");
    }
    let user_text = compaction_user_prompt(conversation_text);
    let user = make_chat_message("user", user_text.as_str());
    let mut m: Vec<(String, Json)> = Vec::new();
    proof {
        crate::json::lemma_members_view_empty(m@);
    }
    crate::json::push_member(&mut m, "model", Json::String(model.to_string()));
    let ghost u = user@;
    let ghost mv = jstring(model@);
    let ghost sv = jstring(system_prompt@);
    if str_eq(provider, "openai") || str_eq(provider, "openai_codex") {
        crate::json::push_member(&mut m, "instructions", Json::String(system_prompt.to_string()));
        crate::json::push_member(&mut m, "input", single(user));
        if str_eq(provider, "openai_codex") {
            crate::json::push_member(&mut m, "stream", Json::Bool(true));
            crate::json::push_member(&mut m, "store", Json::Bool(false));
            assert(crate::json::members_view(m@) =~= seq![
                ("model"@, mv),
                ("instructions"@, sv),
                ("input"@, JsonV::Array(seq![u])),
                ("stream"@, JsonV::Bool(true)),
                ("store"@, JsonV::Bool(false)),
            ]);
            assert(provider@ == "openai_codex"@);
            assert("openai_codex"@.len() == 12);
            assert(provider@ != "openai"@);
            assert(JsonV::Object(crate::json::members_view(m@)) == spec_request_body(
                provider@,
                model@,
                system_prompt@,
                conversation_text@,
            ));
        } else {
            crate::json::push_member(&mut m, "store", Json::Bool(false));
            assert(crate::json::members_view(m@) =~= seq![
                ("model"@, mv),
                ("instructions"@, sv),
                ("input"@, JsonV::Array(seq![u])),
                ("store"@, JsonV::Bool(false)),
            ]);
        }
    } else if str_eq(provider, "openrouter") {
        crate::json::push_member(&mut m, "max_tokens", Json::Number(crate::json::JsonNumber::PosInt(2048)));
        let mut msgs: Vec<Json> = Vec::new();
        proof {
            crate::json::lemma_items_view_empty(msgs@);
        }
        let sys = make_chat_message("system", system_prompt);
        let ghost sysv = sys@;
        crate::json::push_item(&mut msgs, sys);
        crate::json::push_item(&mut msgs, user);
        assert(crate::json::items_view(msgs@) =~= seq![sysv, u]);
        crate::json::push_member(&mut m, "messages", make_array(msgs));
        assert(crate::json::members_view(m@) =~= seq![
            ("model"@, mv),
            ("max_tokens"@, crate::trajectory::juint(2048)),
            ("messages"@, JsonV::Array(seq![sysv, u])),
        ]);
    } else {
        crate::json::push_member(&mut m, "max_tokens", Json::Number(crate::json::JsonNumber::PosInt(2048)));
        crate::json::push_member(&mut m, "system", Json::String(system_prompt.to_string()));
        crate::json::push_member(&mut m, "messages", single(user));
        assert(crate::json::members_view(m@) =~= seq![
            ("model"@, mv),
            ("max_tokens"@, crate::trajectory::juint(2048)),
            ("system"@, sv),
            ("messages"@, JsonV::Array(seq![u])),
        ]);
    }
    let ghost members = crate::json::members_view(m@);
    let res = Json::Object(m);
    assert(res@ == JsonV::Object(members));
    res
}

/// The text of one content part: its `text` string, or nothing.
pub open spec fn part_text(part: JsonV) -> Seq<char> {
    match opt_str(spec_get(part, "text"@)) {
        Some(t) => t,
        None => seq![],
    }
}

/// The texts of the content parts, run together.
pub open spec fn combined_text(parts: Seq<JsonV>) -> Seq<char>
    decreases parts.len(),
{
    if parts.len() == 0 {
        seq![]
    } else {
        combined_text(parts.drop_last()) + part_text(parts.last())
    }
}

/// The text of an output item: for a `message` item whose `content` is a
/// list, its parts' texts run together, when that is not empty.
pub open spec fn item_text(item: JsonV) -> Option<Seq<char>> {
    if opt_str(spec_get(item, "type"@)) != Some("message"@) {
        None
    } else {
        match crate::json::opt_array(spec_get(item, "content"@)) {
            Some(parts) => if combined_text(parts).len() > 0 {
                Some(combined_text(parts))
            } else {
                None
            },
            None => None,
        }
    }
}

/// The text of the first output item that has one.
pub open spec fn first_item_text(items: Seq<JsonV>) -> Option<Seq<char>>
    decreases items.len(),
{
    if items.len() == 0 {
        None
    } else {
        match item_text(items[0]) {
            Some(t) => Some(t),
            None => first_item_text(items.drop_first()),
        }
    }
}

/// The text of a Responses API reply: that of the first item of its
/// `output` list that has one.
pub open spec fn spec_responses_text(parsed: JsonV) -> Option<Seq<char>> {
    match crate::json::opt_array(spec_get(parsed, "output"@)) {
        Some(items) => first_item_text(items),
        None => None,
    }
}

/// The text of one output item.
fn message_text(item: &Json) -> (res: Option<String>)
    ensures
        crate::text::opt_string(res) == item_text(item@),
{
    match item.get_str("type") {
        Some(t) => {
            if !str_eq(t, "message") {
                return None;
            }
        },
        None => {
            return None;
        },
    }
    let parts = match item.get_array("content") {
        Some(c) => c,
        None => {
            return None;
        },
    };
    let ghost pv = crate::json::items_view(parts@);
    proof {
        crate::json::lemma_items_view(parts@);
    }
    let mut combined = String::new();
    let mut k: usize = 0;
    while k < parts.len()
        invariant
            k <= parts@.len(),
            pv == crate::json::items_view(parts@),
            pv.len() == parts@.len(),
            forall|j: int| 0 <= j < parts@.len() ==> #[trigger] pv[j] == parts@[j]@,
            combined@ == combined_text(pv.take(k as int)),
        decreases parts@.len() - k,
    {
        assert(pv.take(k + 1).drop_last() =~= pv.take(k as int));
        if let Some(t) = parts[k].get_str("text") {
            combined.append(t);
        }
        k += 1;
    }
    assert(pv.take(k as int) =~= pv);
    if combined.as_str().is_empty() {
        None
    } else {
        Some(combined)
    }
}

/// The text of a Responses API reply.
pub fn parse_openai_responses_text(parsed: &Json) -> (res: Option<String>)
    ensures
        crate::text::opt_string(res) == spec_responses_text(parsed@),
{
    let output = match parsed.get_array("output") {
        Some(o) => o,
        None => {
            return None;
        },
    };
    let ghost items = crate::json::items_view(output@);
    proof {
        crate::json::lemma_items_view(output@);
    }
    let mut i: usize = 0;
    assert(items.skip(0) =~= items);
    while i < output.len()
        invariant
            i <= output@.len(),
            items == crate::json::items_view(output@),
            items.len() == output@.len(),
            forall|j: int| 0 <= j < output@.len() ==> #[trigger] items[j] == output@[j]@,
            first_item_text(items) == first_item_text(items.skip(i as int)),
            spec_responses_text(parsed@) == first_item_text(items),
        decreases output@.len() - i,
    {
        assert(items.skip(i as int).drop_first() =~= items.skip(i + 1));
        assert(items.skip(i as int)[0] == output@[i as int]@);
        let found = message_text(&output[i]);
        if let Some(t) = found {
            assert(item_text(items.skip(i as int)[0]) == Some(t@));
            return Some(t);
        }
        i += 1;
    }
    None
}

/// What has been gathered from a Codex event stream so far: the output
/// items, and the text streamed in deltas.
pub struct SseState {
    pub items: Seq<JsonV>,
    pub streamed: Seq<char>,
}

/// The event a stream line carries: the line trimmed, without an
/// empty line or `[DONE]`, without a leading `data: `, read as JSON.
pub open spec fn sse_event(line: Seq<char>) -> Option<JsonV> {
    let l = trim(line);
    if l.len() == 0 || l == "[DONE]"@ {
        None
    } else {
        crate::json_text::parsed_json(
            match crate::text::strip_prefix(l, "data: "@) {
                Some(rest) => rest,
                None => l,
            },
        )
    }
}

/// One stream event applied to the gathered state: a finished output item is
/// kept; a text delta (or, lacking one, its text) is appended; a finished text
/// counts only when nothing was streamed before it; a completed response with
/// a non-empty output list replaces the items kept.
pub open spec fn sse_apply(st: SseState, event: JsonV) -> SseState {
    let kind = match opt_str(spec_get(event, "type"@)) {
        Some(k) => k,
        None => seq![],
    };
    if kind == "response.output_item.done"@ {
        match spec_get(event, "item"@) {
            Some(item) => SseState { items: st.items.push(item), ..st },
            None => st,
        }
    } else if kind == "response.output_text.delta"@ {
        match opt_str(spec_get(event, "delta"@)) {
            Some(d) => SseState { streamed: st.streamed + d, ..st },
            None => match opt_str(spec_get(event, "text"@)) {
                Some(t) => SseState { streamed: st.streamed + t, ..st },
                None => st,
            },
        }
    } else if kind == "response.output_text.done"@ {
        match opt_str(spec_get(event, "text"@)) {
            Some(t) if st.streamed.len() == 0 => SseState { streamed: st.streamed + t, ..st },
            _ => st,
        }
    } else if kind == "response.completed"@ {
        match spec_get(event, "response"@) {
            Some(r) => match crate::json::opt_array(spec_get(r, "output"@)) {
                Some(out) if out.len() > 0 => SseState { items: out, ..st },
                _ => st,
            },
            None => st,
        }
    } else {
        st
    }
}

/// The state gathered from the stream lines, in order.
pub open spec fn sse_fold(lines: Seq<Seq<char>>) -> SseState
    decreases lines.len(),
{
    if lines.len() == 0 {
        SseState { items: seq![], streamed: seq![] }
    } else {
        let st = sse_fold(lines.drop_last());
        match sse_event(lines.last()) {
            Some(ev) => sse_apply(st, ev),
            None => st,
        }
    }
}

/// A message output item holding one text part.
pub open spec fn text_message_item(text: Seq<char>) -> JsonV {
    JsonV::Object(
        seq![
            ("type"@, jstring("message"@)),
            (
                "content"@,
                JsonV::Array(
                    seq![
                        JsonV::Object(
                            seq![("type"@, jstring("output_text"@)), ("text"@, jstring(text))],
                        ),
                    ],
                ),
            ),
        ],
    )
}

/// A Codex event stream as a Responses API reply `{"output": items}`: the
/// items gathered, or, when there are none, one message holding the
/// streamed text trimmed, if that is not empty.
pub open spec fn spec_sse_output(body: Seq<char>) -> JsonV {
    let st = sse_fold(crate::text::lines(body));
    let t = trim(st.streamed);
    let items = if st.items.len() == 0 && t.len() > 0 {
        seq![text_message_item(t)]
    } else {
        st.items
    };
    JsonV::Object(seq![("output"@, JsonV::Array(items))])
}

/// Copies of the given values.
fn duplicate_all(values: &Vec<Json>) -> (res: Vec<Json>)
    ensures
        crate::json::items_view(res@) == crate::json::items_view(values@),
{
    let mut out: Vec<Json> = Vec::new();
    proof {
        crate::json::lemma_items_view(values@);
        crate::json::lemma_items_view_empty(out@);
    }
    let mut i: usize = 0;
    while i < values.len()
        invariant
            i <= values@.len(),
            crate::json::items_view(values@).len() == values@.len(),
            forall|j: int| 0 <= j < values@.len() ==> #[trigger] crate::json::items_view(values@)[j] == values@[j]@,
            crate::json::items_view(out@) == crate::json::items_view(values@).take(i as int),
        decreases values@.len() - i,
    {
        crate::json::push_item(&mut out, values[i].duplicate());
        assert(crate::json::items_view(values@).take(i + 1) =~= crate::json::items_view(values@).take(i as int).push(values@[i as int]@));
        i += 1;
    }
    assert(crate::json::items_view(values@).take(i as int) =~= crate::json::items_view(values@));
    out
}

/// The event on one stream line, if it carries one.
pub(crate) fn read_sse_event(line: &Vec<char>) -> (res: Option<Json>)
    ensures
        crate::json::opt_json_owned(res) == sse_event(line@),
{
    proof {
        reveal_strlit("[DONE]");
    }
    let l = crate::text::trim_chars(line);
    if l.len() == 0 {
        return None;
    }
    let text = crate::text::string_from_chars(&l);
    if str_eq(text.as_str(), "[DONE]") {
        return None;
    }
    let body = match crate::text::strip_prefix_chars(&l, "data: ") {
        Some(rest) => crate::text::string_from_chars(&rest),
        None => text,
    };
    crate::json_text::parse_json(body.as_str())
}

/// Applies one stream event to the gathered items and text.
pub(crate) fn apply_sse_event(items: &mut Vec<Json>, streamed: &mut String, event: &Json)
    ensures
        sse_apply(
            SseState { items: crate::json::items_view(old(items)@), streamed: old(streamed)@ },
            event@,
        ) == (SseState { items: crate::json::items_view(final(items)@), streamed: final(streamed)@ }),
{
    proof {
        reveal_strlit("response.output_item.done");
        reveal_strlit("response.output_text.delta");
        reveal_strlit("response.output_text.done");
        reveal_strlit("response.completed");
        reveal_strlit("");
        assert("response.output_item.done"@[16] != "response.output_text.done"@[16]);
        assert("response.output_item.done"@ != "response.output_text.done"@);
        assert("response.output_text.delta"@.len() != "response.output_item.done"@.len());
        assert("response.output_text.delta"@.len() != "response.output_text.done"@.len());
        assert("response.completed"@.len() != "response.output_text.done"@.len());
    }
    let kind = match event.get_str("type") {
        Some(k) => k,
        None => "",
    };
    if str_eq(kind, "response.output_item.done") {
        if let Some(item) = event.get("item") {
            crate::json::push_item(items, item.duplicate());
        }
    } else if str_eq(kind, "response.output_text.delta") {
        if let Some(d) = event.get_str("delta") {
            streamed.append(d);
        } else if let Some(t) = event.get_str("text") {
            streamed.append(t);
        }
    } else if str_eq(kind, "response.output_text.done") {
        if streamed.as_str().is_empty() {
            if let Some(t) = event.get_str("text") {
                streamed.append(t);
            }
        }
    } else if str_eq(kind, "response.completed") {
        if let Some(r) = event.get("response") {
            if let Some(out) = r.get_array("output") {
                if out.len() > 0 {
                    proof {
                        crate::json::lemma_items_view(out@);
                    }
                    *items = duplicate_all(out);
                }
            }
        }
    }
}

/// Gathers a Codex event stream into a Responses API reply that
/// `parse_openai_responses_text` reads.
pub fn collect_codex_sse_output(body: &str) -> (res: Json)
    ensures
        res@ == spec_sse_output(body@),
{
    let lines = crate::text::lines_of(&crate::text::chars_of(body));
    let ghost lv = lines@.map_values(|l: Vec<char>| l@);
    let mut items: Vec<Json> = Vec::new();
    let mut streamed = String::new();
    proof {
        crate::json::lemma_items_view_empty(items@);
        assert(lv.take(0) =~= Seq::<Seq<char>>::empty());
    }
    let mut i: usize = 0;
    while i < lines.len()
        invariant
            i <= lines@.len(),
            lv == lines@.map_values(|l: Vec<char>| l@),
            lv == crate::text::lines(body@),
            sse_fold(lv.take(i as int)) == (SseState {
                items: crate::json::items_view(items@),
                streamed: streamed@,
            }),
        decreases lines@.len() - i,
    {
        assert(lv.take(i + 1).drop_last() =~= lv.take(i as int));
        assert(lv.take(i + 1).last() == lines@[i as int]@);
        if let Some(event) = read_sse_event(&lines[i]) {
            apply_sse_event(&mut items, &mut streamed, &event);
        }
        i += 1;
    }
    assert(lv.take(i as int) =~= lv);
    let t = str_trim(streamed.as_str());
    if items.len() == 0 && !t.as_str().is_empty() {
        let mut part: Vec<(String, Json)> = Vec::new();
        proof {
            crate::json::lemma_members_view_empty(part@);
        }
        crate::json::push_member(&mut part, "type", Json::String("output_text".to_string()));
        crate::json::push_member(&mut part, "text", Json::String(t));
        let ghost pv = crate::json::members_view(part@);
        assert(pv =~= seq![("type"@, jstring("output_text"@)), ("text"@, jstring(trim(streamed@)))]);
        let mut item: Vec<(String, Json)> = Vec::new();
        proof {
            crate::json::lemma_members_view_empty(item@);
        }
        crate::json::push_member(&mut item, "type", Json::String("message".to_string()));
        crate::json::push_member(&mut item, "content", single(Json::Object(part)));
        let ghost iv = crate::json::members_view(item@);
        assert(iv =~= seq![
            ("type"@, jstring("message"@)),
            ("content"@, JsonV::Array(seq![JsonV::Object(pv)])),
        ]);
        assert(JsonV::Object(iv) =~= text_message_item(trim(streamed@)));
        crate::json::push_item(&mut items, Json::Object(item));
    }
    let mut members: Vec<(String, Json)> = Vec::new();
    proof {
        crate::json::lemma_members_view_empty(members@);
    }
    let ghost final_items = crate::json::items_view(items@);
    crate::json::push_member(&mut members, "output", make_array(items));
    assert(crate::json::members_view(members@) =~= seq![("output"@, JsonV::Array(final_items))]);
    Json::Object(members)
}

/// The first block of a list whose `type` is `text`.
pub open spec fn first_text_block(blocks: Seq<JsonV>) -> Option<JsonV>
    decreases blocks.len(),
{
    if blocks.len() == 0 {
        None
    } else if opt_str(spec_get(blocks[0], "type"@)) == Some("text"@) {
        Some(blocks[0])
    } else {
        first_text_block(blocks.drop_first())
    }
}

/// The summary in an OpenRouter chat completion: the content of the first
/// choice's message.
pub open spec fn openrouter_text(parsed: JsonV) -> Option<Seq<char>> {
    match crate::json::opt_array(spec_get(parsed, "choices"@)) {
        Some(choices) if choices.len() > 0 => match spec_get(choices[0], "message"@) {
            Some(m) => opt_str(spec_get(m, "content"@)),
            None => None,
        },
        _ => None,
    }
}

/// The summary in an Anthropic messages reply: the text of its first
/// `text` block.
pub open spec fn anthropic_text(parsed: JsonV) -> Option<Seq<char>> {
    match crate::json::opt_array(spec_get(parsed, "content"@)) {
        Some(blocks) => match first_text_block(blocks) {
            Some(b) => opt_str(spec_get(b, "text"@)),
            None => None,
        },
        None => None,
    }
}

/// A text found, or the fallback summary.
pub open spec fn or_fallback(t: Option<Seq<char>>) -> Seq<char> {
    match t {
        Some(t) => t,
        None => SUMMARY_FALLBACK@,
    }
}

/// The summary read from a compaction reply: `openai_codex` replies are
/// event streams, the others JSON in the provider's own shape; where the
/// reply holds no summary, the fallback text.
pub open spec fn spec_compaction_text(provider: Seq<char>, body: Seq<char>) -> Seq<char> {
    if provider == "openai_codex"@ {
        or_fallback(spec_responses_text(spec_sse_output(body)))
    } else {
        match crate::json_text::parsed_json(body) {
            None => SUMMARY_FALLBACK@,
            Some(v) => or_fallback(
                if provider == "openai"@ {
                    spec_responses_text(v)
                } else if provider == "openrouter"@ {
                    openrouter_text(v)
                } else {
                    anthropic_text(v)
                },
            ),
        }
    }
}

/// The content of the first choice's message.
fn read_openrouter_text(parsed: &Json) -> (res: Option<String>)
    ensures
        crate::text::opt_string(res) == openrouter_text(parsed@),
{
    let choices = match parsed.get_array("choices") {
        Some(c) => c,
        None => {
            return None;
        },
    };
    if choices.len() == 0 {
        return None;
    }
    proof {
        crate::json::lemma_items_view(choices@);
    }
    match choices[0].get("message") {
        Some(m) => match m.get_str("content") {
            Some(t) => Some(t.to_string()),
            None => None,
        },
        None => None,
    }
}

/// The text of the first `text` block.
fn read_anthropic_text(parsed: &Json) -> (res: Option<String>)
    ensures
        crate::text::opt_string(res) == anthropic_text(parsed@),
{
    let blocks = match parsed.get_array("content") {
        Some(b) => b,
        None => {
            return None;
        },
    };
    let ghost bv = crate::json::items_view(blocks@);
    proof {
        crate::json::lemma_items_view(blocks@);
        assert(bv.skip(0) =~= bv);
    }
    let mut i: usize = 0;
    while i < blocks.len()
        invariant
            i <= blocks@.len(),
            bv == crate::json::items_view(blocks@),
            bv.len() == blocks@.len(),
            forall|j: int| 0 <= j < blocks@.len() ==> #[trigger] bv[j] == blocks@[j]@,
            first_text_block(bv) == first_text_block(bv.skip(i as int)),
            anthropic_text(parsed@) == match first_text_block(bv) {
                Some(b) => opt_str(spec_get(b, "text"@)),
                None => None,
            },
        decreases blocks@.len() - i,
    {
        assert(bv.skip(i as int).drop_first() =~= bv.skip(i + 1));
        assert(bv.skip(i as int)[0] == blocks@[i as int]@);
        let b = &blocks[i];
        let is_text = match b.get_str("type") {
            Some(t) => str_eq(t, "text"),
            None => false,
        };
        if is_text {
            return match b.get_str("text") {
                Some(t) => Some(t.to_string()),
                None => None,
            };
        }
        i += 1;
    }
    None
}

/// A text found, or the fallback summary.
fn text_or_fallback(t: Option<String>) -> (res: String)
    ensures
        res@ == or_fallback(crate::text::opt_string(t)),
{
    match t {
        Some(t) => t,
        None => SUMMARY_FALLBACK.to_string(),
    }
}

/// Reads the summary out of a compaction reply.
pub fn parse_compaction_response_text(provider: &str, body: &str) -> (res: String)
    ensures
        res@ == spec_compaction_text(provider@, body@),
{
    if str_eq(provider, "openai_codex") {
        let output = collect_codex_sse_output(body);
        return text_or_fallback(parse_openai_responses_text(&output));
    }
    let parsed = match crate::json_text::parse_json(body) {
        Some(v) => v,
        None => {
            return SUMMARY_FALLBACK.to_string();
        },
    };
    if str_eq(provider, "openai") {
        text_or_fallback(parse_openai_responses_text(&parsed))
    } else if str_eq(provider, "openrouter") {
        text_or_fallback(read_openrouter_text(&parsed))
    } else {
        text_or_fallback(read_anthropic_text(&parsed))
    }
}

/// The text whose UTF-8 encoding is the first `n` bytes of that of `c`.
pub open spec fn utf8_head(c: Seq<char>, n: int) -> Seq<char> {
    decode_utf8(encode_utf8(c).take(n))
}

/// A tool result's content as shown to the summarizer: cut to its first 200
/// bytes when it is longer.
pub open spec fn shown_result(c: Seq<char>) -> Seq<char> {
    if utf8_len(c) > 200 {
        utf8_head(c, 200)
    } else {
        c
    }
}

/// The content a `tool_result` block shows: its `content` string, or `...`.
pub open spec fn result_content(block: JsonV) -> Seq<char> {
    match opt_str(spec_get(block, "content"@)) {
        Some(c) => c,
        None => "..."@,
    }
}

/// The line a content block contributes to the summarizer's text: a text
/// block its text, a tool call its tool's name, a tool result its content
/// (cut to 200 bytes); any other block nothing.
pub open spec fn block_line(block: JsonV) -> Option<Seq<char>> {
    let kind = opt_str(spec_get(block, "type"@));
    if kind == Some("text"@) {
        opt_str(spec_get(block, "text"@))
    } else if kind == Some("tool_use"@) {
        Some(
            "[tool_use: "@ + match opt_str(spec_get(block, "name"@)) {
                Some(n) => n,
                None => "unknown"@,
            } + "]"@,
        )
    } else if kind == Some("tool_result"@) {
        Some("[tool_result: "@ + shown_result(result_content(block)) + "]"@)
    } else {
        None
    }
}

/// The lines of a list of content blocks.
pub open spec fn block_lines(blocks: Seq<JsonV>) -> Seq<Seq<char>>
    decreases blocks.len(),
{
    if blocks.len() == 0 {
        seq![]
    } else {
        match block_line(blocks.last()) {
            Some(l) => block_lines(blocks.drop_last()).push(l),
            None => block_lines(blocks.drop_last()),
        }
    }
}

/// A message's content: its `content` member, an empty string without one.
pub open spec fn message_content(msg: JsonV) -> JsonV {
    match spec_get(msg, "content"@) {
        Some(c) => c,
        None => JsonV::String(seq![]),
    }
}

/// A message's content as text: a string as it is, a list of blocks as its
/// lines joined by newlines, anything else as its JSON text.
pub open spec fn content_text(content: JsonV) -> Seq<char> {
    match content {
        JsonV::String(s) => s,
        JsonV::Array(blocks) => crate::text::join_lines(block_lines(blocks)),
        _ => crate::json_text::serialized_json(content),
    }
}

/// A message's role, `unknown` without one.
pub open spec fn message_role_or_unknown(msg: JsonV) -> Seq<char> {
    match opt_str(spec_get(msg, "role"@)) {
        Some(r) => r,
        None => "unknown"@,
    }
}

/// One message as a section of the summarizer's text.
pub open spec fn message_section(msg: JsonV) -> Seq<char> {
    "## "@ + message_role_or_unknown(msg) + "\n"@ + content_text(message_content(msg)) + "\n\n"@
}

/// The messages as the summarizer's text, one section each.
pub open spec fn summary_text(msgs: Seq<JsonV>) -> Seq<char>
    decreases msgs.len(),
{
    if msgs.len() == 0 {
        seq![]
    } else {
        summary_text(msgs.drop_last()) + message_section(msgs.last())
    }
}

/// A content block that can be shown: a tool result longer than 200 bytes
/// has a character boundary at byte 200 (else the cut would panic).
pub open spec fn block_cuttable(block: JsonV) -> bool {
    opt_str(spec_get(block, "type"@)) == Some("tool_result"@) && utf8_len(result_content(block))
        > 200 ==> is_char_boundary(encode_utf8(result_content(block)), 200)
}

/// Every content block of a message can be shown.
pub open spec fn message_cuttable(msg: JsonV) -> bool {
    match message_content(msg) {
        JsonV::Array(blocks) => forall|k: int| 0 <= k < blocks.len() ==> #[trigger] block_cuttable(blocks[k]),
        _ => true,
    }
}

/// A text cut to its first `n` bytes when longer (`&s[..s.len().min(n)]`).
pub open spec fn shown_prefix(c: Seq<char>, n: usize) -> Seq<char> {
    if utf8_len(c) > n {
        utf8_head(c, n as int)
    } else {
        c
    }
}

/// A text cut to its first `n` bytes when longer; the cut must fall on a
/// character boundary (else the slice would panic).
pub fn byte_prefix(c: &str, n: usize) -> (res: String)
    requires
        utf8_len(c@) > n ==> is_char_boundary(encode_utf8(c@), n as int),
    ensures
        res@ == shown_prefix(c@, n),
{
    if c.len() > n {
        let (head, _) = c.split_at(n);
        proof {
            vstd::utf8::encode_utf8_decode_utf8(head@);
        }
        head.to_string()
    } else {
        c.to_string()
    }
}

/// A tool result's content cut to its first 200 bytes when longer.
fn shown_result_text(c: &str) -> (res: String)
    requires
        utf8_len(c@) > 200 ==> is_char_boundary(encode_utf8(c@), 200),
    ensures
        res@ == shown_result(c@),
{
    if c.len() > 200 {
        let (head, _) = c.split_at(200);
        proof {
            vstd::utf8::encode_utf8_decode_utf8(head@);
        }
        head.to_string()
    } else {
        c.to_string()
    }
}

/// The line of one content block.
fn read_block_line(block: &Json) -> (res: Option<String>)
    requires
        block_cuttable(block@),
    ensures
        crate::text::opt_string(res) == block_line(block@),
{
    proof {
        reveal_strlit("text");
        reveal_strlit("tool_use");
        reveal_strlit("tool_result");
    }
    let kind = block.get_str("type");
    let is = |k: &str| -> (r: bool)
        ensures
            r == (opt_view(kind) == Some(k@)),
        {
            match kind {
                Some(t) => str_eq(t, k),
                None => false,
            }
        };
    if is("text") {
        match block.get_str("text") {
            Some(t) => Some(t.to_string()),
            None => None,
        }
    } else if is("tool_use") {
        let name = match block.get_str("name") {
            Some(n) => n,
            None => "unknown",
        };
        Some(join3("[tool_use: ", name, "]"))
    } else if is("tool_result") {
        let c = match block.get_str("content") {
            Some(c) => c,
            None => "...",
        };
        let shown = shown_result_text(c);
        Some(join3("[tool_result: ", shown.as_str(), "]"))
    } else {
        None
    }
}

/// A message's content as text.
fn read_content_text(content: &Json) -> (res: String)
    requires
        content@ is Array ==> forall|k: int|
            0 <= k < content@->Array_0.len() ==> #[trigger] block_cuttable(content@->Array_0[k]),
    ensures
        res@ == content_text(content@),
{
    match content {
        Json::String(s) => s.clone(),
        Json::Array(blocks) => {
            let ghost bv = crate::json::items_view(blocks@);
            proof {
                crate::json::lemma_items_view(blocks@);
                assert(bv.take(0) =~= Seq::<JsonV>::empty());
                assert(content@ == JsonV::Array(bv));
                assert forall|k: int| 0 <= k < bv.len() implies #[trigger] block_cuttable(bv[k]) by {
                    assert(content@->Array_0[k] == bv[k]);
                }
            }
            let mut lines: Vec<String> = Vec::new();
            let mut i: usize = 0;
            while i < blocks.len()
                invariant
                    i <= blocks@.len(),
                    bv == crate::json::items_view(blocks@),
                    bv.len() == blocks@.len(),
                    forall|j: int| 0 <= j < blocks@.len() ==> #[trigger] bv[j] == blocks@[j]@,
                    forall|k: int| 0 <= k < bv.len() ==> #[trigger] block_cuttable(bv[k]),
                    lines@.map_values(|l: String| l@) == block_lines(bv.take(i as int)),
                decreases blocks@.len() - i,
            {
                assert(bv.take(i + 1).drop_last() =~= bv.take(i as int));
                assert(block_cuttable(bv[i as int]));
                let line = read_block_line(&blocks[i]);
                if let Some(l) = line {
                    lines.push(l);
                }
                assert(lines@.map_values(|l: String| l@) =~= block_lines(bv.take(i + 1)));
                i += 1;
            }
            assert(bv.take(i as int) =~= bv);
            crate::text::join_newline(&lines)
        },
        _ => crate::json_text::to_json_text(content),
    }
}

/// The messages as the text handed to the summarizing model.
pub fn format_messages_for_summary(messages: &Vec<Json>) -> (res: String)
    requires
        forall|k: int| 0 <= k < messages@.len() ==> #[trigger] message_cuttable(messages@[k]@),
    ensures
        res@ == summary_text(crate::json::items_view(messages@)),
{
    let ghost mv = crate::json::items_view(messages@);
    proof {
        crate::json::lemma_items_view(messages@);
        assert(mv.take(0) =~= Seq::<JsonV>::empty());
    }
    let mut text = String::new();
    let mut i: usize = 0;
    while i < messages.len()
        invariant
            i <= messages@.len(),
            mv == crate::json::items_view(messages@),
            mv.len() == messages@.len(),
            forall|j: int| 0 <= j < messages@.len() ==> #[trigger] mv[j] == messages@[j]@,
            forall|k: int| 0 <= k < messages@.len() ==> #[trigger] message_cuttable(messages@[k]@),
            text@ == summary_text(mv.take(i as int)),
        decreases messages@.len() - i,
    {
        assert(mv.take(i + 1).drop_last() =~= mv.take(i as int));
        let msg = &messages[i];
        assert(message_cuttable(messages@[i as int]@));
        let role = match msg.get_str("role") {
            Some(r) => r,
            None => "unknown",
        };
        let empty = Json::String(String::new());
        let content = match msg.get("content") {
            Some(c) => c,
            None => &empty,
        };
        let body = read_content_text(content);
        text.append("## ");
        text.append(role);
        text.append("\n");
        text.append(body.as_str());
        text.append("\n\n");
        i += 1;
    }
    assert(mv.take(i as int) =~= mv);
    text
}

/// The kind of a session-tree entry that a context reference points at.
#[derive(Clone, Copy, Debug, PartialEq, Eq, Structural)]
pub enum EntryType {
    Header,
    Message,
    Compaction,
    Steering,
}

/// A reference from the context of a session-tree leaf to one entry: where
/// its content is stored (a file, a file version) and what it holds inline.
#[derive(Debug)]
pub struct ContextRef {
    pub entry_id: String,
    pub role: String,
    pub content_file_id: Option<String>,
    pub content_file_version_id: Option<String>,
    pub entry_type: EntryType,
    pub inline_content: Option<Json>,
    pub inline_summary: Option<String>,
}

/// Whether the entry's content is stored in a file.
pub open spec fn has_file(r: ContextRef) -> bool {
    r.content_file_id is Some || r.content_file_version_id is Some
}

/// The entry's inline summary, empty without one.
pub open spec fn inline_summary_text(r: ContextRef) -> Seq<char> {
    match r.inline_summary {
        Some(t) => t@,
        None => seq![],
    }
}

/// The chat message `{"role": role, "content": content}`.
pub open spec fn role_message(role: Seq<char>, content: JsonV) -> JsonV {
    JsonV::Object(seq![("role"@, jstring(role)), ("content"@, content)])
}

/// The message one context reference contributes to the text to summarize,
/// given what reading its file gave (`None` where the read failed; only
/// consulted when the entry is stored in a file). A compaction gives its
/// summary, read from its file or, when that read fails, taken inline, as a
/// user message, unless it is empty; a message or steering entry gives its
/// file's text, read as JSON where it is JSON, else its inline content; a
/// header gives nothing.
pub open spec fn ref_message(r: ContextRef, read: Option<Seq<char>>) -> Option<JsonV> {
    match r.entry_type {
        EntryType::Compaction => {
            let summary = if has_file(r) {
                match read {
                    Some(t) => t,
                    None => inline_summary_text(r),
                }
            } else {
                inline_summary_text(r)
            };
            if summary.len() > 0 {
                Some(
                    role_message(
                        "user"@,
                        jstring("[Previous conversation summary]\n"@ + summary),
                    ),
                )
            } else {
                None
            }
        },
        EntryType::Message | EntryType::Steering => {
            match (has_file(r), read) {
                (true, Some(raw)) if raw.len() > 0 => Some(
                    role_message(
                        r.role@,
                        match crate::json_text::parsed_json(raw) {
                            Some(v) => v,
                            None => jstring(raw),
                        },
                    ),
                ),
                _ => match r.inline_content {
                    Some(c) => Some(role_message(r.role@, c@)),
                    None => None,
                },
            }
        },
        EntryType::Header => None,
    }
}

/// The messages the context references contribute, in order.
pub open spec fn rendered_refs(refs: Seq<ContextRef>, reads: Seq<Option<Seq<char>>>) -> Seq<JsonV>
    decreases refs.len(),
{
    if refs.len() == 0 {
        seq![]
    } else {
        let prior = rendered_refs(refs.drop_last(), reads.drop_last());
        match ref_message(refs.last(), reads.last()) {
            Some(m) => prior.push(m),
            None => prior,
        }
    }
}

/// `{"role": role, "content": content}` as a value.
fn make_role_message(role: &str, content: Json) -> (res: Json)
    ensures
        res@ == role_message(role@, content@),
{
    let mut m: Vec<(String, Json)> = Vec::new();
    proof {
        crate::json::lemma_members_view_empty(m@);
    }
    let ghost cv = content@;
    crate::json::push_member(&mut m, "role", Json::String(role.to_string()));
    crate::json::push_member(&mut m, "content", content);
    assert(crate::json::members_view(m@) =~= seq![("role"@, jstring(role@)), ("content"@, cv)]);
    Json::Object(m)
}

/// The message of one context reference.
fn render_ref(r: &ContextRef, read: &Option<String>) -> (res: Option<Json>)
    ensures
        crate::json::opt_json_owned(res) == ref_message(*r, crate::text::opt_string(*read)),
{
    let stored = r.content_file_id.is_some() || r.content_file_version_id.is_some();
    match r.entry_type {
        EntryType::Compaction => {
            let inline = match &r.inline_summary {
                Some(t) => t.clone(),
                None => String::new(),
            };
            let summary = if stored {
                match read {
                    Some(t) => t.clone(),
                    None => inline,
                }
            } else {
                inline
            };
            if summary.as_str().is_empty() {
                None
            } else {
                let text = join2("[Previous conversation summary]\n", summary.as_str());
                Some(make_role_message("user", Json::String(text)))
            }
        },
        EntryType::Message | EntryType::Steering => {
            if stored {
                if let Some(raw) = read {
                    if !raw.as_str().is_empty() {
                        let content = match crate::json_text::parse_json(raw.as_str()) {
                            Some(v) => v,
                            None => Json::String(raw.clone()),
                        };
                        return Some(make_role_message(r.role.as_str(), content));
                    }
                }
            }
            match &r.inline_content {
                Some(c) => Some(make_role_message(r.role.as_str(), c.duplicate())),
                None => None,
            }
        },
        EntryType::Header => None,
    }
}

/// Renders the context references of the conversation being compacted into
/// chat messages. `reads[i]` is what reading the file of `refs[i]` gave:
/// its text, or `None` where the read failed.
pub fn render_context_refs_for_compaction(refs: &Vec<ContextRef>, reads: &Vec<Option<String>>) -> (res: Vec<Json>)
    requires
        reads@.len() == refs@.len(),
    ensures
        crate::json::items_view(res@) == rendered_refs(
            refs@,
            reads@.map_values(|o: Option<String>| crate::text::opt_string(o)),
        ),
{
    let ghost rv = reads@.map_values(|o: Option<String>| crate::text::opt_string(o));
    let mut messages: Vec<Json> = Vec::new();
    proof {
        crate::json::lemma_items_view_empty(messages@);
        assert(refs@.take(0) =~= Seq::<ContextRef>::empty());
        assert(rv.take(0) =~= Seq::<Option<Seq<char>>>::empty());
    }
    let mut i: usize = 0;
    while i < refs.len()
        invariant
            i <= refs@.len(),
            reads@.len() == refs@.len(),
            rv == reads@.map_values(|o: Option<String>| crate::text::opt_string(o)),
            crate::json::items_view(messages@) == rendered_refs(
                refs@.take(i as int),
                rv.take(i as int),
            ),
        decreases refs@.len() - i,
    {
        assert(refs@.take(i + 1).drop_last() =~= refs@.take(i as int));
        assert(rv.take(i + 1).drop_last() =~= rv.take(i as int));
        assert(rv.take(i + 1).last() == crate::text::opt_string(reads@[i as int]));
        if let Some(m) = render_ref(&refs[i], &reads[i]) {
            crate::json::push_item(&mut messages, m);
        }
        i += 1;
    }
    assert(refs@.take(i as int) =~= refs@);
    assert(rv.take(i as int) =~= rv);
    messages
}

} // verus!
