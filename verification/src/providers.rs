//! The Anthropic and OpenRouter calls of the agent loop: how the history is
//! shaped for each, the headers sent, which failed attempts are retried,
//! and how each reply becomes the agent's content blocks.

use vstd::prelude::*;
use crate::json::{
    Json, JsonV, items_view, opt_str, spec_get, object2, object3, object4, string_value, array1,
    array_of, spec_as_i64,
};
use crate::text::{str_eq, string_from_chars, trim, contains_seq};
use crate::history::{has_role, set_member};
use crate::mock::LlmResponse;
use crate::compaction::{shown_prefix, utf8_len, headers_view};
use crate::responses::{usage_count, read_usage_count};

verus! {

/// The first message with the system prompt carried in front of its text
/// (when its content is a string).
pub open spec fn with_system_instructions(m: JsonV, system_prompt: Seq<char>) -> JsonV {
    match opt_str(spec_get(m, "content"@)) {
        Some(c) => set_member(
            m,
            "content"@,
            JsonV::String("[System instructions: "@ + system_prompt + "]\n\n"@ + c),
        ),
        None => m,
    }
}

/// The system prompt and messages an Anthropic call sends: an OAuth token
/// takes the CLI's fixed prompt (`oauth_system`), the given one moving in
/// front of the first message's text; an API key sends both as they are.
pub open spec fn effective_prompt(
    system_prompt: Seq<char>,
    msgs: Seq<JsonV>,
    oauth: bool,
    oauth_system: Seq<char>,
) -> (Seq<char>, Seq<JsonV>) {
    if oauth {
        (
            oauth_system,
            if system_prompt.len() > 0 && msgs.len() > 0 {
                msgs.update(0, with_system_instructions(msgs[0], system_prompt))
            } else {
                msgs
            },
        )
    } else {
        (system_prompt, msgs)
    }
}

/// Copies of the given values.
fn copy_values(values: &Vec<Json>) -> (res: Vec<Json>)
    ensures
        items_view(res@) == items_view(values@),
{
    let mut out: Vec<Json> = Vec::new();
    proof {
        crate::json::lemma_items_view(values@);
        crate::json::lemma_items_view_empty(out@);
    }
    let mut i: usize = 0;
    while i < values.len()
        invariant
            i <= values@.len(),
            items_view(values@).len() == values@.len(),
            forall|j: int| 0 <= j < values@.len() ==> #[trigger] items_view(values@)[j] == values@[j]@,
            items_view(out@) == items_view(values@).take(i as int),
        decreases values@.len() - i,
    {
        crate::json::push_item(&mut out, values[i].duplicate());
        assert(items_view(values@).take(i + 1) =~= items_view(values@).take(i as int).push(values@[i as int]@));
        i += 1;
    }
    assert(items_view(values@).take(i as int) =~= items_view(values@));
    out
}

/// The system prompt and messages of an Anthropic call; `oauth_system` is
/// the fixed prompt an OAuth token requires.
pub fn anthropic_effective_prompt(
    system_prompt: &str,
    messages: &Vec<Json>,
    oauth: bool,
    oauth_system: &str,
) -> (res: (String, Vec<Json>))
    ensures
        (res.0@, items_view(res.1@)) == effective_prompt(
            system_prompt@,
            items_view(messages@),
            oauth,
            oauth_system@,
        ),
{
    if !oauth {
        return (system_prompt.to_string(), copy_values(messages));
    }
    let mut msgs: Vec<Json> = Vec::new();
    proof {
        crate::json::lemma_items_view(messages@);
        crate::json::lemma_items_view_empty(msgs@);
    }
    let ghost mv = items_view(messages@);
    let mut i: usize = 0;
    while i < messages.len()
        invariant
            i <= messages@.len(),
            mv == items_view(messages@),
            mv.len() == messages@.len(),
            forall|j: int| 0 <= j < messages@.len() ==> #[trigger] mv[j] == messages@[j]@,
            items_view(msgs@) == (if system_prompt@.len() > 0 && mv.len() > 0 {
                mv.update(0, with_system_instructions(mv[0], system_prompt@))
            } else {
                mv
            }).take(i as int),
        decreases messages@.len() - i,
    {
        let m = &messages[i];
        let next = if i == 0 && !system_prompt.is_empty() {
            match m.get_str("content") {
                Some(c) => {
                    let mut combined = String::from_str("[System instructions: ");
                    combined.append(system_prompt);
                    combined.append("]\n\n");
                    combined.append(c);
                    crate::history::with_member(m, "content", &Json::String(combined))
                },
                None => m.duplicate(),
            }
        } else {
            m.duplicate()
        };
        let ghost target = if system_prompt@.len() > 0 && mv.len() > 0 {
            mv.update(0, with_system_instructions(mv[0], system_prompt@))
        } else {
            mv
        };
        assert(next@ == target[i as int]);
        crate::json::push_item(&mut msgs, next);
        assert(target.take(i + 1) =~= target.take(i as int).push(target[i as int]));
        i += 1;
    }
    let ghost target = if system_prompt@.len() > 0 && mv.len() > 0 {
        mv.update(0, with_system_instructions(mv[0], system_prompt@))
    } else {
        mv
    };
    assert(target.take(i as int) =~= target);
    (oauth_system.to_string(), msgs)
}

/// The `{"type": "ephemeral"}` cache marker.
pub open spec fn ephemeral() -> JsonV {
    JsonV::Object(seq![("type"@, JsonV::String("ephemeral"@))])
}

/// `value[key] = v`: an object gets the member set (added when missing);
/// `null` becomes an object of that member; any other value is left as it
/// is (where the assignment would panic).
pub open spec fn put_member(value: JsonV, key: Seq<char>, v: JsonV) -> JsonV {
    match value {
        JsonV::Object(ms) => if spec_get(value, key) is Some {
            set_member(value, key, v)
        } else {
            JsonV::Object(ms.push((key, v)))
        },
        JsonV::Null => JsonV::Object(seq![(key, v)]),
        _ => value,
    }
}

/// A user message with a cache breakpoint: on the last block of a content
/// list, or on its text made a one-block list.
pub open spec fn cache_marked(m: JsonV) -> JsonV {
    match spec_get(m, "content"@) {
        Some(JsonV::Array(bs)) => if bs.len() > 0 {
            set_member(
                m,
                "content"@,
                JsonV::Array(bs.update(bs.len() - 1, put_member(bs.last(), "cache_control"@, ephemeral()))),
            )
        } else {
            m
        },
        Some(JsonV::String(t)) => set_member(
            m,
            "content"@,
            JsonV::Array(
                seq![
                    JsonV::Object(
                        seq![
                            ("type"@, JsonV::String("text"@)),
                            ("text"@, JsonV::String(t)),
                            ("cache_control"@, ephemeral()),
                        ],
                    ),
                ],
            ),
        ),
        _ => m,
    }
}

/// The number of user messages.
pub open spec fn user_count(msgs: Seq<JsonV>) -> nat
    decreases msgs.len(),
{
    if msgs.len() == 0 {
        0
    } else {
        user_count(msgs.drop_last()) + if has_role(msgs.last(), "user"@) {
            1nat
        } else {
            0nat
        }
    }
}

/// Whether message `i` is one of the last two user messages.
pub open spec fn is_breakpoint(msgs: Seq<JsonV>, i: int) -> bool {
    has_role(msgs[i], "user"@) && user_count(msgs.take(i + 1)) + 2 > user_count(msgs)
}

/// The history with cache breakpoints on its last two user messages.
pub open spec fn with_breakpoints(msgs: Seq<JsonV>) -> Seq<JsonV> {
    Seq::new(msgs.len(), |i: int| if is_breakpoint(msgs, i) { cache_marked(msgs[i]) } else { msgs[i] })
}

/// A message can take a breakpoint: the last block of its content list is
/// an object or `null` (else the assignment would panic).
pub open spec fn markable(m: JsonV) -> bool {
    match spec_get(m, "content"@) {
        Some(JsonV::Array(bs)) => bs.len() > 0 ==> (bs.last() is Object || bs.last() is Null),
        _ => true,
    }
}

/// `value[key] = v`.
fn put_member_value(value: &Json, key: &str, v: Json) -> (res: Json)
    ensures
        res@ == put_member(value@, key@, v@),
{
    match value {
        Json::Object(ms) => {
            if value.get(key).is_some() {
                crate::history::with_member(value, key, &v)
            } else {
                let mut out: Vec<(String, Json)> = Vec::new();
                let ghost mv = crate::json::members_view(ms@);
                proof {
                    crate::json::lemma_members_view(ms@);
                    crate::json::lemma_members_view_empty(out@);
                }
                let mut i: usize = 0;
                while i < ms.len()
                    invariant
                        i <= ms@.len(),
                        mv == crate::json::members_view(ms@),
                        mv.len() == ms@.len(),
                        forall|j: int| 0 <= j < ms@.len() ==> #[trigger] mv[j] == (ms@[j].0@, ms@[j].1@),
                        crate::json::members_view(out@) == mv.take(i as int),
                    decreases ms@.len() - i,
                {
                    crate::json::push_member(&mut out, ms[i].0.as_str(), ms[i].1.duplicate());
                    assert(mv.take(i + 1) =~= mv.take(i as int).push(mv[i as int]));
                    i += 1;
                }
                assert(mv.take(i as int) =~= mv);
                crate::json::push_member(&mut out, key, v);
                Json::Object(out)
            }
        },
        Json::Null => object1_value(key, v),
        _ => value.duplicate(),
    }
}

/// `{key: v}`.
fn object1_value(key: &str, v: Json) -> (res: Json)
    ensures
        res@ == JsonV::Object(seq![(key@, v@)]),
{
    crate::json::object1(key, v)
}

/// The `{"type": "ephemeral"}` marker.
fn make_ephemeral() -> (res: Json)
    ensures
        res@ == ephemeral(),
{
    crate::json::object1("type", string_value("ephemeral"))
}

/// A user message with a cache breakpoint.
fn mark_message(m: &Json) -> (res: Json)
    requires
        markable(m@),
    ensures
        res@ == cache_marked(m@),
{
    match m.get("content") {
        Some(Json::Array(bs)) => {
            if bs.len() == 0 {
                return m.duplicate();
            }
            let ghost bv = items_view(bs@);
            proof {
                crate::json::lemma_items_view(bs@);
            }
            let last = bs.len() - 1;
            let mut out: Vec<Json> = Vec::new();
            proof {
                crate::json::lemma_items_view_empty(out@);
            }
            let ghost target = bv.update(bv.len() - 1, put_member(bv.last(), "cache_control"@, ephemeral()));
            let mut i: usize = 0;
            while i < bs.len()
                invariant
                    i <= bs@.len(),
                    last == bs@.len() - 1,
                    bv == items_view(bs@),
                    bv.len() == bs@.len(),
                    forall|j: int| 0 <= j < bs@.len() ==> #[trigger] bv[j] == bs@[j]@,
                    target == bv.update(bv.len() - 1, put_member(bv.last(), "cache_control"@, ephemeral())),
                    items_view(out@) == target.take(i as int),
                decreases bs@.len() - i,
            {
                let next = if i == last {
                    put_member_value(&bs[i], "cache_control", make_ephemeral())
                } else {
                    bs[i].duplicate()
                };
                assert(next@ == target[i as int]);
                crate::json::push_item(&mut out, next);
                assert(target.take(i + 1) =~= target.take(i as int).push(target[i as int]));
                i += 1;
            }
            assert(target.take(i as int) =~= target);
            crate::history::with_member(m, "content", &array_of(out))
        },
        Some(Json::String(t)) => {
            let block = object3(
                "type",
                string_value("text"),
                "text",
                Json::String(t.clone()),
                "cache_control",
                make_ephemeral(),
            );
            crate::history::with_member(m, "content", &array1(block))
        },
        _ => m.duplicate(),
    }
}

/// Whether a message is a user message.
fn is_user(m: &Json) -> (res: bool)
    ensures
        res == has_role(m@, "user"@),
{
    match m.get_str("role") {
        Some(r) => str_eq(r, "user"),
        None => false,
    }
}

/// Puts cache breakpoints on the last two user messages of a history.
pub fn add_cache_breakpoints(messages: &Vec<Json>) -> (res: Vec<Json>)
    requires
        forall|i: int| 0 <= i < messages@.len() && is_breakpoint(items_view(messages@), i) ==> markable(
            #[trigger] items_view(messages@)[i],
        ),
    ensures
        items_view(res@) == with_breakpoints(items_view(messages@)),
{
    let ghost mv = items_view(messages@);
    proof {
        crate::json::lemma_items_view(messages@);
        assert(mv.take(0) =~= Seq::<JsonV>::empty());
    }
    let mut total: usize = 0;
    let mut i: usize = 0;
    while i < messages.len()
        invariant
            i <= messages@.len(),
            mv == items_view(messages@),
            mv.len() == messages@.len(),
            forall|j: int| 0 <= j < messages@.len() ==> #[trigger] mv[j] == messages@[j]@,
            total == user_count(mv.take(i as int)),
            total <= i,
        decreases messages@.len() - i,
    {
        assert(mv.take(i + 1).drop_last() =~= mv.take(i as int));
        if is_user(&messages[i]) {
            total += 1;
        }
        i += 1;
    }
    assert(mv.take(i as int) =~= mv);
    let ghost target = with_breakpoints(mv);
    let mut out: Vec<Json> = Vec::new();
    proof {
        crate::json::lemma_items_view_empty(out@);
    }
    let mut seen: usize = 0;
    let mut k: usize = 0;
    while k < messages.len()
        invariant
            k <= messages@.len(),
            mv == items_view(messages@),
            mv.len() == messages@.len(),
            forall|j: int| 0 <= j < messages@.len() ==> #[trigger] mv[j] == messages@[j]@,
            forall|j: int| 0 <= j < mv.len() && is_breakpoint(mv, j) ==> markable(#[trigger] mv[j]),
            total == user_count(mv),
            seen == user_count(mv.take(k as int)),
            seen <= k,
            target == with_breakpoints(mv),
            items_view(out@) == target.take(k as int),
        decreases messages@.len() - k,
    {
        assert(mv.take(k + 1).drop_last() =~= mv.take(k as int));
        let m = &messages[k];
        let user = is_user(m);
        if user {
            seen += 1;
        }
        let late = if seen >= total {
            true
        } else {
            total - seen < 2
        };
        let next = if user && late {
            assert(is_breakpoint(mv, k as int));
            mark_message(m)
        } else {
            m.duplicate()
        };
        assert(next@ == target[k as int]);
        crate::json::push_item(&mut out, next);
        assert(target.take(k + 1) =~= target.take(k as int).push(target[k as int]));
        k += 1;
    }
    assert(target.take(k as int) =~= target);
    out
}

/// The headers of an Anthropic call: an OAuth token goes as a bearer token
/// with the OAuth, computer-use and prompt-caching betas and the CLI's
/// identity (`user_agent`, app `cli`); an API key as `x-api-key` with
/// prompt caching.
pub open spec fn anthropic_headers(api_key: Seq<char>, oauth: bool, user_agent: Seq<char>) -> Seq<(Seq<char>, Seq<char>)> {
    if oauth {
        seq![
            ("authorization"@, "Bearer "@ + api_key),
            ("anthropic-version"@, "2023-06-01"@),
            ("anthropic-beta"@, "oauth-2025-04-20,computer-use-2025-01-24,prompt-caching-2024-07-31"@),
            ("content-type"@, "application/json"@),
            ("user-agent"@, user_agent),
            ("x-app"@, "cli"@),
        ]
    } else {
        seq![
            ("x-api-key"@, api_key),
            ("anthropic-version"@, "2023-06-01"@),
            ("anthropic-beta"@, "prompt-caching-2024-07-31"@),
            ("content-type"@, "application/json"@),
        ]
    }
}

/// A header pair.
fn header(name: &str, value: &str) -> (res: (String, String))
    ensures
        res.0@ == name@,
        res.1@ == value@,
{
    (name.to_string(), value.to_string())
}

/// The headers of an Anthropic call; `user_agent` is the CLI identity an
/// OAuth token is sent with.
pub fn anthropic_call_headers(api_key: &str, oauth: bool, user_agent: &str) -> (res: Vec<(String, String)>)
    ensures
        headers_view(res@) == anthropic_headers(api_key@, oauth, user_agent@),
{
    let mut out: Vec<(String, String)> = Vec::new();
    if oauth {
        let mut bearer = String::from_str("Bearer ");
        bearer.append(api_key);
        out.push(("authorization".to_string(), bearer));
        out.push(header("anthropic-version", "2023-06-01"));
        out.push(header(
            "anthropic-beta",
            "oauth-2025-04-20,computer-use-2025-01-24,prompt-caching-2024-07-31",
        ));
        out.push(header("content-type", "application/json"));
        out.push(header("user-agent", user_agent));
        out.push(header("x-app", "cli"));
    } else {
        out.push(header("x-api-key", api_key));
        out.push(header("anthropic-version", "2023-06-01"));
        out.push(header("anthropic-beta", "prompt-caching-2024-07-31"));
        out.push(header("content-type", "application/json"));
    }
    assert(headers_view(out@) =~= anthropic_headers(api_key@, oauth, user_agent@));
    out
}

/// What one attempt at a provider call gave.
#[derive(Debug, PartialEq, Eq)]
pub enum AttemptOutcome {
    /// The reply can be read.
    Success,
    /// A transient failure worth another attempt, with its reason.
    Retry(String),
    /// A failure that ends the call, with its error.
    Fail(String),
}

/// An outcome as plain values: kind (0 success, 1 retry, 2 fail) and
/// message.
pub open spec fn outcome_view(o: AttemptOutcome) -> (u8, Seq<char>) {
    match o {
        AttemptOutcome::Success => (0, seq![]),
        AttemptOutcome::Retry(m) => (1, m@),
        AttemptOutcome::Fail(m) => (2, m@),
    }
}

/// `<prefix><status>: <first n bytes of body>`.
pub open spec fn status_message(prefix: Seq<char>, status: u16, body: Seq<char>, n: usize) -> Seq<char> {
    prefix + crate::text::decimal(status as nat) + ": "@ + shown_prefix(body, n)
}

/// The body can be cut at byte `n`: it is no longer, or byte `n` starts a
/// character.
pub open spec fn cuttable(body: Seq<char>, n: usize) -> bool {
    utf8_len(body) > n ==> vstd::utf8::is_char_boundary(vstd::utf8::encode_utf8(body), n as int)
}

/// `<prefix><status>: <first n bytes of body>`.
fn write_status_message(prefix: &str, status: u16, body: &str, n: usize) -> (res: String)
    requires
        cuttable(body@, n),
    ensures
        res@ == status_message(prefix@, status, body@, n),
{
    let mut m = String::from_str(prefix);
    m.append(string_from_chars(&crate::text::decimal_chars(status as u64)).as_str());
    m.append(": ");
    m.append(crate::compaction::byte_prefix(body, n).as_str());
    m
}

/// An Anthropic attempt: 200 succeeds; 500 and 529, and a 400 whose body
/// holds the vague `"message":"Error"`, are retried; any other status
/// fails the call.
pub open spec fn spec_anthropic_attempt(status: u16, body: Seq<char>) -> (u8, Seq<char>) {
    if status == 200 {
        (0, seq![])
    } else if status == 500 || status == 529 {
        (1, status_message("HTTP "@, status, body, 200))
    } else if status == 400 && contains_seq(body, "\"message\":\"Error\""@) {
        (1, "HTTP 400 (transient): "@ + shown_prefix(body, 200))
    } else {
        (2, status_message("Anthropic API returned "@, status, body, 500))
    }
}

/// Whether an Anthropic attempt is retried.
pub open spec fn anthropic_retried(status: u16, body: Seq<char>) -> bool {
    status == 500 || status == 529 || (status == 400 && contains_seq(body, "\"message\":\"Error\""@))
}

/// Reads one Anthropic attempt's status and body. A retried reply is cut at
/// byte 200 and a failed one at byte 500, which must then fall on a
/// character boundary (else the slice would panic).
pub fn anthropic_attempt(status: u16, body: &str) -> (res: AttemptOutcome)
    requires
        anthropic_retried(status, body@) ==> cuttable(body@, 200),
        status != 200 && !anthropic_retried(status, body@) ==> cuttable(body@, 500),
    ensures
        outcome_view(res) == spec_anthropic_attempt(status, body@),
{
    if status == 200 {
        AttemptOutcome::Success
    } else if status == 500 || status == 529 {
        AttemptOutcome::Retry(write_status_message("HTTP ", status, body, 200))
    } else if status == 400 && crate::text::str_contains(body, "\"message\":\"Error\"") {
        let mut m = String::from_str("HTTP 400 (transient): ");
        m.append(crate::compaction::byte_prefix(body, 200).as_str());
        AttemptOutcome::Retry(m)
    } else {
        AttemptOutcome::Fail(write_status_message("Anthropic API returned ", status, body, 500))
    }
}

/// An OpenRouter attempt: 200 succeeds; 429, 500, 502, 503 and 504 are
/// retried; any other status fails the call.
pub open spec fn spec_openrouter_attempt(status: u16, body: Seq<char>) -> (u8, Seq<char>) {
    if status == 200 {
        (0, seq![])
    } else if status == 429 || status == 500 || status == 502 || status == 503 || status == 504 {
        (1, status_message("HTTP "@, status, body, 200))
    } else {
        (2, status_message("OpenRouter API returned "@, status, body, 500))
    }
}

/// Whether an OpenRouter attempt is retried.
pub open spec fn openrouter_retried(status: u16) -> bool {
    status == 429 || status == 500 || status == 502 || status == 503 || status == 504
}

/// Reads one OpenRouter attempt's status and body. A retried reply is cut
/// at byte 200 and a failed one at byte 500, which must then fall on a
/// character boundary (else the slice would panic).
pub fn openrouter_attempt(status: u16, body: &str) -> (res: AttemptOutcome)
    requires
        openrouter_retried(status) ==> cuttable(body@, 200),
        status != 200 && !openrouter_retried(status) ==> cuttable(body@, 500),
    ensures
        outcome_view(res) == spec_openrouter_attempt(status, body@),
{
    if status == 200 {
        AttemptOutcome::Success
    } else if status == 429 || status == 500 || status == 502 || status == 503 || status == 504 {
        AttemptOutcome::Retry(write_status_message("HTTP ", status, body, 200))
    } else {
        AttemptOutcome::Fail(write_status_message("OpenRouter API returned ", status, body, 500))
    }
}


/// An OpenRouter call carries the key as a bearer token, the site address
/// (trimmed) as `HTTP-Referer` when there is one, and the app name
/// (trimmed) as `X-Title` when there is one.
pub proof fn law_openrouter_headers(api_key: Seq<char>, site_url: Seq<char>, app_name: Seq<char>)
    ensures
        openrouter_headers(api_key, site_url, app_name).contains(("authorization"@, "Bearer "@ + api_key)),
        trim(site_url).len() > 0 ==> openrouter_headers(api_key, site_url, app_name).contains(
            ("HTTP-Referer"@, trim(site_url)),
        ),
        trim(app_name).len() > 0 ==> openrouter_headers(api_key, site_url, app_name).contains(
            ("X-Title"@, trim(app_name)),
        ),
{
    let h = openrouter_headers(api_key, site_url, app_name);
    assert(h[0] == ("authorization"@, "Bearer "@ + api_key));
    if trim(site_url).len() > 0 {
        assert(h[2] == ("HTTP-Referer"@, trim(site_url)));
    }
    if trim(app_name).len() > 0 {
        let k: int = if trim(site_url).len() > 0 { 3 } else { 2 };
        assert(h[k] == ("X-Title"@, trim(app_name)));
    }
}

/// An Anthropic call carries an OAuth token as a bearer token together with
/// the user agent, and an API key as `x-api-key`.
pub proof fn law_anthropic_headers(api_key: Seq<char>, oauth: bool, user_agent: Seq<char>)
    ensures
        oauth ==> anthropic_headers(api_key, oauth, user_agent).contains(("authorization"@, "Bearer "@ + api_key))
            && anthropic_headers(api_key, oauth, user_agent).contains(("user-agent"@, user_agent)),
        !oauth ==> anthropic_headers(api_key, oauth, user_agent).contains(("x-api-key"@, api_key)),
{
    let h = anthropic_headers(api_key, oauth, user_agent);
    if oauth {
        assert(h[0] == ("authorization"@, "Bearer "@ + api_key));
        assert(h[4] == ("user-agent"@, user_agent));
    } else {
        assert(h[0] == ("x-api-key"@, api_key));
    }
}
/// An OpenRouter attempt succeeds exactly on status 200, is retried exactly
/// on 429, 500, 502, 503 and 504 with `HTTP <status>: <first 200 bytes>`,
/// and otherwise fails the call with
/// `OpenRouter API returned <status>: <first 500 bytes>`.
pub proof fn law_openrouter_attempt_outcome(status: u16, body: Seq<char>)
    ensures
        ({
            let (kind, message) = spec_openrouter_attempt(status, body);
            let shown = crate::text::decimal(status as nat) + ": "@;
            &&& (kind == 0) <==> status == 200
            &&& (kind == 1) <==> (status == 429 || status == 500 || status == 502 || status == 503 || status == 504)
            &&& (kind == 2) <==> !(status == 200 || status == 429 || status == 500 || status == 502 || status == 503
                || status == 504)
            &&& kind == 1 ==> message == "HTTP "@ + shown + shown_prefix(body, 200)
            &&& kind == 2 ==> message == "OpenRouter API returned "@ + shown + shown_prefix(body, 500)
        }),
{
}

/// An Anthropic attempt succeeds exactly on status 200, is retried exactly
/// on 500 and 529 and on a 400 whose body holds `"message":"Error"`, and
/// otherwise fails the call with
/// `Anthropic API returned <status>: <first 500 bytes>`.
pub proof fn law_anthropic_attempt_outcome(status: u16, body: Seq<char>)
    ensures
        ({
            let (kind, message) = spec_anthropic_attempt(status, body);
            let vague = contains_seq(body, "\"message\":\"Error\""@);
            &&& (kind == 0) <==> status == 200
            &&& (kind == 1) <==> (status == 500 || status == 529 || (status == 400 && vague))
            &&& (kind == 2) <==> !(status == 200 || status == 500 || status == 529 || (status == 400 && vague))
            &&& kind == 1 && status != 400 ==> message == "HTTP "@ + crate::text::decimal(status as nat) + ": "@
                + shown_prefix(body, 200)
            &&& kind == 1 && status == 400 ==> message == "HTTP 400 (transient): "@ + shown_prefix(body, 200)
            &&& kind == 2 ==> message == "Anthropic API returned "@ + crate::text::decimal(status as nat) + ": "@
                + shown_prefix(body, 500)
        }),
{
}

/// The agent's reply from an Anthropic response: its content (an empty list
/// without), stop reason (`end_turn` without) and the four usage counts.
pub open spec fn is_anthropic_response(r: LlmResponse, parsed: JsonV) -> bool {
    let usage = match spec_get(parsed, "usage"@) {
        Some(u) => u,
        None => JsonV::Object(seq![]),
    };
    &&& r.content@ == (match spec_get(parsed, "content"@) {
        Some(c) => c,
        None => JsonV::Array(seq![]),
    })
    &&& r.stop_reason@ == (match opt_str(spec_get(parsed, "stop_reason"@)) {
        Some(s) => s,
        None => "end_turn"@,
    })
    &&& r.input_tokens == usage_count(usage, "input_tokens"@)
    &&& r.output_tokens == usage_count(usage, "output_tokens"@)
    &&& r.cache_read_input_tokens == usage_count(usage, "cache_read_input_tokens"@)
    &&& r.cache_creation_input_tokens == usage_count(usage, "cache_creation_input_tokens"@)
}

/// Reads the agent's reply out of a parsed Anthropic response.
pub fn anthropic_response(parsed: &Json) -> (res: LlmResponse)
    ensures
        is_anthropic_response(res, parsed@),
{
    let content = match parsed.get("content") {
        Some(c) => c.duplicate(),
        None => {
            let none: Vec<Json> = Vec::new();
            proof {
                crate::json::lemma_items_view_empty(none@);
            }
            Json::Array(none)
        },
    };
    let stop_reason = match parsed.get_str("stop_reason") {
        Some(s) => s.to_string(),
        None => "end_turn".to_string(),
    };
    let none: Vec<(String, Json)> = Vec::new();
    proof {
        crate::json::lemma_members_view_empty(none@);
    }
    let empty = Json::Object(none);
    let usage = match parsed.get("usage") {
        Some(u) => u,
        None => &empty,
    };
    LlmResponse {
        content,
        stop_reason,
        input_tokens: read_usage_count(usage, "input_tokens"),
        output_tokens: read_usage_count(usage, "output_tokens"),
        cache_read_input_tokens: read_usage_count(usage, "cache_read_input_tokens"),
        cache_creation_input_tokens: read_usage_count(usage, "cache_creation_input_tokens"),
    }
}

/// The messages of an OpenRouter call: the system prompt, when not empty,
/// then the history rewritten as chat messages.
pub open spec fn openrouter_messages(system_prompt: Seq<char>, msgs: Seq<JsonV>) -> Seq<JsonV> {
    (if system_prompt.len() > 0 {
        seq![crate::openrouter::chat("system"@, JsonV::String(system_prompt))]
    } else {
        seq![]
    }) + crate::openrouter::converted_history(msgs)
}

/// The messages of an OpenRouter call.
pub fn build_openrouter_messages(system_prompt: &str, messages: &Vec<Json>) -> (res: Vec<Json>)
    ensures
        items_view(res@) == openrouter_messages(system_prompt@, items_view(messages@)),
{
    let mut out: Vec<Json> = Vec::new();
    proof {
        crate::json::lemma_items_view_empty(out@);
    }
    if !system_prompt.is_empty() {
        crate::json::push_item(&mut out, object2("role", string_value("system"), "content", string_value(system_prompt)));
    }
    let converted = crate::openrouter::convert_messages_to_openrouter(messages);
    let ghost before = items_view(out@);
    let ghost cv = items_view(converted@);
    proof {
        crate::json::lemma_items_view(converted@);
    }
    let mut i: usize = 0;
    while i < converted.len()
        invariant
            i <= converted@.len(),
            cv == items_view(converted@),
            cv.len() == converted@.len(),
            forall|j: int| 0 <= j < converted@.len() ==> #[trigger] cv[j] == converted@[j]@,
            items_view(out@) == before + cv.take(i as int),
        decreases converted@.len() - i,
    {
        crate::json::push_item(&mut out, converted[i].duplicate());
        assert(before + cv.take(i + 1) =~= (before + cv.take(i as int)).push(cv[i as int]));
        i += 1;
    }
    assert(cv.take(i as int) =~= cv);
    out
}

/// The headers of an OpenRouter call: the bearer key, and the site and app
/// names (trimmed) when given.
pub open spec fn openrouter_headers(api_key: Seq<char>, site_url: Seq<char>, app_name: Seq<char>) -> Seq<(Seq<char>, Seq<char>)> {
    seq![("authorization"@, "Bearer "@ + api_key), ("content-type"@, "application/json"@)] + (if trim(
        site_url,
    ).len() > 0 {
        seq![("HTTP-Referer"@, trim(site_url))]
    } else {
        seq![]
    }) + (if trim(app_name).len() > 0 {
        seq![("X-Title"@, trim(app_name))]
    } else {
        seq![]
    })
}

/// The headers of an OpenRouter call.
pub fn openrouter_call_headers(api_key: &str, site_url: &str, app_name: &str) -> (res: Vec<(String, String)>)
    ensures
        headers_view(res@) == openrouter_headers(api_key@, site_url@, app_name@),
{
    let mut out: Vec<(String, String)> = Vec::new();
    let mut bearer = String::from_str("Bearer ");
    bearer.append(api_key);
    out.push(("authorization".to_string(), bearer));
    out.push(header("content-type", "application/json"));
    let ghost base = headers_view(out@);
    let site = crate::text::str_trim(site_url);
    if !site.as_str().is_empty() {
        out.push(("HTTP-Referer".to_string(), site));
    }
    let ghost mid = headers_view(out@);
    let app = crate::text::str_trim(app_name);
    if !app.as_str().is_empty() {
        out.push(("X-Title".to_string(), app));
    }
    assert(headers_view(out@) =~= openrouter_headers(api_key@, site_url@, app_name@));
    out
}

/// The tool-use block of an OpenRouter tool call at position `idx`: its id
/// (`or_tool_<idx+1>` without one), its function's name (`unknown_tool`
/// without one) and its arguments read as JSON (an empty object where
/// they are not JSON, `{}` without).
pub open spec fn or_tool_use(tc: JsonV, idx: int) -> JsonV {
    let f = spec_get(tc, "function"@);
    let args = match f {
        Some(fv) => match opt_str(spec_get(fv, "arguments"@)) {
            Some(a) => a,
            None => "{}"@,
        },
        None => "{}"@,
    };
    JsonV::Object(
        seq![
            ("type"@, JsonV::String("tool_use"@)),
            ("id"@, JsonV::String(match opt_str(spec_get(tc, "id"@)) {
                Some(i) => i,
                None => "or_tool_"@ + crate::text::decimal((idx + 1) as nat),
            })),
            ("name"@, JsonV::String(match f {
                Some(fv) => match opt_str(spec_get(fv, "name"@)) {
                    Some(n) => n,
                    None => "unknown_tool"@,
                },
                None => "unknown_tool"@,
            })),
            ("input"@, match crate::json_text::parsed_json(args) {
                Some(v) => v,
                None => JsonV::Object(seq![]),
            }),
        ],
    )
}

/// The tool-use blocks of the first `n` tool calls.
pub open spec fn or_tool_uses(calls: Seq<JsonV>, n: int) -> Seq<JsonV>
    decreases n,
{
    if n <= 0 {
        seq![]
    } else {
        or_tool_uses(calls, n - 1).push(or_tool_use(calls[n - 1], n - 1))
    }
}

/// The first integer found under `keys`, 0 when none is.
pub open spec fn first_count(usage: JsonV, a: Seq<char>, b: Seq<char>) -> i64 {
    match spec_get(usage, a) {
        Some(v) if spec_as_i64(v) is Some => spec_as_i64(v)->Some_0,
        _ => usage_count(usage, b),
    }
}

/// The agent's reply from an OpenRouter response: the first choice's text
/// (when not empty) and tool calls as blocks, ending in tool use when it
/// made calls, with the prompt and completion counts (or the input and
/// output counts).
pub open spec fn is_openrouter_response(r: LlmResponse, parsed: JsonV) -> bool {
    let choice = match crate::json::opt_array(spec_get(parsed, "choices"@)) {
        Some(cs) if cs.len() > 0 => cs[0],
        _ => JsonV::Object(seq![]),
    };
    let message = match spec_get(choice, "message"@) {
        Some(m) => m,
        None => JsonV::Object(seq![]),
    };
    let text = crate::openrouter::spec_reply_text(message);
    let calls = match crate::json::opt_array(spec_get(message, "tool_calls"@)) {
        Some(cs) => cs,
        None => seq![],
    };
    let usage = match spec_get(parsed, "usage"@) {
        Some(u) => u,
        None => JsonV::Object(seq![]),
    };
    &&& r.content@ == JsonV::Array(
        (if text.len() > 0 {
            seq![crate::mock::text_block(text)]
        } else {
            seq![]
        }) + or_tool_uses(calls, calls.len() as int),
    )
    &&& r.stop_reason@ == (if calls.len() > 0 {
        "tool_use"@
    } else {
        "end_turn"@
    })
    &&& r.input_tokens == first_count(usage, "prompt_tokens"@, "input_tokens"@)
    &&& r.output_tokens == first_count(usage, "completion_tokens"@, "output_tokens"@)
    &&& r.cache_read_input_tokens == 0
    &&& r.cache_creation_input_tokens == 0
}

/// The first integer found under `a`, else `b`.
fn read_first_count(usage: &Json, a: &str, b: &str) -> (res: i64)
    ensures
        res == first_count(usage@, a@, b@),
{
    match usage.get(a) {
        Some(v) => match v.as_i64() {
            Some(n) => n,
            None => read_usage_count(usage, b),
        },
        None => read_usage_count(usage, b),
    }
}

/// The tool-use block of an OpenRouter tool call.
#[verifier::spinoff_prover]
fn make_or_tool_use(tc: &Json, idx: usize) -> (res: Json)
    requires
        idx < usize::MAX,
    ensures
        res@ == or_tool_use(tc@, idx as int),
{
    let f = tc.get("function");
    let args = match f {
        Some(fv) => match fv.get_str("arguments") {
            Some(a) => a,
            None => "{}",
        },
        None => "{}",
    };
    let name = match f {
        Some(fv) => match fv.get_str("name") {
            Some(n) => n,
            None => "unknown_tool",
        },
        None => "unknown_tool",
    };
    let id = match tc.get_str("id") {
        Some(i) => i.to_string(),
        None => {
            let mut t = String::from_str("or_tool_");
            t.append(string_from_chars(&crate::text::decimal_chars((idx + 1) as u64)).as_str());
            t
        },
    };
    let input = match crate::json_text::parse_json(args) {
        Some(v) => v,
        None => {
            let none: Vec<(String, Json)> = Vec::new();
            proof {
                crate::json::lemma_members_view_empty(none@);
            }
            Json::Object(none)
        },
    };
    let ghost idv = id@;
    let ghost inv = input@;
    let res = object4(
        "type",
        string_value("tool_use"),
        "id",
        Json::String(id),
        "name",
        string_value(name),
        "input",
        input,
    );
    assert(res@->Object_0 =~= or_tool_use(tc@, idx as int)->Object_0);
    res
}

/// Reads the agent's reply out of a parsed OpenRouter response.
pub fn openrouter_response(parsed: &Json) -> (res: LlmResponse)
    ensures
        is_openrouter_response(res, parsed@),
{
    let none: Vec<(String, Json)> = Vec::new();
    proof {
        crate::json::lemma_members_view_empty(none@);
    }
    let empty = Json::Object(none);
    let choice = match parsed.get_array("choices") {
        Some(cs) => {
            if cs.len() > 0 {
                proof {
                    crate::json::lemma_items_view(cs@);
                }
                &cs[0]
            } else {
                &empty
            }
        },
        None => &empty,
    };
    let message = match choice.get("message") {
        Some(m) => m,
        None => &empty,
    };
    let text = crate::openrouter::extract_openrouter_text(message);
    let mut blocks: Vec<Json> = Vec::new();
    proof {
        crate::json::lemma_items_view_empty(blocks@);
    }
    if !text.as_str().is_empty() {
        crate::json::push_item(&mut blocks, object2("type", string_value("text"), "text", Json::String(text)));
    }
    let ghost head = items_view(blocks@);
    let mut calls_made: usize = 0;
    if let Some(calls) = message.get_array("tool_calls") {
        let ghost cv = items_view(calls@);
        proof {
            crate::json::lemma_items_view(calls@);
        }
        let mut idx: usize = 0;
        while idx < calls.len()
            invariant
                idx <= calls@.len(),
                cv == items_view(calls@),
                cv.len() == calls@.len(),
                forall|j: int| 0 <= j < calls@.len() ==> #[trigger] cv[j] == calls@[j]@,
                items_view(blocks@) == head + or_tool_uses(cv, idx as int),
            decreases calls@.len() - idx,
        {
            crate::json::push_item(&mut blocks, make_or_tool_use(&calls[idx], idx));
            idx += 1;
        }
        calls_made = calls.len();
    }
    let usage = match parsed.get("usage") {
        Some(u) => u,
        None => &empty,
    };
    LlmResponse {
        content: array_of(blocks),
        stop_reason: if calls_made > 0 {
            "tool_use".to_string()
        } else {
            "end_turn".to_string()
        },
        input_tokens: read_first_count(usage, "prompt_tokens", "input_tokens"),
        output_tokens: read_first_count(usage, "completion_tokens", "output_tokens"),
        cache_read_input_tokens: 0,
        cache_creation_input_tokens: 0,
    }
}

} // verus!
