//! System prompt assembly for the context preparer: the change-detection
//! hash of the prompt's inputs, the configuration lookups that steer it, and
//! the composition of the loaded prompt sections.

use vstd::prelude::*;
use vstd::utf8::encode_utf8;
use crate::json::{
    Json, JsonV, spec_get, opt_str, spec_as_str, opt_view, items_view, lemma_items_view,
    spec_entity_field_str, entity_field_str, object2, string_value,
};
use crate::prepare::{build_sdk_reference, spec_prepared_sdk_reference};
use crate::tools::{enabled_tool_set, tool_set, strings_view};
use crate::text::{
    push_char, str_eq, chars_of, trim_chars, ascii_lowercase, string_from_chars,
    parse_i64_chars, parse_i64, trim, ascii_lower_seq, contains_seq, str_contains,
    i64_to_string, signed_decimal,
};

verus! {

/// The FNV-1a 64-bit offset basis.
pub const FNV_OFFSET_BASIS: u64 = 0xcbf2_9ce4_8422_2325;

/// The FNV-1a 64-bit prime.
pub const FNV_PRIME: u64 = 0x100_0000_01b3;

/// One FNV-1a step: mix a byte in, then multiply by the prime modulo 2^64.
pub open spec fn fnv_step(h: u64, b: u8) -> u64 {
    vstd::wrapping::u64_specs::wrapping_mul(h ^ (b as u64), FNV_PRIME)
}

/// FNV-1a over `bytes`, starting from `h`.
pub open spec fn fnv(h: u64, bytes: Seq<u8>) -> u64
    decreases bytes.len(),
{
    if bytes.len() == 0 {
        h
    } else {
        fnv_step(fnv(h, bytes.drop_last()), bytes.last())
    }
}

/// Hashing two byte runs one after the other is hashing their concatenation.
pub proof fn lemma_fnv_append(h: u64, a: Seq<u8>, b: Seq<u8>)
    ensures
        fnv(h, a + b) == fnv(fnv(h, a), b),
    decreases b.len(),
{
    if b.len() == 0 {
        assert(a + b =~= a);
    } else {
        lemma_fnv_append(h, a, b.drop_last());
        assert((a + b).drop_last() =~= a + b.drop_last());
    }
}

/// FNV-1a over a byte slice.
fn fnv_bytes(h: u64, bytes: &[u8]) -> (res: u64)
    ensures
        res == fnv(h, bytes@),
{
    let mut acc = h;
    let mut i: usize = 0;
    while i < bytes.len()
        invariant
            i <= bytes@.len(),
            acc == fnv(h, bytes@.take(i as int)),
        decreases bytes@.len() - i,
    {
        assert(bytes@.take(i + 1).drop_last() =~= bytes@.take(i as int));
        let b: u64 = bytes[i] as u64;
        acc = (acc ^ b).wrapping_mul(FNV_PRIME);
        i += 1;
    }
    assert(bytes@.take(i as int) =~= bytes@);
    acc
}

/// The bytes that the prompt hash covers: the UTF-8 encodings of the parts,
/// separated by `|`.
pub open spec fn prompt_key_bytes(parts: Seq<Seq<char>>) -> Seq<u8>
    decreases parts.len(),
{
    if parts.len() == 0 {
        seq![]
    } else if parts.len() == 1 {
        encode_utf8(parts[0])
    } else {
        prompt_key_bytes(parts.drop_last()) + seq![124u8] + encode_utf8(parts.last())
    }
}

/// The lowercase hexadecimal digit for `n` (below 16).
pub open spec fn hex_digit(n: nat) -> char {
    if n < 10 {
        (48 + n) as char
    } else {
        (87 + n) as char
    }
}

/// The last `count` hexadecimal digits of `n`, most significant first
/// (`format!("{:0count$x}")` for a value below `16^count`).
pub open spec fn hex_digits(n: nat, count: nat) -> Seq<char>
    decreases count,
{
    if count == 0 {
        seq![]
    } else {
        hex_digits(n / 16, (count - 1) as nat).push(hex_digit(n % 16))
    }
}

/// Appends the last `count` hexadecimal digits of `n`.
fn push_hex(out: &mut String, n: u64, count: usize)
    ensures
        final(out)@ == old(out)@ + hex_digits(n as nat, count as nat),
    decreases count,
{
    if count > 0 {
        push_hex(out, n / 16, count - 1);
        let d: u8 = (n % 16) as u8;
        let c: char = if d < 10 { (48 + d) as char } else { (87 + d) as char };
        push_char(out, c);
        assert(out@ =~= old(out)@ + hex_digits(n as nat, count as nat));
    }
}

/// The change-detection hash of the prompt's inputs: FNV-1a over the
/// `|`-separated parts, as 16 lowercase hexadecimal digits.
pub open spec fn spec_prompt_hash(parts: Seq<Seq<char>>) -> Seq<char> {
    hex_digits(fnv(FNV_OFFSET_BASIS, prompt_key_bytes(parts)) as nat, 16)
}

/// FNV-1a over the `|`-separated parts.
fn hash_parts(parts: &Vec<&str>) -> (res: u64)
    ensures
        res == fnv(FNV_OFFSET_BASIS, prompt_key_bytes(parts@.map_values(|p: &str| p@))),
{
    let ghost views = parts@.map_values(|p: &str| p@);
    if parts.len() == 0 {
        return FNV_OFFSET_BASIS;
    }
    let mut acc = fnv_bytes(FNV_OFFSET_BASIS, parts[0].as_bytes());
    assert(views.take(1) =~= seq![views[0]]);
    let mut i: usize = 1;
    while i < parts.len()
        invariant
            1 <= i <= parts@.len(),
            views == parts@.map_values(|p: &str| p@),
            acc == fnv(FNV_OFFSET_BASIS, prompt_key_bytes(views.take(i as int))),
        decreases parts@.len() - i,
    {
        let ghost before = prompt_key_bytes(views.take(i as int));
        let ghost prev = acc;
        let sep: u64 = 124;
        acc = (acc ^ sep).wrapping_mul(FNV_PRIME);
        let bytes = parts[i].as_bytes();
        let next = fnv_bytes(acc, bytes);
        proof {
            let sep_seq: Seq<u8> = seq![124u8];
            assert(fnv(FNV_OFFSET_BASIS, before + sep_seq) == acc) by {
                lemma_fnv_append(FNV_OFFSET_BASIS, before, sep_seq);
                assert(sep_seq.drop_last() =~= Seq::<u8>::empty());
                assert(fnv(prev, Seq::<u8>::empty()) == prev);
                assert(sep_seq.last() == 124u8);
                assert(fnv(prev, sep_seq) == fnv_step(prev, 124u8));
            }
            lemma_fnv_append(FNV_OFFSET_BASIS, before + sep_seq, bytes@);
            let t = views.take(i + 1);
            assert(t.drop_last() =~= views.take(i as int));
            assert(t.last() == parts@[i as int]@);
            assert(prompt_key_bytes(t) == before + sep_seq + encode_utf8(t.last()));
        }
        acc = next;
        i += 1;
    }
    assert(views.take(i as int) =~= views);
    acc
}

/// The hash that tells whether a cached system prompt still matches its
/// inputs: 16 lowercase hexadecimal digits of FNV-1a over the inputs joined
/// by `|`.
pub fn compute_system_prompt_hash(
    soul_id: &str,
    agent_id: &str,
    project_harness_id: &str,
    project_id: &str,
    session_mode: &str,
    active_plan_id: &str,
    skills_prompt_mode: &str,
    tools_enabled: &str,
    sandbox_url: &str,
    workdir: &str,
    system_prompt_override: &str,
) -> (res: String)
    ensures
        res@ == spec_prompt_hash(
            seq![
                soul_id@,
                agent_id@,
                project_harness_id@,
                project_id@,
                session_mode@,
                active_plan_id@,
                skills_prompt_mode@,
                tools_enabled@,
                sandbox_url@,
                workdir@,
                system_prompt_override@,
            ],
        ),
{
    let parts: Vec<&str> = vec![
        soul_id,
        agent_id,
        project_harness_id,
        project_id,
        session_mode,
        active_plan_id,
        skills_prompt_mode,
        tools_enabled,
        sandbox_url,
        workdir,
        system_prompt_override,
    ];
    let h = hash_parts(&parts);
    assert(parts@.map_values(|p: &str| p@) =~= seq![
        soul_id@,
        agent_id@,
        project_harness_id@,
        project_id@,
        session_mode@,
        active_plan_id@,
        skills_prompt_mode@,
        tools_enabled@,
        sandbox_url@,
        workdir@,
        system_prompt_override@,
    ]);
    let mut out = String::new();
    push_hex(&mut out, h, 16);
    out
}

/// The string a setting holds: the session field `key` when it is a string,
/// else the configuration entry `key`.
pub open spec fn setting(fields: JsonV, config: JsonV, key: Seq<char>) -> Option<Seq<char>> {
    match opt_str(spec_get(fields, key)) {
        Some(v) => Some(v),
        None => opt_str(spec_get(config, key)),
    }
}

/// Reads a setting from the session fields, falling back to the configuration.
fn setting_str<'a>(fields: &'a Json, config: &'a Json, key: &str) -> (res: Option<&'a str>)
    ensures
        opt_view(res) == setting(fields@, config@, key@),
{
    match fields.get_str(key) {
        Some(v) => Some(v),
        None => config.get_str(key),
    }
}

/// A textual setting, trimmed and lowercased, or the lowercased default when
/// it is missing or blank.
pub open spec fn spec_configured_string(
    fields: JsonV,
    config: JsonV,
    key: Seq<char>,
    default_value: Seq<char>,
) -> Seq<char> {
    match setting(fields, config, key) {
        Some(v) if trim(v).len() > 0 => ascii_lower_seq(trim(v)),
        _ => ascii_lower_seq(default_value),
    }
}

/// A textual setting of the session, trimmed and in lowercase.
pub fn configured_string(fields: &Json, config: &Json, key: &str, default_value: &str) -> (res: String)
    ensures
        res@ == spec_configured_string(fields@, config@, key@, default_value@),
{
    let chosen: Vec<char> = match setting_str(fields, config, key) {
        Some(v) => {
            let t = trim_chars(&chars_of(v));
            if t.len() > 0 {
                t
            } else {
                chars_of(default_value)
            }
        },
        None => chars_of(default_value),
    };
    string_from_chars(&ascii_lowercase(&chosen))
}

/// A switch setting: on when its trimmed, lowercased text is `1`, `true` or
/// `yes`; the default when it is missing.
pub open spec fn spec_bool_setting(
    fields: JsonV,
    config: JsonV,
    key: Seq<char>,
    default_value: bool,
) -> bool {
    match setting(fields, config, key) {
        Some(v) => {
            let t = ascii_lower_seq(trim(v));
            t == "1"@ || t == "true"@ || t == "yes"@
        },
        None => default_value,
    }
}

/// A switch setting of the session.
pub fn bool_field_or_config(fields: &Json, config: &Json, key: &str, default_value: bool) -> (res: bool)
    ensures
        res == spec_bool_setting(fields@, config@, key@, default_value),
{
    match setting_str(fields, config, key) {
        Some(v) => {
            let t = string_from_chars(&ascii_lowercase(&trim_chars(&chars_of(v))));
            let t = t.as_str();
            str_eq(t, "1") || str_eq(t, "true") || str_eq(t, "yes")
        },
        None => default_value,
    }
}

/// A time budget setting: the session field parsed as an integer, else the
/// configuration entry parsed; the default unless the parsed value is positive.
pub open spec fn spec_budget_ms(fields: JsonV, config: JsonV, key: Seq<char>, default_value: i64) -> i64 {
    let from_fields = match opt_str(spec_get(fields, key)) {
        Some(s) => parse_i64(s),
        None => None,
    };
    let parsed = match from_fields {
        Some(n) => Some(n),
        None => match opt_str(spec_get(config, key)) {
            Some(s) => parse_i64(s),
            None => None,
        },
    };
    match parsed {
        Some(n) if n > 0 => n,
        _ => default_value,
    }
}

/// Parses an optional text as an `i64`.
fn parse_opt_i64(s: Option<&str>) -> (res: Option<i64>)
    ensures
        res == match opt_view(s) {
            Some(t) => parse_i64(t),
            None => None,
        },
{
    match s {
        Some(t) => parse_i64_chars(&chars_of(t)),
        None => None,
    }
}

/// A time budget, in milliseconds, for a phase of the session.
pub fn configured_budget_ms(fields: &Json, config: &Json, key: &str, default_value: i64) -> (res: i64)
    ensures
        res == spec_budget_ms(fields@, config@, key@, default_value),
{
    let parsed = match parse_opt_i64(fields.get_str(key)) {
        Some(n) => Some(n),
        None => parse_opt_i64(config.get_str(key)),
    };
    match parsed {
        Some(n) if n > 0 => n,
        _ => default_value,
    }
}

/// The message of a phase that ran past its budget.
pub open spec fn spec_budget_exceeded(
    phase: Seq<char>,
    last_step: Seq<char>,
    elapsed_ms: i64,
    budget_ms: i64,
) -> Seq<char> {
    phase + ": exceeded local budget after "@ + last_step + " (elapsed_ms="@
        + signed_decimal(elapsed_ms as int) + ", budget_ms="@ + signed_decimal(budget_ms as int)
        + ")"@
}

/// Whether a phase is still within its budget after `elapsed_ms`: `Ok` while
/// the time spent does not exceed the budget, else the error that stops it.
pub fn check_phase_budget(phase: &str, elapsed_ms: i64, budget_ms: i64, last_step: &str) -> (res: Result<(), String>)
    ensures
        elapsed_ms <= budget_ms ==> res is Ok,
        elapsed_ms > budget_ms ==> (res matches Err(e) && e@ == spec_budget_exceeded(
            phase@,
            last_step@,
            elapsed_ms,
            budget_ms,
        )),
{
    if elapsed_ms <= budget_ms {
        return Ok(());
    }
    let mut out = phase.to_string();
    out.append(": exceeded local budget after ");
    out.append(last_step);
    out.append(" (elapsed_ms=");
    out.append(i64_to_string(elapsed_ms).as_str());
    out.append(", budget_ms=");
    out.append(i64_to_string(budget_ms).as_str());
    out.append(")");
    Err(out)
}

/// The default Temper API endpoint.
pub const DEFAULT_TEMPER_API_URL: &'static str = "http://127.0.0.1:3000";

/// The Temper API endpoint: the session's non-empty `temper_api_url`, else
/// the configured one when it is not blank and holds no unresolved secret,
/// else the local default.
pub open spec fn spec_temper_api_url(fields: JsonV, config: JsonV) -> Seq<char> {
    match opt_str(spec_get(fields, "temper_api_url"@)) {
        Some(v) if v.len() > 0 => v,
        _ => match opt_str(spec_get(config, "temper_api_url"@)) {
            Some(v) if trim(v).len() > 0 && !contains_seq(v, "{secret:"@) => v,
            _ => DEFAULT_TEMPER_API_URL@,
        },
    }
}

/// The Temper API endpoint the session talks to.
pub fn resolve_temper_api_url(fields: &Json, config: &Json) -> (res: String)
    ensures
        res@ == spec_temper_api_url(fields@, config@),
{
    if let Some(v) = fields.get_str("temper_api_url") {
        if chars_of(v).len() > 0 {
            return v.to_string();
        }
    }
    if let Some(v) = config.get_str("temper_api_url") {
        let t = trim_chars(&chars_of(v));
        if t.len() > 0 && !str_contains(v, "{secret:") {
            return v.to_string();
        }
    }
    DEFAULT_TEMPER_API_URL.to_string()
}

/// The parts joined with `sep` between each two (`parts.join(sep)`).
pub open spec fn join_sep(parts: Seq<Seq<char>>, sep: Seq<char>) -> Seq<char>
    decreases parts.len(),
{
    if parts.len() == 0 {
        seq![]
    } else if parts.len() == 1 {
        parts[0]
    } else {
        join_sep(parts.drop_last(), sep) + sep + parts.last()
    }
}

/// `parts.join(sep)`.
pub fn join_with(parts: &Vec<String>, sep: &str) -> (res: String)
    ensures
        res@ == join_sep(strings_view(parts@), sep@),
{
    let ghost pv = strings_view(parts@);
    let mut out = String::new();
    let mut i: usize = 0;
    while i < parts.len()
        invariant
            i <= parts@.len(),
            pv == strings_view(parts@),
            out@ == join_sep(pv.take(i as int), sep@),
        decreases parts@.len() - i,
    {
        proof {
            assert(pv.take(i + 1).drop_last() =~= pv.take(i as int));
            assert(pv.take(i + 1).last() == parts@[i as int]@);
        }
        if i > 0 {
            out.append(sep);
        } else {
            assert(pv.take(1) =~= seq![parts@[0]@]);
            assert(out@ =~= seq![]);
        }
        out.append(parts[i].as_str());
        i += 1;
    }
    assert(pv.take(i as int) =~= pv);
    out
}

/// The text a loader gave, or nothing when it failed.
pub open spec fn loaded_text(r: Result<String, String>) -> Seq<char> {
    match r {
        Ok(t) => t@,
        Err(_) => seq![],
    }
}

/// A prompt section, present only when it holds text.
pub open spec fn section(t: Seq<char>) -> Seq<Seq<char>> {
    if t.len() > 0 {
        seq![t]
    } else {
        seq![]
    }
}

/// The instructions used in plan mode when none are stored.
pub const PLAN_MODE_FALLBACK: &'static str = "\
# Plan Mode\n\
\n\
You are in PLAN MODE. Investigate thoroughly and produce a Plan entity.\n\
You CANNOT modify code or write sandbox files. You CAN read, explore, research,\n\
and write plan documents to TemperFS via temper.write().\n\
\n\
Use sandbox.read() and sandbox.bash() for read-only exploration.\n\
Create/update Plan entities with temper.create()/temper.action().\n\
When ready, call temper.switch_mode({\"mode\": \"execute\"}) to resume with full tools.";

/// A string field read as `get(key).or_else(|| get(alt)).and_then(as_str)`:
/// the alternative name is only consulted when the first is absent.
pub open spec fn alt_field(fields: JsonV, key: Seq<char>, alt: Seq<char>) -> Option<Seq<char>> {
    match spec_get(fields, key) {
        Some(v) => spec_as_str(v),
        None => opt_str(spec_get(fields, alt)),
    }
}

/// Reads a string field under its name, or its alternative name when absent.
pub fn alt_field_str<'a>(fields: &'a Json, key: &str, alt: &str) -> (res: Option<&'a str>)
    ensures
        opt_view(res) == alt_field(fields@, key@, alt@),
{
    match fields.get(key) {
        Some(v) => v.as_str(),
        None => fields.get_str(alt),
    }
}

/// An optional string, or the empty one.
pub open spec fn or_empty(o: Option<Seq<char>>) -> Seq<char> {
    match o {
        Some(s) => s,
        None => seq![],
    }
}

/// The session mode: the `session_mode` field, `execute` by default.
pub open spec fn session_mode(fields: JsonV) -> Seq<char> {
    match opt_str(spec_get(fields, "session_mode"@)) {
        Some(m) => m,
        None => "execute"@,
    }
}

/// Whether a skills prompt mode lists skills at all.
pub open spec fn spec_skills_enabled(mode: Seq<char>) -> bool {
    !(mode == "off"@ || mode == "none"@ || mode == "disabled"@ || mode == "false"@)
}

/// Whether a skills prompt mode includes each skill's body.
pub open spec fn spec_skills_bodies(mode: Seq<char>) -> bool {
    mode == "full"@ || mode == "body"@ || mode == "bodies"@ || mode == "legacy"@
}

/// The prompt sections a session asks to load, read from its state: each id
/// that selects a section, and how skills are listed.
pub struct PromptLoads {
    /// The soul whose content opens the prompt, when one is set.
    pub soul_id: Option<String>,
    /// The agent, for its instructions (when set) and its skills.
    pub agent_id: String,
    /// The project harness whose conventions are included.
    pub project_harness_id: String,
    /// The project whose skills are listed.
    pub project_id: String,
    /// Whether skills are listed, and then whether with their bodies.
    pub skills: Option<bool>,
    /// Whether plan-mode instructions are included.
    pub plan_mode: bool,
    /// The plan to include while executing, when one is active.
    pub active_plan_id: Option<String>,
    /// The entity whose memories are included.
    pub memory_entity_id: String,
}

/// The fields of an entity state, or an empty object.
pub open spec fn state_fields(entity_state: JsonV) -> JsonV {
    match spec_get(entity_state, "fields"@) {
        Some(f) => f,
        None => JsonV::Object(seq![]),
    }
}

/// The loads a session state asks for (see `plan_prompt_loads`).
pub open spec fn loads_ok(l: PromptLoads, entity_state: JsonV, config: JsonV, soul_id: Seq<char>) -> bool {
    let fields = state_fields(entity_state);
    let mode = spec_configured_string(fields, config, "skills_prompt_mode"@, "index"@);
    let smode = session_mode(fields);
    let plan_id = or_empty(opt_str(spec_get(fields, "active_plan_id"@)));
    &&& crate::text::opt_string(l.soul_id) == (if soul_id.len() > 0 { Some(soul_id) } else { None })
    &&& l.agent_id@ == or_empty(alt_field(fields, "agent_id"@, "AgentId"@))
    &&& l.project_harness_id@ == or_empty(alt_field(fields, "project_harness_id"@, "ProjectHarnessId"@))
    &&& l.project_id@ == or_empty(alt_field(fields, "project_id"@, "ProjectId"@))
    &&& l.skills == (if spec_skills_enabled(mode) { Some(spec_skills_bodies(mode)) } else { None })
    &&& l.plan_mode == (smode == "plan"@)
    &&& crate::text::opt_string(l.active_plan_id) == (if smode == "execute"@ && plan_id.len() > 0 {
        Some(plan_id)
    } else {
        None
    })
    &&& l.memory_entity_id@ == or_empty(opt_str(spec_get(entity_state, "entity_id"@)))
}

/// An optional string, or the empty one.
fn text_or_empty(o: Option<&str>) -> (res: String)
    ensures
        res@ == or_empty(opt_view(o)),
{
    match o {
        Some(s) => s.to_string(),
        None => String::new(),
    }
}

/// Decides which sections of the system prompt a session loads: the soul
/// when one is set, the agent's instructions when an agent is set, the
/// harness and memories always, the skills unless the skills prompt mode
/// turns them off, plan-mode instructions in plan mode, and the active plan
/// while executing.
pub fn plan_prompt_loads(entity_state: &Json, config: &Json, soul_id: &str) -> (res: PromptLoads)
    ensures
        loads_ok(res, entity_state@, config@, soul_id@),
{
    let empty = Json::Object(Vec::new());
    let fields = match entity_state.get("fields") {
        Some(f) => f,
        None => &empty,
    };
    assert(fields@ == state_fields(entity_state@));
    let mode = configured_string(fields, config, "skills_prompt_mode", "index");
    let m = mode.as_str();
    let skills = if str_eq(m, "off") || str_eq(m, "none") || str_eq(m, "disabled") || str_eq(m, "false") {
        None
    } else {
        Some(str_eq(m, "full") || str_eq(m, "body") || str_eq(m, "bodies") || str_eq(m, "legacy"))
    };
    let smode = match fields.get_str("session_mode") {
        Some(v) => v,
        None => "execute",
    };
    let plan_id = text_or_empty(fields.get_str("active_plan_id"));
    let active_plan_id = if str_eq(smode, "execute") && chars_of(plan_id.as_str()).len() > 0 {
        Some(plan_id)
    } else {
        None
    };
    PromptLoads {
        soul_id: if chars_of(soul_id).len() > 0 { Some(soul_id.to_string()) } else { None },
        agent_id: text_or_empty(alt_field_str(fields, "agent_id", "AgentId")),
        project_harness_id: text_or_empty(alt_field_str(fields, "project_harness_id", "ProjectHarnessId")),
        project_id: text_or_empty(alt_field_str(fields, "project_id", "ProjectId")),
        skills,
        plan_mode: str_eq(smode, "plan"),
        active_plan_id,
        memory_entity_id: text_or_empty(entity_state.get_str("entity_id")),
    }
}

/// What each section loader of the system prompt gave. A section whose
/// loader was not called holds `Ok` of the empty string.
pub struct PromptSections {
    pub soul: Result<String, String>,
    pub agent_instructions: Result<String, String>,
    pub harness: Result<String, String>,
    pub skills: Result<String, String>,
    pub plan_mode: Result<String, String>,
    pub active_plan: Result<String, String>,
    pub memory: Result<String, String>,
}

/// The sections of the system prompt, in order: soul, agent instructions,
/// the override, harness, skills, plan-mode instructions (the stored ones,
/// else the fallback) in plan mode, the active plan wrapped in its tag while
/// executing, memories, and the SDK reference when tools are enabled. Empty
/// and failed sections are left out.
pub open spec fn prompt_parts(
    smode: Seq<char>,
    system_prompt_override: Seq<char>,
    tools_enabled: Seq<char>,
    sandbox_url: Seq<char>,
    workdir: Seq<char>,
    sections: PromptSections,
) -> Seq<Seq<char>> {
    let plan = loaded_text(sections.plan_mode);
    let active = loaded_text(sections.active_plan);
    section(loaded_text(sections.soul))
        + section(loaded_text(sections.agent_instructions))
        + section(system_prompt_override)
        + section(loaded_text(sections.harness))
        + section(loaded_text(sections.skills))
        + (if smode == "plan"@ {
            seq![if plan.len() > 0 { plan } else { PLAN_MODE_FALLBACK@ }]
        } else {
            seq![]
        })
        + (if smode == "execute"@ && active.len() > 0 {
            seq!["<active_plan>\n"@ + active + "\n</active_plan>"@]
        } else {
            seq![]
        })
        + section(loaded_text(sections.memory))
        + (if tool_set(tools_enabled).is_empty() {
            seq![]
        } else {
            seq![spec_prepared_sdk_reference(tools_enabled, sandbox_url, workdir)]
        })
}

/// The system prompt: its sections separated by blank lines, or the bare
/// override when there is none.
pub open spec fn spec_system_prompt(
    smode: Seq<char>,
    system_prompt_override: Seq<char>,
    tools_enabled: Seq<char>,
    sandbox_url: Seq<char>,
    workdir: Seq<char>,
    sections: PromptSections,
) -> Seq<char> {
    let parts = prompt_parts(smode, system_prompt_override, tools_enabled, sandbox_url, workdir, sections);
    if parts.len() == 0 {
        system_prompt_override
    } else {
        join_sep(parts, "\n\n"@)
    }
}

/// Adds a section when it holds text.
fn push_section(parts: &mut Vec<String>, text: String)
    ensures
        strings_view(final(parts)@) == strings_view(old(parts)@) + section(text@),
{
    let ghost before = strings_view(parts@);
    if chars_of(text.as_str()).len() > 0 {
        let ghost t = text@;
        parts.push(text);
        assert(strings_view(parts@) =~= before + seq![t]);
    } else {
        assert(before + section(text@) =~= before);
    }
}

/// The text a loader gave, or nothing when it failed.
fn take_loaded(r: &Result<String, String>) -> (res: String)
    ensures
        res@ == loaded_text(*r),
{
    match r {
        Ok(t) => t.clone(),
        Err(_) => String::new(),
    }
}

/// Assembles the system prompt from the sections that were loaded for it.
pub fn assemble_system_prompt(
    session_mode_text: &str,
    system_prompt_override: &str,
    tools_enabled: &str,
    sandbox_url: &str,
    workdir: &str,
    sections: &PromptSections,
) -> (res: String)
    ensures
        res@ == spec_system_prompt(
            session_mode_text@,
            system_prompt_override@,
            tools_enabled@,
            sandbox_url@,
            workdir@,
            *sections,
        ),
{
    let mut parts: Vec<String> = Vec::new();
    push_section(&mut parts, take_loaded(&sections.soul));
    push_section(&mut parts, take_loaded(&sections.agent_instructions));
    push_section(&mut parts, system_prompt_override.to_string());
    push_section(&mut parts, take_loaded(&sections.harness));
    push_section(&mut parts, take_loaded(&sections.skills));
    let ghost upto_skills = strings_view(parts@);
    if str_eq(session_mode_text, "plan") {
        let plan = take_loaded(&sections.plan_mode);
        if chars_of(plan.as_str()).len() > 0 {
            parts.push(plan);
        } else {
            parts.push(PLAN_MODE_FALLBACK.to_string());
        }
    }
    let ghost upto_plan = strings_view(parts@);
    let active = take_loaded(&sections.active_plan);
    if str_eq(session_mode_text, "execute") && chars_of(active.as_str()).len() > 0 {
        let mut wrapped = String::from_str("<active_plan>\n");
        wrapped.append(active.as_str());
        wrapped.append("\n</active_plan>");
        parts.push(wrapped);
    }
    let ghost upto_active = strings_view(parts@);
    push_section(&mut parts, take_loaded(&sections.memory));
    let enabled = enabled_tool_set(tools_enabled);
    let ghost upto_memory = strings_view(parts@);
    if enabled.len() > 0 {
        proof {
            assert(tool_set(tools_enabled@).contains(strings_view(enabled@)[0]));
        }
        parts.push(build_sdk_reference(tools_enabled, sandbox_url, workdir));
    } else {
        proof {
            assert(tool_set(tools_enabled@) =~= Set::<Seq<char>>::empty());
        }
    }
    proof {
        let smode = session_mode_text@;
        let plan = loaded_text(sections.plan_mode);
        let act = loaded_text(sections.active_plan);
        assert(upto_plan =~= upto_skills + (if smode == "plan"@ {
            seq![if plan.len() > 0 { plan } else { PLAN_MODE_FALLBACK@ }]
        } else {
            seq![]
        }));
        assert(upto_active =~= upto_plan + (if smode == "execute"@ && act.len() > 0 {
            seq!["<active_plan>\n"@ + act + "\n</active_plan>"@]
        } else {
            seq![]
        }));
        assert(strings_view(parts@) =~= prompt_parts(
            smode,
            system_prompt_override@,
            tools_enabled@,
            sandbox_url@,
            workdir@,
            *sections,
        ));
    }
    if parts.len() == 0 {
        return system_prompt_override.to_string();
    }
    join_with(&parts, "\n\n")
}

/// A string read by `entity_field_str`, or a default.
pub open spec fn field_or(value: JsonV, key: &'static str, default_value: Seq<char>) -> Seq<char> {
    match spec_entity_field_str(value, seq![key]) {
        Some(s) => s,
        None => default_value,
    }
}

/// One memory in the prompt: its key, type and content.
pub open spec fn memory_entry(mem: JsonV) -> Seq<char> {
    "  <memory key=\""@ + field_or(mem, "Key", "unknown"@) + "\" type=\""@
        + field_or(mem, "MemoryType", "reference"@) + "\">\n    "@
        + field_or(mem, "Content", seq![]) + "\n  </memory>\n"@
}

/// The memories in the prompt, in order.
pub open spec fn memory_entries(mems: Seq<JsonV>) -> Seq<char>
    decreases mems.len(),
{
    if mems.len() == 0 {
        seq![]
    } else {
        memory_entries(mems.drop_last()) + memory_entry(mems.last())
    }
}

/// The memory block of the system prompt: empty without memories, else the
/// memories inside an `agent_memory` tag.
pub open spec fn spec_memory_block(mems: Seq<JsonV>) -> Seq<char> {
    if mems.len() == 0 {
        seq![]
    } else {
        "<agent_memory>\n"@ + memory_entries(mems) + "</agent_memory>"@
    }
}

/// A string read by `entity_field_str` under one key, or a default.
fn read_field_or(value: &Json, key: &'static str, default_value: &str) -> (res: String)
    ensures
        res@ == field_or(value@, key, default_value@),
{
    let keys = [key];
    assert(keys@ =~= seq![key]);
    match entity_field_str(value, &keys) {
        Some(s) => s.to_string(),
        None => default_value.to_string(),
    }
}

/// Renders an agent's active memories as the prompt's memory block.
#[verifier::spinoff_prover]
#[verifier::rlimit(50)]
pub fn render_memory_block(memories: &Vec<Json>) -> (res: String)
    ensures
        res@ == spec_memory_block(items_view(memories@)),
{
    if memories.len() == 0 {
        return String::new();
    }
    let ghost mv = items_view(memories@);
    proof {
        lemma_items_view(memories@);
    }
    let mut out = String::from_str("<agent_memory>\n");
    let mut i: usize = 0;
    while i < memories.len()
        invariant
            i <= memories@.len(),
            mv == items_view(memories@),
            mv.len() == memories@.len(),
            forall|k: int| 0 <= k < memories@.len() ==> #[trigger] mv[k] == memories@[k]@,
            out@ == "<agent_memory>\n"@ + memory_entries(mv.take(i as int)),
        decreases memories@.len() - i,
    {
        let mem = &memories[i];
        let key = read_field_or(mem, "Key", "unknown");
        let content = read_field_or(mem, "Content", "");
        let kind = read_field_or(mem, "MemoryType", "reference");
        out.append("  <memory key=\"");
        out.append(key.as_str());
        out.append("\" type=\"");
        out.append(kind.as_str());
        out.append("\">\n    ");
        out.append(content.as_str());
        out.append("\n  </memory>\n");
        proof {
            assert(mv.take(i + 1).drop_last() =~= mv.take(i as int));
            assert(mv.take(i + 1).last() == mem@);
            assert(content@ == field_or(mem@, "Content", seq![])) by {
                assert(""@ =~= Seq::<char>::empty()) by {
                    reveal_strlit("");
                }
            }
        }
        i += 1;
    }
    out.append("</agent_memory>");
    assert(mv.take(i as int) =~= mv);
    out
}

/// The tags of a session's metrics.
pub fn session_metric_tags(provider: &str, model: &str) -> (res: Json)
    ensures
        res@ == JsonV::Object(seq![("provider"@, JsonV::String(provider@)), ("model"@, JsonV::String(model@))]),
{
    object2("provider", string_value(provider), "model", string_value(model))
}

/// The context window assumed for every model, in tokens.
pub const MODEL_CONTEXT_WINDOW: usize = 200_000;

/// The context window of a model, in tokens.
pub fn model_context_window(_model: &str) -> (res: usize)
    ensures
        res == MODEL_CONTEXT_WINDOW,
{
    MODEL_CONTEXT_WINDOW
}

/// Whether a context has outgrown the window less the tokens reserved for
/// the reply, and has to be compacted before the call.
pub fn needs_compaction(context_tokens: usize, model: &str, reserve_tokens: usize) -> (res: bool)
    ensures
        res == (context_tokens > (if reserve_tokens <= MODEL_CONTEXT_WINDOW {
            MODEL_CONTEXT_WINDOW - reserve_tokens
        } else {
            0
        })),
{
    context_tokens > model_context_window(model).saturating_sub(reserve_tokens)
}

/// A system prompt cached with the prepared context of an earlier turn.
pub struct CachedPrompt {
    pub system_prompt_hash: String,
    pub system_prompt: String,
    pub system_prompt_file_id: String,
}

/// Where the system prompt of a turn comes from.
#[derive(Debug, Clone, Copy, PartialEq, Eq, Structural)]
pub enum PromptSource {
    /// The prompt cached with the earlier prepared context.
    Inline,
    /// The prompt file of the earlier turn, read back.
    CacheFile,
    /// A prompt assembled afresh.
    Assemble,
}

/// The prompt reuses the earlier prepared context's when that one was made
/// from the same inputs and is not empty; else the earlier prompt file when
/// the session's recorded hash matches and the file is known; else it is
/// assembled.
pub open spec fn spec_prompt_source(
    new_hash: Seq<char>,
    inline: Option<CachedPrompt>,
    prev_hash: Seq<char>,
    prev_file_id: Seq<char>,
) -> PromptSource {
    if inline matches Some(p) && p.system_prompt_hash@ == new_hash && p.system_prompt@.len() > 0 {
        PromptSource::Inline
    } else if prev_hash.len() > 0 && prev_hash == new_hash && prev_file_id.len() > 0 {
        PromptSource::CacheFile
    } else {
        PromptSource::Assemble
    }
}

/// Chooses where the system prompt of a turn comes from.
pub fn choose_prompt_source(
    new_hash: &str,
    inline: Option<&CachedPrompt>,
    prev_hash: &str,
    prev_file_id: &str,
) -> (res: PromptSource)
    ensures
        res == spec_prompt_source(
            new_hash@,
            match inline {
                Some(p) => Some(*p),
                None => None,
            },
            prev_hash@,
            prev_file_id@,
        ),
{
    if let Some(p) = inline {
        if str_eq(p.system_prompt_hash.as_str(), new_hash) && chars_of(p.system_prompt.as_str()).len() > 0 {
            return PromptSource::Inline;
        }
    }
    if chars_of(prev_hash).len() > 0 && str_eq(prev_hash, new_hash) && chars_of(prev_file_id).len() > 0 {
        PromptSource::CacheFile
    } else {
        PromptSource::Assemble
    }
}

/// The size of a prepared context in bytes: the system prompt's, the
/// messages' JSON text's and the tools' JSON text's UTF-8 lengths added up.
pub open spec fn spec_prepared_context_bytes(messages: Seq<JsonV>, tools: Seq<JsonV>, system_prompt: Seq<char>) -> int {
    crate::compaction::utf8_len(system_prompt) as int
        + crate::compaction::utf8_len(crate::json_text::serialized_json(JsonV::Array(messages))) as int
        + crate::compaction::utf8_len(crate::json_text::serialized_json(JsonV::Array(tools))) as int
}

/// The size of a prepared context in bytes.
pub fn prepared_context_bytes(messages: &Vec<Json>, tools: &Vec<Json>, system_prompt: &str) -> (res: u128)
    ensures
        res == spec_prepared_context_bytes(items_view(messages@), items_view(tools@), system_prompt@),
{
    let mut mv: Vec<Json> = Vec::new();
    let mut i: usize = 0;
    proof {
        lemma_items_view(messages@);
        lemma_items_view(mv@);
    }
    while i < messages.len()
        invariant
            i <= messages@.len(),
            items_view(messages@).len() == messages@.len(),
            forall|k: int| 0 <= k < messages@.len() ==> #[trigger] items_view(messages@)[k] == messages@[k]@,
            items_view(mv@) =~= items_view(messages@).take(i as int),
        decreases messages@.len() - i,
    {
        let ghost before = mv@;
        crate::json::push_item(&mut mv, messages[i].duplicate());
        proof {
            lemma_items_view(before);
            lemma_items_view(mv@);
        }
        i += 1;
    }
    let mut tv: Vec<Json> = Vec::new();
    let mut j: usize = 0;
    proof {
        lemma_items_view(tools@);
        lemma_items_view(tv@);
    }
    while j < tools.len()
        invariant
            j <= tools@.len(),
            items_view(tools@).len() == tools@.len(),
            forall|k: int| 0 <= k < tools@.len() ==> #[trigger] items_view(tools@)[k] == tools@[k]@,
            items_view(tv@) =~= items_view(tools@).take(j as int),
        decreases tools@.len() - j,
    {
        let ghost before = tv@;
        crate::json::push_item(&mut tv, tools[j].duplicate());
        proof {
            lemma_items_view(before);
            lemma_items_view(tv@);
        }
        j += 1;
    }
    assert(items_view(messages@).take(i as int) =~= items_view(messages@));
    assert(items_view(tools@).take(j as int) =~= items_view(tools@));
    let m_text = crate::json_text::to_json_text(&Json::Array(mv));
    let t_text = crate::json_text::to_json_text(&Json::Array(tv));
    let a: u128 = system_prompt.len() as u128;
    let b: u128 = m_text.as_str().len() as u128;
    let c: u128 = t_text.as_str().len() as u128;
    a + b + c
}

/// The default limit on a prepared context, in bytes.
pub const DEFAULT_MAX_LIVE_CONTEXT_BYTES: u64 = 50_331_648;

/// The limit on a prepared context: the session's `max_live_context_bytes`
/// when it parses as an unsigned integer, else the configuration's, else
/// 48 MiB.
pub open spec fn spec_max_live_context_bytes(fields: JsonV, config: JsonV) -> u64 {
    let from_fields = match opt_str(spec_get(fields, "max_live_context_bytes"@)) {
        Some(t) => crate::text::parse_u64(t),
        None => None,
    };
    match from_fields {
        Some(n) => n,
        None => match opt_str(spec_get(config, "max_live_context_bytes"@)) {
            Some(t) => match crate::text::parse_u64(t) {
                Some(n) => n,
                None => DEFAULT_MAX_LIVE_CONTEXT_BYTES,
            },
            None => DEFAULT_MAX_LIVE_CONTEXT_BYTES,
        },
    }
}

/// Parses an optional text as a `u64`.
fn parse_opt_u64(s: Option<&str>) -> (res: Option<u64>)
    ensures
        res == match opt_view(s) {
            Some(t) => crate::text::parse_u64(t),
            None => None,
        },
{
    match s {
        Some(t) => crate::text::parse_u64_chars(&chars_of(t)),
        None => None,
    }
}

/// The limit on a prepared context, in bytes.
pub fn max_live_context_bytes(fields: &Json, config: &Json) -> (res: u64)
    ensures
        res == spec_max_live_context_bytes(fields@, config@),
{
    match parse_opt_u64(fields.get_str("max_live_context_bytes")) {
        Some(n) => n,
        None => match parse_opt_u64(config.get_str("max_live_context_bytes")) {
            Some(n) => n,
            None => DEFAULT_MAX_LIVE_CONTEXT_BYTES,
        },
    }
}

/// Whether a prepared context is larger than the live limit, which routes
/// the session to `NeedsCompaction` instead of `ContextReady`.
pub fn exceeds_live_context(bytes: u128, max: u64) -> (res: bool)
    ensures
        res == (bytes > max),
{
    bytes > max as u128
}

} // verus!
