//! The deterministic mock provider used in tests of the agent loop: the
//! plan a conversation carries, the templates its replies fill from the
//! system prompt, and the replies it gives; and the provider credentials a
//! real call picks.

use vstd::prelude::*;
use crate::json::{Json, JsonV, items_view, opt_str, spec_get};
use crate::json_text::parsed_json;
use crate::text::{
    chars_of, find_first, find_char_from, lines, replace_all, slice_chars, str_eq,
    string_from_chars, trim,
};
use crate::history::{has_role, spec_stringify, stringify_content};
use crate::tools::strings_view;

verus! {

/// The text from the first `<tag>` to the `</tag>` after it, both
/// included; empty when either is missing.
pub open spec fn spec_tag_block(text: Seq<char>, tag: Seq<char>) -> Seq<char> {
    let open = "<"@ + tag + ">"@;
    let close = "</"@ + tag + ">"@;
    match find_first(text, open) {
        None => seq![],
        Some(s) => match find_first(text.skip(s), close) {
            None => seq![],
            Some(e) => text.subrange(s, s + e + close.len()),
        },
    }
}

/// The `<tag>...</tag>` block of a text.
pub fn extract_tag_block(text: &str, tag: &str) -> (res: String)
    ensures
        res@ == spec_tag_block(text@, tag@),
{
    let mut open = String::from_str("<");
    open.append(tag);
    open.append(">");
    let mut close = String::from_str("</");
    close.append(tag);
    close.append(">");
    let v = chars_of(text);
    let o = chars_of(open.as_str());
    let c = chars_of(close.as_str());
    let start = match crate::text::find_chars(&v, &o) {
        Some(s) => s,
        None => {
            return String::new();
        },
    };
    proof {
        crate::text::lemma_find_from(v@, o@, 0);
    }
    let rest = slice_chars(&v, start, v.len());
    assert(rest@ =~= v@.skip(start as int));
    let end = match crate::text::find_chars(&rest, &c) {
        Some(e) => e,
        None => {
            return String::new();
        },
    };
    proof {
        crate::text::lemma_find_from(rest@, c@, 0);
    }
    let block = slice_chars(&v, start, start + end + c.len());
    string_from_chars(&block)
}

/// The key a memory line names: the text between `key="` and the next `"`.
pub open spec fn memory_key(line: Seq<char>) -> Option<Seq<char>> {
    match find_first(line, "key=\""@) {
        None => None,
        Some(i) => {
            let rest = line.skip(i + 5);
            match find_char_from(rest, '"', 0) {
                None => None,
                Some(e) => Some(rest.take(e)),
            }
        },
    }
}

/// The keys the lines name, in order.
pub open spec fn memory_keys_of(ls: Seq<Seq<char>>) -> Seq<Seq<char>>
    decreases ls.len(),
{
    if ls.len() == 0 {
        seq![]
    } else {
        let prior = memory_keys_of(ls.drop_last());
        match memory_key(ls.last()) {
            Some(k) => prior.push(k),
            None => prior,
        }
    }
}

/// The memory keys a system prompt lists, one per line at most.
pub open spec fn spec_memory_keys(text: Seq<char>) -> Seq<Seq<char>> {
    memory_keys_of(lines(text))
}

/// The key a memory line names.
fn read_memory_key(line: &Vec<char>) -> (res: Option<String>)
    ensures
        crate::text::opt_string(res) == memory_key(line@),
{
    proof {
        reveal_strlit("key=\"");
    }
    let marker = chars_of("key=\"");
    let i = match crate::text::find_chars(line, &marker) {
        Some(i) => i,
        None => {
            return None;
        },
    };
    proof {
        crate::text::lemma_find_from(line@, marker@, 0);
        assert(marker@.len() == 5);
    }
    assert(i + 5 <= line@.len());
    assert(line@.len() == line.len());
    let start: usize = i + 5;
    let rest = slice_chars(line, start, line.len());
    assert(rest@ =~= line@.skip(i + 5));
    let end = match crate::text::find_char(&rest, '"', 0) {
        Some(e) => e,
        None => {
            return None;
        },
    };
    proof {
        crate::text::lemma_find_char_from(rest@, '"', 0);
    }
    let key = slice_chars(&rest, 0, end);
    assert(key@ =~= rest@.take(end as int));
    Some(string_from_chars(&key))
}

/// The memory keys a system prompt lists.
pub fn extract_memory_keys(text: &str) -> (res: Vec<String>)
    ensures
        strings_view(res@) == spec_memory_keys(text@),
{
    let ls = crate::text::lines_of(&chars_of(text));
    let ghost lv = ls@.map_values(|l: Vec<char>| l@);
    let mut keys: Vec<String> = Vec::new();
    proof {
        assert(lv.take(0) =~= Seq::<Seq<char>>::empty());
        assert(strings_view(keys@) =~= Seq::<Seq<char>>::empty());
    }
    let mut i: usize = 0;
    while i < ls.len()
        invariant
            i <= ls@.len(),
            lv == ls@.map_values(|l: Vec<char>| l@),
            lv == lines(text@),
            strings_view(keys@) == memory_keys_of(lv.take(i as int)),
        decreases ls@.len() - i,
    {
        assert(lv.take(i + 1).drop_last() =~= lv.take(i as int));
        assert(lv.take(i + 1).last() == ls@[i as int]@);
        if let Some(k) = read_memory_key(&ls[i]) {
            let ghost before = strings_view(keys@);
            keys.push(k);
            assert(strings_view(keys@) =~= before.push(memory_key(ls@[i as int]@)->Some_0));
        }
        i += 1;
    }
    assert(lv.take(i as int) =~= lv);
    keys
}

/// The parts joined with `, ` between each two.
pub open spec fn join_comma(parts: Seq<Seq<char>>) -> Seq<char>
    decreases parts.len(),
{
    if parts.len() == 0 {
        seq![]
    } else if parts.len() == 1 {
        parts[0]
    } else {
        join_comma(parts.drop_last()) + ", "@ + parts.last()
    }
}

/// `parts.join(", ")`.
fn join_with_comma(parts: &Vec<String>) -> (res: String)
    ensures
        res@ == join_comma(strings_view(parts@)),
{
    let ghost pv = strings_view(parts@);
    let mut out = String::new();
    let mut i: usize = 0;
    proof {
        assert(pv.take(0) =~= Seq::<Seq<char>>::empty());
    }
    while i < parts.len()
        invariant
            i <= parts@.len(),
            pv == strings_view(parts@),
            out@ == join_comma(pv.take(i as int)),
        decreases parts@.len() - i,
    {
        assert(pv.take(i + 1).drop_last() =~= pv.take(i as int));
        if i > 0 {
            out.append(", ");
        }
        out.append(parts[i].as_str());
        i += 1;
    }
    assert(pv.take(i as int) =~= pv);
    out
}

/// A mock reply template filled in: the latest user text, the memory block
/// and its keys and their count, and the skills block of the system prompt.
pub open spec fn spec_mock_template(template: Seq<char>, system_prompt: Seq<char>, latest_user: Seq<char>) -> Seq<char> {
    let keys = spec_memory_keys(system_prompt);
    let t1 = replace_all(template, "{{latest_user}}"@, latest_user);
    let t2 = replace_all(t1, "{{memory_block}}"@, spec_tag_block(system_prompt, "agent_memory"@));
    let t3 = replace_all(t2, "{{memory_keys}}"@, join_comma(keys));
    let t4 = replace_all(t3, "{{memory_count}}"@, crate::text::decimal(keys.len()));
    replace_all(t4, "{{skills_block}}"@, spec_tag_block(system_prompt, "available_skills"@))
}

/// Fills in a mock reply template.
pub fn resolve_mock_template(template: &str, assembled_system_prompt: &str, latest_user: &str) -> (res: String)
    ensures
        res@ == spec_mock_template(template@, assembled_system_prompt@, latest_user@),
{
    proof {
        reveal_strlit("{{latest_user}}");
        reveal_strlit("{{memory_block}}");
        reveal_strlit("{{memory_keys}}");
        reveal_strlit("{{memory_count}}");
        reveal_strlit("{{skills_block}}");
    }
    let keys = extract_memory_keys(assembled_system_prompt);
    let t1 = crate::text::str_replace(template, "{{latest_user}}", latest_user);
    let t2 = crate::text::str_replace(
        t1.as_str(),
        "{{memory_block}}",
        extract_tag_block(assembled_system_prompt, "agent_memory").as_str(),
    );
    let t3 = crate::text::str_replace(t2.as_str(), "{{memory_keys}}", join_with_comma(&keys).as_str());
    let count = string_from_chars(&crate::text::decimal_chars(keys.len() as u64));
    let t4 = crate::text::str_replace(t3.as_str(), "{{memory_count}}", count.as_str());
    crate::text::str_replace(
        t4.as_str(),
        "{{skills_block}}",
        extract_tag_block(assembled_system_prompt, "available_skills").as_str(),
    )
}

/// The text of the latest user message (its content as text, `null` when
/// it has none); `None` without a user message.
pub open spec fn spec_latest_user_text(msgs: Seq<JsonV>) -> Option<Seq<char>>
    decreases msgs.len(),
{
    if msgs.len() == 0 {
        None
    } else if has_role(msgs.last(), "user"@) {
        Some(spec_stringify(match spec_get(msgs.last(), "content"@) {
            Some(c) => c,
            None => JsonV::Null,
        }))
    } else {
        spec_latest_user_text(msgs.drop_last())
    }
}

/// A message's role is `role`.
fn role_is(message: &Json, role: &str) -> (res: bool)
    ensures
        res == has_role(message@, role@),
{
    match message.get_str("role") {
        Some(r) => str_eq(r, role),
        None => false,
    }
}

/// A message's content as text, `null` without content.
fn content_text(message: &Json) -> (res: String)
    ensures
        res@ == spec_stringify(match spec_get(message@, "content"@) {
            Some(c) => c,
            None => JsonV::Null,
        }),
{
    match message.get("content") {
        Some(c) => stringify_content(c),
        None => stringify_content(&Json::Null),
    }
}

/// The text of the latest user message.
pub fn latest_user_text(messages: &Vec<Json>) -> (res: Option<String>)
    ensures
        crate::text::opt_string(res) == spec_latest_user_text(items_view(messages@)),
{
    let ghost mv = items_view(messages@);
    proof {
        crate::json::lemma_items_view(messages@);
    }
    let mut i: usize = messages.len();
    assert(mv.take(i as int) =~= mv);
    while i > 0
        invariant
            i <= messages@.len(),
            mv == items_view(messages@),
            mv.len() == messages@.len(),
            forall|j: int| 0 <= j < messages@.len() ==> #[trigger] mv[j] == messages@[j]@,
            spec_latest_user_text(mv) == spec_latest_user_text(mv.take(i as int)),
        decreases i,
    {
        assert(mv.take(i as int).drop_last() =~= mv.take(i - 1));
        assert(mv.take(i as int).last() == messages@[i - 1]@);
        if role_is(&messages[i - 1], "user") {
            return Some(content_text(&messages[i - 1]));
        }
        i -= 1;
    }
    assert(mv.take(0) =~= Seq::<JsonV>::empty());
    None
}

/// The steps of the mock plan a parsed user message holds: its `steps`
/// list, else the `steps` list of its `mock_plan`.
pub open spec fn plan_steps(parsed: JsonV) -> Option<Seq<JsonV>> {
    match crate::json::opt_array(spec_get(parsed, "steps"@)) {
        Some(steps) => Some(steps),
        None => match spec_get(parsed, "mock_plan"@) {
            Some(p) => crate::json::opt_array(spec_get(p, "steps"@)),
            None => None,
        },
    }
}

/// The steps of the mock plan a message holds: a user message whose text is
/// JSON with steps.
pub open spec fn message_plan(m: JsonV) -> Option<Seq<JsonV>> {
    if !has_role(m, "user"@) {
        None
    } else {
        match parsed_json(spec_stringify(match spec_get(m, "content"@) {
            Some(c) => c,
            None => JsonV::Null,
        })) {
            Some(parsed) => plan_steps(parsed),
            None => None,
        }
    }
}

/// The mock plan of a conversation: that of its first message holding one.
pub open spec fn spec_mock_plan(msgs: Seq<JsonV>) -> Option<Seq<JsonV>>
    decreases msgs.len(),
{
    if msgs.len() == 0 {
        None
    } else {
        match message_plan(msgs[0]) {
            Some(steps) => Some(steps),
            None => spec_mock_plan(msgs.drop_first()),
        }
    }
}

/// Copies of the given values.
fn copy_all(values: &Vec<Json>) -> (res: Vec<Json>)
    ensures
        items_view(res@) == items_view(values@),
{
    let mut out: Vec<Json> = Vec::new();
    proof {
        crate::json::lemma_items_view(values@);
        crate::json::lemma_items_view_empty(out@);
    }
    let mut i: usize = 0;
    while i < values.len()
        invariant
            i <= values@.len(),
            items_view(values@).len() == values@.len(),
            forall|j: int| 0 <= j < values@.len() ==> #[trigger] items_view(values@)[j] == values@[j]@,
            items_view(out@) == items_view(values@).take(i as int),
        decreases values@.len() - i,
    {
        crate::json::push_item(&mut out, values[i].duplicate());
        assert(items_view(values@).take(i + 1) =~= items_view(values@).take(i as int).push(values@[i as int]@));
        i += 1;
    }
    assert(items_view(values@).take(i as int) =~= items_view(values@));
    out
}

/// The mock plan of one message.
fn read_message_plan(m: &Json) -> (res: Option<Vec<Json>>)
    ensures
        match res {
            Some(steps) => message_plan(m@) == Some(items_view(steps@)),
            None => message_plan(m@) is None,
        },
{
    if !role_is(m, "user") {
        return None;
    }
    let raw = content_text(m);
    let parsed = match crate::json_text::parse_json(raw.as_str()) {
        Some(p) => p,
        None => {
            return None;
        },
    };
    if let Some(steps) = parsed.get_array("steps") {
        return Some(copy_all(steps));
    }
    match parsed.get("mock_plan") {
        Some(p) => match p.get_array("steps") {
            Some(steps) => Some(copy_all(steps)),
            None => None,
        },
        None => None,
    }
}

/// The mock plan of a conversation.
pub fn extract_mock_plan(messages: &Vec<Json>) -> (res: Option<Vec<Json>>)
    ensures
        match res {
            Some(steps) => spec_mock_plan(items_view(messages@)) == Some(items_view(steps@)),
            None => spec_mock_plan(items_view(messages@)) is None,
        },
{
    let ghost mv = items_view(messages@);
    proof {
        crate::json::lemma_items_view(messages@);
        assert(mv.skip(0) =~= mv);
    }
    let mut i: usize = 0;
    while i < messages.len()
        invariant
            i <= messages@.len(),
            mv == items_view(messages@),
            mv.len() == messages@.len(),
            forall|j: int| 0 <= j < messages@.len() ==> #[trigger] mv[j] == messages@[j]@,
            spec_mock_plan(mv) == spec_mock_plan(mv.skip(i as int)),
        decreases messages@.len() - i,
    {
        assert(mv.skip(i as int).drop_first() =~= mv.skip(i + 1));
        assert(mv.skip(i as int)[0] == messages@[i as int]@);
        if let Some(steps) = read_message_plan(&messages[i]) {
            return Some(steps);
        }
        i += 1;
    }
    None
}

/// Whether a plan step asks the mock to hang.
pub open spec fn hang_step(step: JsonV) -> bool {
    opt_str(spec_get(step, "mode"@)) == Some("hang"@)
}

/// Whether the conversation asks the mock to hang: a step of its plan says
/// so, or its latest user text holds `[mock-hang]`.
pub open spec fn spec_requests_hang(msgs: Seq<JsonV>) -> bool {
    (match spec_mock_plan(msgs) {
        Some(steps) => exists|k: int| 0 <= k < steps.len() && #[trigger] hang_step(steps[k]),
        None => false,
    }) || (match spec_latest_user_text(msgs) {
        Some(t) => crate::text::contains_seq(t, "[mock-hang]"@),
        None => false,
    })
}

/// Whether a plan step asks the mock to hang.
fn is_hang_step(step: &Json) -> (res: bool)
    ensures
        res == hang_step(step@),
{
    match step.get_str("mode") {
        Some(m) => str_eq(m, "hang"),
        None => false,
    }
}

/// Whether the conversation asks the mock to hang.
pub fn mock_plan_requests_hang(messages: &Vec<Json>) -> (res: bool)
    ensures
        res == spec_requests_hang(items_view(messages@)),
{
    if let Some(steps) = extract_mock_plan(messages) {
        let ghost sv = items_view(steps@);
        proof {
            crate::json::lemma_items_view(steps@);
        }
        let mut k: usize = 0;
        while k < steps.len()
            invariant
                spec_mock_plan(items_view(messages@)) == Some(sv),
                k <= steps@.len(),
                sv == items_view(steps@),
                sv.len() == steps@.len(),
                forall|j: int| 0 <= j < steps@.len() ==> #[trigger] sv[j] == steps@[j]@,
                forall|j: int| 0 <= j < k ==> !hang_step(#[trigger] sv[j]),
            decreases steps@.len() - k,
        {
            if is_hang_step(&steps[k]) {
                assert(hang_step(sv[k as int]));
                assert(exists|j: int| 0 <= j < sv.len() && #[trigger] hang_step(sv[j]));
                assert(spec_mock_plan(items_view(messages@)) == Some(sv));
                let ghost plan = spec_mock_plan(items_view(messages@));
                assert(plan->Some_0 == sv);
                assert(match spec_mock_plan(items_view(messages@)) {
                    Some(steps) => exists|j: int| 0 <= j < steps.len() && #[trigger] hang_step(steps[j]),
                    None => false,
                });
                return true;
            }
            k += 1;
        }
    }
    match latest_user_text(messages) {
        Some(t) => crate::text::str_contains(t.as_str(), "[mock-hang]"),
        None => false,
    }
}

/// The first of the values that is not blank, trimmed; empty when none is.
pub open spec fn spec_first_non_empty(values: Seq<Option<Seq<char>>>) -> Seq<char>
    decreases values.len(),
{
    if values.len() == 0 {
        seq![]
    } else {
        match values[0] {
            Some(v) if trim(v).len() > 0 => trim(v),
            _ => spec_first_non_empty(values.drop_first()),
        }
    }
}

/// The first of the values that is not blank, trimmed.
pub fn first_non_empty(values: &Vec<Option<String>>) -> (res: String)
    ensures
        res@ == spec_first_non_empty(values@.map_values(|o: Option<String>| crate::text::opt_string(o))),
{
    let ghost vv = values@.map_values(|o: Option<String>| crate::text::opt_string(o));
    let mut i: usize = 0;
    assert(vv.skip(0) =~= vv);
    while i < values.len()
        invariant
            i <= values@.len(),
            vv == values@.map_values(|o: Option<String>| crate::text::opt_string(o)),
            spec_first_non_empty(vv) == spec_first_non_empty(vv.skip(i as int)),
        decreases values@.len() - i,
    {
        assert(vv.skip(i as int).drop_first() =~= vv.skip(i + 1));
        assert(vv.skip(i as int)[0] == crate::text::opt_string(values@[i as int]));
        if let Some(v) = &values[i] {
            let t = crate::text::str_trim(v.as_str());
            if !t.as_str().is_empty() {
                return t;
            }
        }
        i += 1;
    }
    String::new()
}

/// Whether Anthropic is called with a bearer token: only when the auth mode
/// (trimmed, lowercased) is `oauth`, `token` or `bearer`.
pub open spec fn spec_oauth_mode(auth_mode: Seq<char>) -> bool {
    let m = crate::text::ascii_lower_seq(trim(auth_mode));
    m == "oauth"@ || m == "token"@ || m == "bearer"@
}

/// Whether Anthropic is called with a bearer token.
pub fn detect_anthropic_oauth_mode(_api_key: &str, auth_mode: &str) -> (res: bool)
    ensures
        res == spec_oauth_mode(auth_mode@),
{
    let m = string_from_chars(
        &crate::text::ascii_lowercase(&crate::text::trim_chars(&chars_of(auth_mode))),
    );
    let m = m.as_str();
    str_eq(m, "oauth") || str_eq(m, "token") || str_eq(m, "bearer")
}

/// The configuration keys that may hold a provider's key, in the order they
/// are tried; `None` for an unsupported provider.
pub open spec fn provider_key_names(provider: Seq<char>) -> Option<Seq<Seq<char>>> {
    if provider == "anthropic"@ {
        Some(seq!["anthropic_api_key"@, "anthropic_api_token"@, "api_key"@])
    } else if provider == "openai"@ {
        Some(seq!["openai_api_key"@, "api_key"@])
    } else if provider == "openai_codex"@ {
        Some(seq!["openai_codex_token"@])
    } else if provider == "openrouter"@ {
        Some(seq!["openrouter_api_key"@, "api_key"@])
    } else {
        None
    }
}

/// The key a model call uses: the first configured value under the
/// provider's keys that is not blank (trimmed; empty when there is none);
/// an error for an unsupported provider.
pub open spec fn spec_provider_api_key(config: JsonV, provider: Seq<char>) -> Result<Seq<char>, Seq<char>> {
    match provider_key_names(provider) {
        Some(keys) => Ok(spec_first_non_empty(keys.map_values(|k: Seq<char>| opt_str(spec_get(config, k))))),
        None => Err("unsupported LLM provider: "@ + provider),
    }
}

/// The configuration values under `keys`.
fn config_values(config: &Json, keys: &[&str]) -> (res: Vec<Option<String>>)
    ensures
        res@.map_values(|o: Option<String>| crate::text::opt_string(o)) == keys@.map_values(
            |k: &str| opt_str(spec_get(config@, k@)),
        ),
{
    let mut out: Vec<Option<String>> = Vec::new();
    let mut i: usize = 0;
    while i < keys.len()
        invariant
            i <= keys@.len(),
            out@.map_values(|o: Option<String>| crate::text::opt_string(o)) == keys@.take(
                i as int,
            ).map_values(|k: &str| opt_str(spec_get(config@, k@))),
        decreases keys@.len() - i,
    {
        let v = match config.get_str(keys[i]) {
            Some(s) => Some(s.to_string()),
            None => None,
        };
        let ghost before = out@.map_values(|o: Option<String>| crate::text::opt_string(o));
        let ghost ov = crate::text::opt_string(v);
        assert(ov == opt_str(spec_get(config@, keys@[i as int]@)));
        out.push(v);
        assert(keys@.take(i + 1) =~= keys@.take(i as int).push(keys@[i as int]));
        assert(out@.map_values(|o: Option<String>| crate::text::opt_string(o)) =~= before.push(ov));
        assert(out@.map_values(|o: Option<String>| crate::text::opt_string(o)) =~= keys@.take(
            i + 1,
        ).map_values(|k: &str| opt_str(spec_get(config@, k@))));
        i += 1;
    }
    assert(keys@.take(i as int) =~= keys@);
    out
}

/// The results of an API key lookup as plain values.
pub open spec fn key_result_view(r: Result<String, String>) -> Result<Seq<char>, Seq<char>> {
    match r {
        Ok(k) => Ok(k@),
        Err(e) => Err(e@),
    }
}

/// The key a model call to `provider` uses.
pub fn resolve_provider_api_key(config: &Json, provider: &str) -> (res: Result<String, String>)
    ensures
        key_result_view(res) == spec_provider_api_key(config@, provider@),
{
    proof {
        reveal_strlit("anthropic");
        reveal_strlit("openai");
        reveal_strlit("openai_codex");
        reveal_strlit("openrouter");
        assert("openai"@.len() == 6);
        assert("openai_codex"@.len() == 12);
    }
    let keys: Vec<&str> = if str_eq(provider, "anthropic") {
        vec!["anthropic_api_key", "anthropic_api_token", "api_key"]
    } else if str_eq(provider, "openai") {
        vec!["openai_api_key", "api_key"]
    } else if str_eq(provider, "openai_codex") {
        vec!["openai_codex_token"]
    } else if str_eq(provider, "openrouter") {
        vec!["openrouter_api_key", "api_key"]
    } else {
        let mut e = String::from_str("unsupported LLM provider: ");
        e.append(provider);
        return Err(e);
    };
    let ghost kv = keys@.map_values(|k: &str| k@);
    assert(provider_key_names(provider@) == Some(kv));
    let values = config_values(config, keys.as_slice());
    assert(keys@.map_values(|k: &str| opt_str(spec_get(config@, k@))) =~= kv.map_values(
        |k: Seq<char>| opt_str(spec_get(config@, k)),
    ));
    Ok(first_non_empty(&values))
}

/// A provider's reply, as the agent loop records it.
#[derive(Debug)]
pub struct LlmResponse {
    pub content: Json,
    pub stop_reason: String,
    pub input_tokens: i64,
    pub output_tokens: i64,
    pub cache_read_input_tokens: i64,
    pub cache_creation_input_tokens: i64,
}

/// A text block `{"type": "text", "text": text}`.
pub open spec fn text_block(text: Seq<char>) -> JsonV {
    JsonV::Object(seq![("type"@, JsonV::String("text"@)), ("text"@, JsonV::String(text))])
}

/// A mock reply holding one text: it ends the turn, its input is the
/// history's size estimate and its output the text's byte length.
pub open spec fn is_text_response(r: LlmResponse, msgs: Seq<JsonV>, text: Seq<char>) -> bool {
    &&& r.content@ == JsonV::Array(seq![text_block(text)])
    &&& r.stop_reason@ == "end_turn"@
    &&& r.input_tokens == crate::history::history_bytes(msgs)
    &&& r.output_tokens == crate::compaction::utf8_len(text) as i64
    &&& r.cache_read_input_tokens == 0
    &&& r.cache_creation_input_tokens == 0
}

/// The mock's reply holding one text.
pub fn mock_text_response(messages: &Vec<Json>, text: String) -> (res: LlmResponse)
    requires
        crate::history::history_bytes(items_view(messages@)) <= i64::MAX,
    ensures
        is_text_response(res, items_view(messages@), text@),
{
    let n = text.as_str().len();
    let ghost tv = text@;
    let content = crate::json::array1(
        crate::json::object2("type", crate::json::string_value("text"), "text", Json::String(text)),
    );
    LlmResponse {
        content,
        stop_reason: "end_turn".to_string(),
        input_tokens: crate::history::estimate_message_tokens(messages),
        output_tokens: n as i64,
        cache_read_input_tokens: 0,
        cache_creation_input_tokens: 0,
    }
}

/// The tool-use block of the plan step's call at position `index`: its id
/// (`mock-tool-<turn>-<index>` without one), its name (`unknown_tool`
/// without one) and its input (an empty object without one).
pub open spec fn mock_tool_block(call: JsonV, turn: usize, index: int) -> JsonV {
    JsonV::Object(
        seq![
            ("type"@, JsonV::String("tool_use"@)),
            ("id"@, JsonV::String(match opt_str(spec_get(call, "id"@)) {
                Some(i) => i,
                None => "mock-tool-"@ + crate::text::decimal(turn as nat) + "-"@
                    + crate::text::decimal(index as nat),
            })),
            ("name"@, JsonV::String(match opt_str(spec_get(call, "name"@)) {
                Some(n) => n,
                None => "unknown_tool"@,
            })),
            ("input"@, match spec_get(call, "input"@) {
                Some(v) => v,
                None => JsonV::Object(seq![]),
            }),
        ],
    )
}

/// The tool-use blocks of the first `n` calls.
pub open spec fn mock_tool_blocks(calls: Seq<JsonV>, turn: usize, n: int) -> Seq<JsonV>
    decreases n,
{
    if n <= 0 {
        seq![]
    } else {
        mock_tool_blocks(calls, turn, n - 1).push(mock_tool_block(calls[n - 1], turn, n - 1))
    }
}

/// The latest user text, empty without one.
pub open spec fn latest_or_empty(msgs: Seq<JsonV>) -> Seq<char> {
    match spec_latest_user_text(msgs) {
        Some(t) => t,
        None => seq![],
    }
}

/// The blocks a plan step's reply holds: its text (filled in) unless that
/// is empty, then a tool-use block per planned call.
pub open spec fn step_blocks(msgs: Seq<JsonV>, system_prompt: Seq<char>, turn: usize, step: JsonV) -> Seq<JsonV> {
    let text = match opt_str(spec_get(step, "text"@)) {
        Some(t) => {
            let r = spec_mock_template(t, system_prompt, latest_or_empty(msgs));
            if r.len() > 0 {
                seq![text_block(r)]
            } else {
                seq![]
            }
        },
        None => seq![],
    };
    let calls = match crate::json::opt_array(spec_get(step, "tool_calls"@)) {
        Some(cs) => mock_tool_blocks(cs, turn, cs.len() as int),
        None => seq![],
    };
    text + calls
}

/// The final text of a plan step: its `final_text`, else its `text`, else a
/// fixed note (a present `final_text` that is not a string counts as none).
pub open spec fn step_final_text(step: JsonV) -> Seq<char> {
    let t = match spec_get(step, "final_text"@) {
        Some(v) => crate::json::spec_as_str(v),
        None => opt_str(spec_get(step, "text"@)),
    };
    match t {
        Some(t) => t,
        None => "mock provider completed"@,
    }
}

/// The mock's reply to a plan step: a placeholder for a hang step; the
/// step's blocks when it plans tool calls (a tool-use reply whose output is
/// the blocks' JSON length); else its final text, filled in.
pub open spec fn is_step_response(
    r: LlmResponse,
    msgs: Seq<JsonV>,
    system_prompt: Seq<char>,
    turn: usize,
    step: JsonV,
) -> bool {
    if hang_step(step) {
        is_text_response(r, msgs, "mock hang placeholder"@)
    } else {
        let blocks = step_blocks(msgs, system_prompt, turn, step);
        let calls = match crate::json::opt_array(spec_get(step, "tool_calls"@)) {
            Some(cs) => cs.len(),
            None => 0,
        };
        if calls > 0 {
            &&& r.content@ == JsonV::Array(blocks)
            &&& r.stop_reason@ == "tool_use"@
            &&& r.input_tokens == crate::history::history_bytes(msgs)
            &&& r.output_tokens == crate::compaction::utf8_len(
                crate::json_text::serialized_json(JsonV::Array(blocks)),
            ) as i64
            &&& r.cache_read_input_tokens == 0
            &&& r.cache_creation_input_tokens == 0
        } else {
            is_text_response(
                r,
                msgs,
                spec_mock_template(step_final_text(step), system_prompt, latest_or_empty(msgs)),
            )
        }
    }
}

/// The tool-use block of a planned call.
#[verifier::spinoff_prover]
fn make_mock_tool_block(call: &Json, turn: usize, index: usize) -> (res: Json)
    ensures
        res@ == mock_tool_block(call@, turn, index as int),
{
    let id = match call.get_str("id") {
        Some(i) => i.to_string(),
        None => {
            let mut t = String::from_str("mock-tool-");
            t.append(string_from_chars(&crate::text::decimal_chars(turn as u64)).as_str());
            t.append("-");
            t.append(string_from_chars(&crate::text::decimal_chars(index as u64)).as_str());
            t
        },
    };
    let name = match call.get_str("name") {
        Some(n) => n,
        None => "unknown_tool",
    };
    let input = match call.get("input") {
        Some(v) => v.duplicate(),
        None => {
            let none: Vec<(String, Json)> = Vec::new();
            proof {
                crate::json::lemma_members_view_empty(none@);
            }
            Json::Object(none)
        },
    };
    let ghost idv = id@;
    let ghost namev = name@;
    let ghost inv = input@;
    let res = crate::json::object4(
        "type",
        crate::json::string_value("tool_use"),
        "id",
        Json::String(id),
        "name",
        crate::json::string_value(name),
        "input",
        input,
    );
    assert(inv == match spec_get(call@, "input"@) {
        Some(v) => v,
        None => JsonV::Object(seq![]),
    });
    assert(res@->Object_0 =~= mock_tool_block(call@, turn, index as int)->Object_0);
    res
}

/// The mock's reply to one step of its plan.
pub fn build_mock_step_response(
    messages: &Vec<Json>,
    assembled_system_prompt: &str,
    assistant_turns: usize,
    step: &Json,
) -> (res: Result<LlmResponse, String>)
    requires
        crate::history::history_bytes(items_view(messages@)) <= i64::MAX,
    ensures
        res matches Ok(r) && is_step_response(
            r,
            items_view(messages@),
            assembled_system_prompt@,
            assistant_turns,
            step@,
        ),
{
    if is_hang_step(step) {
        return Ok(mock_text_response(messages, "mock hang placeholder".to_string()));
    }
    let latest = match latest_user_text(messages) {
        Some(t) => t,
        None => String::new(),
    };
    let mut content: Vec<Json> = Vec::new();
    proof {
        crate::json::lemma_items_view_empty(content@);
    }
    if let Some(text) = step.get_str("text") {
        let resolved = resolve_mock_template(text, assembled_system_prompt, latest.as_str());
        if !resolved.as_str().is_empty() {
            let block = crate::json::object2(
                "type",
                crate::json::string_value("text"),
                "text",
                Json::String(resolved),
            );
            crate::json::push_item(&mut content, block);
        }
    }
    let ghost text_part = items_view(content@);
    let mut planned: usize = 0;
    if let Some(calls) = step.get_array("tool_calls") {
        let ghost cv = items_view(calls@);
        proof {
            crate::json::lemma_items_view(calls@);
        }
        planned = calls.len();
        let mut index: usize = 0;
        while index < calls.len()
            invariant
                index <= calls@.len(),
                cv == items_view(calls@),
                cv.len() == calls@.len(),
                forall|j: int| 0 <= j < calls@.len() ==> #[trigger] cv[j] == calls@[j]@,
                items_view(content@) == text_part + mock_tool_blocks(cv, assistant_turns, index as int),
            decreases calls@.len() - index,
        {
            crate::json::push_item(&mut content, make_mock_tool_block(&calls[index], assistant_turns, index));
            index += 1;
        }
    }
    let ghost blocks = items_view(content@);
    assert(blocks =~= step_blocks(items_view(messages@), assembled_system_prompt@, assistant_turns, step@));
    if planned > 0 {
        let payload = Json::Array(content);
        let output_len = crate::json_text::to_json_text(&payload).as_str().len() as i64;
        return Ok(LlmResponse {
            content: payload,
            stop_reason: "tool_use".to_string(),
            input_tokens: crate::history::estimate_message_tokens(messages),
            output_tokens: output_len,
            cache_read_input_tokens: 0,
            cache_creation_input_tokens: 0,
        });
    }
    let final_text = match step.get("final_text") {
        Some(v) => v.as_str(),
        None => step.get_str("text"),
    };
    let final_text = match final_text {
        Some(t) => t,
        None => "mock provider completed",
    };
    Ok(mock_text_response(
        messages,
        resolve_mock_template(final_text, assembled_system_prompt, latest.as_str()),
    ))
}

} // verus!
