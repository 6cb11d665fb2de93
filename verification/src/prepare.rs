//! The context preparer's view of the tool surface: the `execute` tool and
//! SDK reference it caches with the prepared context (both absent when no
//! tool is enabled), and the index of the skills an agent can load.

use vstd::prelude::*;
use crate::json::{Json, JsonV};
use crate::tools::{
    enabled_tool_set, build_method_listing, has_sandbox_surface, execute_tool,
    execute_tool_definition, sdk_reference_text, spec_method_listing, tool_set, sandbox_surface,
    write_sdk_reference,
};
use crate::skills::{
    spec_normalize_skill_key, spec_skill_name_from_path, spec_xml_escape, spec_scope_priority,
    normalize_skill_key, skill_name_from_path, xml_escape, scope_priority,
};
use crate::history::{text_less, sorted_texts, insert_sorted, sorted_elements, lemma_sorted_elements};
use crate::tools::strings_view;

verus! {

/// The prepared `execute` tool description before the method listing.
pub const PREPARED_TOOL_DESCRIPTION_HEAD: &'static str = "Execute Python code in the Temper REPL. Treat each call as self-contained: normal sessions may reset the Python heap between provider turns, so do not rely on variables or helper definitions from an earlier call.\n\n\
         Available methods:\n\
         ";

/// The prepared `execute` tool description after the method listing.
pub const PREPARED_TOOL_DESCRIPTION_TAIL: &'static str = "\n\n\
         IMPORTANT PYTHON RULES (this is Monty, a restricted Python — NOT standard CPython):\n\
         - No 'import' statements at all (no import json, os, re, typing, sys — NOTHING)\n\
         - `json` is preloaded for `json.dumps(...)` and `json.loads(...)`; use it without importing\n\
         - No enumerate(x, start=N) — use range(len(x)) instead\n\
         - No f-strings with nested quotes — use string concatenation\n\
         - No tuple comparison operators (<, >, etc.)\n\
         - All temper.* calls return pre-parsed dicts/lists — no json.loads() needed\n\
         - No pip packages (no requests, httpx, subprocess, os)\n\
         - Use sandbox.bash() for ALL shell commands when sandbox tools are enabled\n\
         Write complete multi-step scripts. Use simple Python: for/if/while, string concat, list indexing.";

/// The prepared execution-environment rules, between the objects note and the sandbox working directory.
pub const PREPARED_SDK_ENVIRONMENT_RULES: &'static str = "\n\n\
         Constraints (Monty — restricted Python, NOT standard CPython):\n\
         - No 'import' statements at all (no import json, os, re, typing, sys)\n\
         - `json` is preloaded for `json.dumps(...)` and `json.loads(...)`; use it without importing\n\
         - No enumerate(x, start=N) — use range(len(x)) instead\n\
         - No f-strings with nested quotes — use string concatenation\n\
         - No tuple comparison (<, >) — compare individual elements\n\
         - All temper.* calls return pre-parsed dicts/lists — no json.loads() needed\n\
         - No pip packages (no requests, httpx, numpy, pandas, etc.)\n\
         - No network access from Python — use sandbox.bash(\"curl ...\") for HTTP\n\
         - No filesystem access from Python — use sandbox.read/write/edit\n\
         - Treat each execute call as self-contained. Normal sessions may reset the Python heap between provider turns, so do not rely on variables or helper definitions created in an earlier call\n\
         - Persist important artifacts to Temper entities or Files so they survive crashes, handoffs, or later jobs\n\
         - Prefer focused execute scripts that complete a coherent unit of work in one call; avoid splitting tiny dependent snippets across turns\n\
         - If a script starts getting large, persist intermediate results to Temper entities/files and continue in a follow-up execute call with explicit IDs\n\
         - Write substantial code blocks using simple Python: for/if/while, string concat, list indexing\n\
         - Sandbox working directory: ";

/// The prepared entity and memory example.
pub const PREPARED_SDK_ENTITY_EXAMPLE: &'static str = "\n### Entity CRUD + memory\n\
         ```python\n\
         issue = temper.create(\"Issues\", {\"description\": \"Fix login bug\"})\n\
         temper.action(\"Issues\", issue[\"entity_id\"], \"TemperPaw.PM.MoveToTriage\", {})\n\
         temper.save_memory(\"test_results\", \"pytest: 47 passed, 0 failed\", \"project\")\n\
         ```\n";

/// The prepared efficiency section.
pub const PREPARED_SDK_EFFICIENCY: &'static str = "## Efficiency\n\n\
         Batch closely related dependent steps in one execute call, but do not force an entire long-running workflow into one giant script.\n\
         BAD: 5 separate execute calls for 5 one-line operations\n\
         BAD: 1 monolithic execute call that tries to ingest, plan, synthesize, and publish everything at once\n\
         GOOD: 1 focused execute call per coherent chunk of work, with durable IDs/results carried explicitly between calls\n\n\
         Each execute call is an LLM turn. Fewer turns help, but reliability matters more than forcing one oversized script.";

/// The prepared `execute` tool's description.
pub open spec fn prepared_tool_description(tools_enabled: Seq<char>) -> Seq<char> {
    PREPARED_TOOL_DESCRIPTION_HEAD@ + spec_method_listing(tool_set(tools_enabled))
        + PREPARED_TOOL_DESCRIPTION_TAIL@
}

/// The tools cached with the prepared context: none when no tool is
/// enabled, else the single `execute` tool listing the available methods.
pub fn build_tool_definitions(tools_enabled: &str, _sandbox_url: &str, _workdir: &str) -> (res: Vec<Json>)
    ensures
        crate::json::items_view(res@) == (if tool_set(tools_enabled@).is_empty() {
            Seq::<JsonV>::empty()
        } else {
            seq![execute_tool(prepared_tool_description(tools_enabled@))]
        }),
{
    let enabled = enabled_tool_set(tools_enabled);
    let mut out: Vec<Json> = Vec::new();
    proof {
        crate::json::lemma_items_view_empty(out@);
    }
    if enabled.len() == 0 {
        proof {
            assert(tool_set(tools_enabled@) =~= Set::<Seq<char>>::empty());
        }
        return out;
    }
    proof {
        assert(tool_set(tools_enabled@).contains(strings_view(enabled@)[0]));
    }
    let listing = build_method_listing(&enabled);
    let mut description = String::from_str(PREPARED_TOOL_DESCRIPTION_HEAD);
    description.append(listing.as_str());
    description.append(PREPARED_TOOL_DESCRIPTION_TAIL);
    let tool = execute_tool_definition(description);
    let ghost tv = tool@;
    crate::json::push_item(&mut out, tool);
    assert(crate::json::items_view(out@) =~= seq![tv]);
    out
}

/// The prepared SDK reference: empty when no tool is enabled.
pub open spec fn spec_prepared_sdk_reference(
    tools_enabled: Seq<char>,
    sandbox_url: Seq<char>,
    workdir: Seq<char>,
) -> Seq<char> {
    if tool_set(tools_enabled).is_empty() {
        seq![]
    } else {
        sdk_reference_text(
            PREPARED_SDK_ENVIRONMENT_RULES@,
            PREPARED_SDK_ENTITY_EXAMPLE@,
            PREPARED_SDK_EFFICIENCY@,
            sandbox_surface(tool_set(tools_enabled)),
            sandbox_url,
            workdir,
        )
    }
}

/// The SDK reference cached with the prepared context.
pub fn build_sdk_reference(tools_enabled: &str, sandbox_url: &str, workdir: &str) -> (res: String)
    ensures
        res@ == spec_prepared_sdk_reference(tools_enabled@, sandbox_url@, workdir@),
{
    let enabled = enabled_tool_set(tools_enabled);
    if enabled.len() == 0 {
        proof {
            assert(tool_set(tools_enabled@) =~= Set::<Seq<char>>::empty());
        }
        return String::new();
    }
    proof {
        assert(tool_set(tools_enabled@).contains(strings_view(enabled@)[0]));
    }
    let has_sandbox = has_sandbox_surface(&enabled);
    write_sdk_reference(
        PREPARED_SDK_ENVIRONMENT_RULES,
        PREPARED_SDK_ENTITY_EXAMPLE,
        PREPARED_SDK_EFFICIENCY,
        has_sandbox,
        sandbox_url,
        workdir,
    )
}

/// A skill file listed for the index: file id, path, workspace id.
pub type SkillFile = (String, String, String);

/// The key a skill file is known by: its normalized skill name.
pub open spec fn entry_key(e: SkillFile) -> Seq<char> {
    spec_normalize_skill_key(spec_skill_name_from_path(e.1@))
}

/// The entry kept for `key` among the first `n` files: the first of those
/// with the best (lowest) scope priority.
pub open spec fn best_entry(es: Seq<SkillFile>, key: Seq<char>, n: int) -> Option<int>
    decreases n,
{
    if n <= 0 {
        None
    } else {
        let prior = best_entry(es, key, n - 1);
        if entry_key(es[n - 1]) == key && (match prior {
            Some(b) => spec_scope_priority(es[n - 1].1@) < spec_scope_priority(es[b].1@),
            None => true,
        }) {
            Some(n - 1)
        } else {
            prior
        }
    }
}

/// The keys of the skill files.
pub open spec fn skill_keys(es: Seq<SkillFile>) -> Set<Seq<char>> {
    es.map_values(|e: SkillFile| entry_key(e)).to_set()
}

/// The index line of a skill file.
pub open spec fn skill_line(e: SkillFile) -> Seq<char> {
    "  <skill name=\""@ + spec_xml_escape(spec_skill_name_from_path(e.1@)) + "\" path=\""@
        + spec_xml_escape(e.1@) + "\""@ + (if e.2@.len() == 0 {
        seq![]
    } else {
        " workspace_id=\""@ + spec_xml_escape(e.2@) + "\""@
    }) + " />\n"@
}

/// The index lines for the given keys, in order.
pub open spec fn index_lines(keys: Seq<Seq<char>>, es: Seq<SkillFile>) -> Seq<char>
    decreases keys.len(),
{
    if keys.len() == 0 {
        seq![]
    } else {
        index_lines(keys.drop_last(), es) + match best_entry(es, keys.last(), es.len() as int) {
            Some(i) => skill_line(es[i]),
            None => seq![],
        }
    }
}

/// The skill index: for each skill name (normalized), in name order, the
/// file with the best scope (agent, then project, then system; the first
/// listed among equals), by name, path and workspace only — no body, no
/// file id.
pub open spec fn spec_skill_index(es: Seq<SkillFile>) -> Seq<char> {
    "<available_skills mode=\"index\">\n"@ + index_lines(sorted_elements(skill_keys(es)), es)
        + "</available_skills>"@
}

/// The index line of one skill file.
fn write_skill_line(e: &SkillFile) -> (res: String)
    ensures
        res@ == skill_line(*e),
{
    let name = skill_name_from_path(e.1.as_str());
    let mut out = String::from_str("  <skill name=\"");
    out.append(xml_escape(name.as_str()).as_str());
    out.append("\" path=\"");
    out.append(xml_escape(e.1.as_str()).as_str());
    out.append("\"");
    if !e.2.as_str().is_empty() {
        out.append(" workspace_id=\"");
        out.append(xml_escape(e.2.as_str()).as_str());
        out.append("\"");
    }
    out.append(" />\n");
    out
}

/// Renders the index of the skills that can be loaded, one line per skill
/// name.
pub fn render_skill_index(file_entries: Vec<SkillFile>) -> (res: String)
    ensures
        res@ == spec_skill_index(file_entries@),
{
    let es = &file_entries;
    let ghost ev = es@;
    let mut keys: Vec<String> = Vec::new();
    let mut ranks: Vec<u8> = Vec::new();
    let mut names: Vec<String> = Vec::new();
    proof {
        assert(ev.take(0).map_values(|e: SkillFile| entry_key(e)).to_set() =~= strings_view(names@).to_set());
    }
    let mut i: usize = 0;
    while i < es.len()
        invariant
            i <= ev.len(),
            ev == es@,
            keys@.len() == i,
            ranks@.len() == i,
            forall|j: int| 0 <= j < i ==> #[trigger] keys@[j]@ == entry_key(ev[j]),
            forall|j: int| 0 <= j < i ==> #[trigger] ranks@[j] == spec_scope_priority(ev[j].1@),
            sorted_texts(strings_view(names@)),
            strings_view(names@).to_set() == ev.take(i as int).map_values(|e: SkillFile| entry_key(e)).to_set(),
        decreases ev.len() - i,
    {
        let key = normalize_skill_key(skill_name_from_path(es[i].1.as_str()).as_str());
        let ghost before = ev.take(i as int).map_values(|e: SkillFile| entry_key(e));
        insert_sorted(&mut names, key.as_str());
        proof {
            assert(ev.take(i + 1).map_values(|e: SkillFile| entry_key(e)) =~= before.push(key@));
            before.lemma_push_to_set_commute(key@);
        }
        keys.push(key);
        ranks.push(scope_priority(es[i].1.as_str()));
        i += 1;
    }
    assert(ev.take(i as int) =~= ev);
    proof {
        lemma_sorted_elements(strings_view(names@));
    }
    let ghost nv = strings_view(names@);
    let mut xml = String::from_str("<available_skills mode=\"index\">\n");
    let mut k: usize = 0;
    while k < names.len()
        invariant
            k <= names@.len(),
            nv == strings_view(names@),
            ev == es@,
            keys@.len() == ev.len(),
            ranks@.len() == ev.len(),
            forall|j: int| 0 <= j < ev.len() ==> #[trigger] keys@[j]@ == entry_key(ev[j]),
            forall|j: int| 0 <= j < ev.len() ==> #[trigger] ranks@[j] == spec_scope_priority(ev[j].1@),
            xml@ == "<available_skills mode=\"index\">\n"@ + index_lines(nv.take(k as int), ev),
        decreases names@.len() - k,
    {
        assert(nv.take(k + 1).drop_last() =~= nv.take(k as int));
        let name = names[k].as_str();
        let mut best: Option<usize> = None;
        let mut j: usize = 0;
        while j < keys.len()
            invariant
                j <= ev.len(),
                ev == es@,
                keys@.len() == ev.len(),
                ranks@.len() == ev.len(),
                forall|t: int| 0 <= t < ev.len() ==> #[trigger] keys@[t]@ == entry_key(ev[t]),
                forall|t: int| 0 <= t < ev.len() ==> #[trigger] ranks@[t] == spec_scope_priority(ev[t].1@),
                match best {
                    Some(b) => best_entry(ev, name@, j as int) == Some(b as int) && b < j,
                    None => best_entry(ev, name@, j as int) is None,
                },
            decreases ev.len() - j,
        {
            if str_eq_strings(&keys[j], name) {
                let better = match best {
                    Some(b) => ranks[j] < ranks[b],
                    None => true,
                };
                if better {
                    best = Some(j);
                }
            }
            j += 1;
        }
        let ghost before = xml@;
        match best {
            Some(b) => {
                xml.append(write_skill_line(&es[b]).as_str());
            },
            None => {},
        }
        assert(xml@ =~= "<available_skills mode=\"index\">\n"@ + index_lines(nv.take(k + 1), ev));
        k += 1;
    }
    assert(nv.take(k as int) =~= nv);
    xml.append("</available_skills>");
    xml
}

/// Whether a string holds exactly `s`.
fn str_eq_strings(a: &String, s: &str) -> (res: bool)
    ensures
        res == (a@ == s@),
{
    crate::text::str_eq(a.as_str(), s)
}

/// What reading an entry's file gave: its text, or the read's error.
pub open spec fn read_view(r: Result<String, String>) -> Result<Seq<char>, Seq<char>> {
    match r {
        Ok(t) => Ok(t@),
        Err(e) => Err(e@),
    }
}

/// The message one context reference contributes to the prepared context,
/// given what reading its file gave (only consulted when the entry is
/// stored in a file): a compaction gives its summary (read, else inline)
/// as a user message unless empty; a message or steering entry stored in a
/// file gives its text (as JSON where it is JSON), or, when that is empty,
/// its inline content, and a failed read fails the whole context; one not
/// stored in a file gives its inline content; a header gives nothing.
pub open spec fn prepared_ref_message(
    r: crate::compaction::ContextRef,
    read: Result<Seq<char>, Seq<char>>,
) -> Result<Option<JsonV>, Seq<char>> {
    match r.entry_type {
        crate::compaction::EntryType::Compaction => Ok(
            crate::compaction::ref_message(
                r,
                match read {
                    Ok(t) => Some(t),
                    Err(_) => None,
                },
            ),
        ),
        crate::compaction::EntryType::Message | crate::compaction::EntryType::Steering => {
            let inline = match r.inline_content {
                Some(c) => Some(crate::compaction::role_message(r.role@, c@)),
                None => None,
            };
            if crate::compaction::has_file(r) {
                match read {
                    Err(e) => Err(e),
                    Ok(raw) => if raw.len() == 0 {
                        Ok(inline)
                    } else {
                        Ok(
                            Some(
                                crate::compaction::role_message(
                                    r.role@,
                                    match crate::json_text::parsed_json(raw) {
                                        Some(v) => v,
                                        None => JsonV::String(raw),
                                    },
                                ),
                            ),
                        )
                    },
                }
            } else {
                Ok(inline)
            }
        },
        crate::compaction::EntryType::Header => Ok(None),
    }
}

/// The messages of the first `n` context references, or the first failed
/// read among them.
pub open spec fn prepared_refs(
    refs: Seq<crate::compaction::ContextRef>,
    reads: Seq<Result<Seq<char>, Seq<char>>>,
    n: int,
) -> Result<Seq<JsonV>, Seq<char>>
    decreases n,
{
    if n <= 0 {
        Ok(seq![])
    } else {
        match prepared_refs(refs, reads, n - 1) {
            Err(e) => Err(e),
            Ok(ms) => match prepared_ref_message(refs[n - 1], reads[n - 1]) {
                Err(e) => Err(e),
                Ok(Some(m)) => Ok(ms.push(m)),
                Ok(None) => Ok(ms),
            },
        }
    }
}

/// The rendered messages as plain values.
pub open spec fn rendered_view(r: Result<Vec<Json>, String>) -> Result<Seq<JsonV>, Seq<char>> {
    match r {
        Ok(v) => Ok(crate::json::items_view(v@)),
        Err(e) => Err(e@),
    }
}

/// The message of one context reference, or the failed read.
fn render_prepared_ref(
    r: &crate::compaction::ContextRef,
    read: &Result<String, String>,
) -> (res: Result<Option<Json>, String>)
    ensures
        match res {
            Ok(m) => prepared_ref_message(*r, read_view(*read)) == Ok::<Option<JsonV>, Seq<char>>(
                crate::json::opt_json_owned(m),
            ),
            Err(e) => prepared_ref_message(*r, read_view(*read)) == Err::<Option<JsonV>, Seq<char>>(e@),
        },
{
    let stored = r.content_file_id.is_some() || r.content_file_version_id.is_some();
    match r.entry_type {
        crate::compaction::EntryType::Compaction => {
            let inline = match &r.inline_summary {
                Some(t) => t.clone(),
                None => String::new(),
            };
            let summary = if stored {
                match read {
                    Ok(t) => t.clone(),
                    Err(_) => inline,
                }
            } else {
                inline
            };
            if summary.as_str().is_empty() {
                Ok(None)
            } else {
                let mut text = String::from_str("[Previous conversation summary]\n");
                text.append(summary.as_str());
                Ok(Some(crate::json::object2("role", crate::json::string_value("user"), "content", Json::String(text))))
            }
        },
        crate::compaction::EntryType::Message | crate::compaction::EntryType::Steering => {
            if stored {
                match read {
                    Err(e) => {
                        return Err(e.clone());
                    },
                    Ok(raw) => {
                        if !raw.as_str().is_empty() {
                            let content = match crate::json_text::parse_json(raw.as_str()) {
                                Some(v) => v,
                                None => Json::String(raw.clone()),
                            };
                            return Ok(Some(crate::json::object2(
                                "role",
                                crate::json::string_value(r.role.as_str()),
                                "content",
                                content,
                            )));
                        }
                    },
                }
            }
            match &r.inline_content {
                Some(c) => Ok(Some(crate::json::object2(
                    "role",
                    crate::json::string_value(r.role.as_str()),
                    "content",
                    c.duplicate(),
                ))),
                None => Ok(None),
            }
        },
        crate::compaction::EntryType::Header => Ok(None),
    }
}

/// Renders the context references of the prepared context into chat
/// messages. `reads[i]` is what reading the file of `refs[i]` gave; a
/// failed read of a message's file fails the whole context with its error.
pub fn render_context_refs(
    refs: &Vec<crate::compaction::ContextRef>,
    reads: &Vec<Result<String, String>>,
) -> (res: Result<Vec<Json>, String>)
    requires
        reads@.len() == refs@.len(),
    ensures
        rendered_view(res) == prepared_refs(
            refs@,
            reads@.map_values(|r: Result<String, String>| read_view(r)),
            refs@.len() as int,
        ),
{
    let ghost rv = reads@.map_values(|r: Result<String, String>| read_view(r));
    let mut messages: Vec<Json> = Vec::new();
    proof {
        crate::json::lemma_items_view_empty(messages@);
    }
    let mut i: usize = 0;
    while i < refs.len()
        invariant
            i <= refs@.len(),
            reads@.len() == refs@.len(),
            rv == reads@.map_values(|r: Result<String, String>| read_view(r)),
            prepared_refs(refs@, rv, i as int) == Ok::<Seq<JsonV>, Seq<char>>(
                crate::json::items_view(messages@),
            ),
        decreases refs@.len() - i,
    {
        assert(rv[i as int] == read_view(reads@[i as int]));
        match render_prepared_ref(&refs[i], &reads[i]) {
            Err(e) => {
                proof {
                    lemma_prepared_refs_error_stays(refs@, rv, i as int + 1, refs@.len() as int, e@);
                }
                return Err(e);
            },
            Ok(Some(m)) => {
                crate::json::push_item(&mut messages, m);
            },
            Ok(None) => {},
        }
        i += 1;
    }
    Ok(messages)
}

/// Once a read fails, the rendering stays failed with that error.
pub proof fn lemma_prepared_refs_error_stays(
    refs: Seq<crate::compaction::ContextRef>,
    reads: Seq<Result<Seq<char>, Seq<char>>>,
    i: int,
    n: int,
    e: Seq<char>,
)
    requires
        0 < i <= n,
        prepared_refs(refs, reads, i) == Err::<Seq<JsonV>, Seq<char>>(e),
    ensures
        prepared_refs(refs, reads, n) == Err::<Seq<JsonV>, Seq<char>>(e),
    decreases n - i,
{
    if i < n {
        lemma_prepared_refs_error_stays(refs, reads, i, n - 1, e);
    }
}

} // verus!
