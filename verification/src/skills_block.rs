//! The skills block of the system prompt: the SKILL.md files a listing
//! names, read into entries, and rendered one per skill name with the most
//! specific scope winning.

use vstd::prelude::*;
use crate::json::{Json, JsonV, spec_get, spec_as_array, spec_entity_field_str, entity_field_str, items_view, lemma_items_view};
use crate::json_text::{parse_json, parsed_json};
use crate::prepare::SkillFile;
use crate::skills::{
    spec_parse_skill_frontmatter, parse_skill_frontmatter, spec_strip_skill_frontmatter,
    strip_skill_frontmatter, spec_normalize_skill_key, normalize_skill_key, spec_skill_name_from_path,
    skill_name_from_path, spec_xml_escape, xml_escape, spec_scope_priority, scope_priority,
};
use crate::history::{text_less, sorted_texts, insert_sorted, sorted_elements, lemma_sorted_elements};
use crate::tools::strings_view;
use crate::text::{str_eq, chars_of};

verus! {

/// A string read by `entity_field_str` under a name or its alternative, or
/// the empty string.
pub open spec fn field2(value: JsonV, key: &'static str, alt: &'static str) -> Seq<char> {
    match spec_entity_field_str(value, seq![key, alt]) {
        Some(s) => s,
        None => seq![],
    }
}

/// Reads a string under a name or its alternative, or the empty string.
fn read_field2(value: &Json, key: &'static str, alt: &'static str) -> (res: String)
    ensures
        res@ == field2(value@, key, alt),
{
    let keys = [key, alt];
    assert(keys@ =~= seq![key, alt]);
    match entity_field_str(value, &keys) {
        Some(s) => s.to_string(),
        None => String::new(),
    }
}

/// A listed file as plain values: id, path, workspace.
pub open spec fn listed_file(item: JsonV) -> (Seq<char>, Seq<char>, Seq<char>) {
    (field2(item, "Id", "entity_id"), field2(item, "Path", "path"), field2(item, "WorkspaceId", "workspace_id"))
}

/// The files of listed items that carry an id, in order.
pub open spec fn listed_files(items: Seq<JsonV>) -> Seq<(Seq<char>, Seq<char>, Seq<char>)>
    decreases items.len(),
{
    if items.len() == 0 {
        seq![]
    } else {
        let prior = listed_files(items.drop_last());
        let f = listed_file(items.last());
        if f.0.len() > 0 {
            prior.push(f)
        } else {
            prior
        }
    }
}

/// The skill files a listing reply names: its `value` items that carry an
/// id, in order; none when the reply is not JSON or has no such list.
pub open spec fn spec_skill_listing(body: Seq<char>) -> Seq<(Seq<char>, Seq<char>, Seq<char>)> {
    match parsed_json(body) {
        Some(v) => match spec_get(v, "value"@) {
            Some(list) => match spec_as_array(list) {
                Some(items) => listed_files(items),
                None => seq![],
            },
            None => seq![],
        },
        None => seq![],
    }
}

/// Skill files as plain values.
pub open spec fn files_view(v: Seq<SkillFile>) -> Seq<(Seq<char>, Seq<char>, Seq<char>)> {
    v.map_values(|f: SkillFile| (f.0@, f.1@, f.2@))
}

/// Reads the SKILL.md files a listing reply names.
pub fn skill_listing(listing_body: &str) -> (res: Vec<SkillFile>)
    ensures
        files_view(res@) == spec_skill_listing(listing_body@),
{
    let mut out: Vec<SkillFile> = Vec::new();
    let parsed = match parse_json(listing_body) {
        Some(v) => v,
        None => {
            assert(files_view(out@) =~= seq![]);
            return out;
        },
    };
    let items = match parsed.get_array("value") {
        Some(items) => items,
        None => {
            assert(files_view(out@) =~= seq![]);
            return out;
        },
    };
    let ghost iv = items_view(items@);
    proof {
        lemma_items_view(items@);
    }
    assert(files_view(out@) =~= listed_files(iv.take(0)));
    let mut i: usize = 0;
    while i < items.len()
        invariant
            i <= items@.len(),
            iv == items_view(items@),
            iv.len() == items@.len(),
            forall|k: int| 0 <= k < items@.len() ==> #[trigger] iv[k] == items@[k]@,
            files_view(out@) == listed_files(iv.take(i as int)),
        decreases items@.len() - i,
    {
        proof {
            assert(iv.take(i + 1).drop_last() =~= iv.take(i as int));
            assert(iv.take(i + 1).last() == iv[i as int]);
        }
        let id = read_field2(&items[i], "Id", "entity_id");
        let path = read_field2(&items[i], "Path", "path");
        let ws = read_field2(&items[i], "WorkspaceId", "workspace_id");
        if chars_of(id.as_str()).len() > 0 {
            let ghost before = files_view(out@);
            let ghost t = (id@, path@, ws@);
            out.push((id, path, ws));
            assert(files_view(out@) =~= before.push(t));
        }
        i += 1;
    }
    assert(iv.take(i as int) =~= iv);
    out
}

/// A listed skill file with what reading it gave: the body of a 200 reply,
/// or nothing when it was not read or the read failed.
pub struct SkillRead {
    pub file_id: String,
    pub path: String,
    pub workspace_id: String,
    pub content: Option<String>,
}

/// A skill entry: its key, scope priority, name, description, path,
/// workspace and body.
pub type EntryV = (Seq<char>, u8, Seq<char>, Seq<char>, Seq<char>, Seq<char>, Seq<char>);

/// Whether a skill file is read for its entry: system skills always are,
/// agent and project skills only when bodies are included.
pub open spec fn read_for_entry(path: Seq<char>, include_bodies: bool) -> bool {
    spec_scope_priority(path) == 2 || include_bodies
}

/// The entry a skill file gives. A file that is read needs a non-empty
/// body; its name comes from its frontmatter (else its path), its
/// description from the frontmatter, and only a system skill keeps its body
/// (without frontmatter). An agent or project skill that is not read is
/// listed by the name its path gives, without description.
pub open spec fn skill_entry(f: SkillRead, include_bodies: bool) -> Option<EntryV> {
    let path = f.path@;
    let prio = spec_scope_priority(path);
    if read_for_entry(path, include_bodies) {
        match f.content {
            Some(c) if c@.len() > 0 => {
                let fm = spec_parse_skill_frontmatter(c@);
                let name = if fm.0.len() == 0 { spec_skill_name_from_path(path) } else { fm.0 };
                Some(
                    (
                        spec_normalize_skill_key(name),
                        prio,
                        name,
                        fm.1,
                        path,
                        f.workspace_id@,
                        if prio == 2 { spec_strip_skill_frontmatter(c@) } else { seq![] },
                    ),
                )
            },
            _ => None,
        }
    } else {
        let name = spec_skill_name_from_path(path);
        Some((spec_normalize_skill_key(name), prio, name, seq![], path, f.workspace_id@, seq![]))
    }
}

/// The entries of the skill files, in order.
pub open spec fn skill_entries(files: Seq<SkillRead>, include_bodies: bool) -> Seq<EntryV>
    decreases files.len(),
{
    if files.len() == 0 {
        seq![]
    } else {
        let prior = skill_entries(files.drop_last(), include_bodies);
        match skill_entry(files.last(), include_bodies) {
            Some(e) => prior.push(e),
            None => prior,
        }
    }
}

/// The entry kept for `key` among the first `n`: the first of those with the
/// best (lowest) scope priority.
pub open spec fn best_for(es: Seq<EntryV>, key: Seq<char>, n: int) -> Option<int>
    decreases n,
{
    if n <= 0 {
        None
    } else {
        let prior = best_for(es, key, n - 1);
        if es[n - 1].0 == key && (match prior {
            Some(b) => es[n - 1].1 < es[b].1,
            None => true,
        }) {
            Some(n - 1)
        } else {
            prior
        }
    }
}

/// The line of an entry: without a body, a self-closing element with name,
/// description, path and workspace; with one, the element wrapping it.
pub open spec fn entry_line(e: EntryV) -> Seq<char> {
    let ws = if e.5.len() == 0 {
        seq![]
    } else {
        " workspace_id=\""@ + spec_xml_escape(e.5) + "\""@
    };
    let head = "  <skill name=\""@ + spec_xml_escape(e.2) + "\" description=\""@ + spec_xml_escape(e.3)
        + "\" path=\""@ + spec_xml_escape(e.4) + "\""@ + ws;
    if e.6.len() == 0 {
        head + " />\n"@
    } else {
        head + ">\n"@ + e.6 + "\n  </skill>\n"@
    }
}

/// The lines for the given keys, in order.
pub open spec fn block_lines(keys: Seq<Seq<char>>, es: Seq<EntryV>) -> Seq<char>
    decreases keys.len(),
{
    if keys.len() == 0 {
        seq![]
    } else {
        block_lines(keys.drop_last(), es) + match best_for(es, keys.last(), es.len() as int) {
            Some(i) => entry_line(es[i]),
            None => seq![],
        }
    }
}

/// The skills block: empty without entries; else, for each skill name
/// (normalized) in name order, the entry with the most specific scope (agent,
/// then project, then system; the first listed among equals), escaped.
pub open spec fn spec_skills_block(files: Seq<SkillRead>, include_bodies: bool) -> Seq<char> {
    let es = skill_entries(files, include_bodies);
    if es.len() == 0 {
        seq![]
    } else {
        "<available_skills>\n"@ + block_lines(sorted_elements(es.map_values(|e: EntryV| e.0).to_set()), es)
            + "</available_skills>"@
    }
}

/// An entry, held as strings.
struct Entry {
    key: String,
    priority: u8,
    name: String,
    description: String,
    path: String,
    workspace_id: String,
    body: String,
}

/// An entry as plain values.
spec fn entry_view(e: Entry) -> EntryV {
    (e.key@, e.priority, e.name@, e.description@, e.path@, e.workspace_id@, e.body@)
}

/// The entry a skill file gives.
fn make_entry(f: &SkillRead, include_bodies: bool) -> (res: Option<Entry>)
    ensures
        match res {
            Some(e) => skill_entry(*f, include_bodies) == Some(entry_view(e)),
            None => skill_entry(*f, include_bodies) is None,
        },
{
    let prio = scope_priority(f.path.as_str());
    if prio == 2 || include_bodies {
        match &f.content {
            Some(c) => {
                if chars_of(c.as_str()).len() == 0 {
                    return None;
                }
                let (fm_name, fm_desc, _) = parse_skill_frontmatter(c.as_str());
                let name = if chars_of(fm_name.as_str()).len() == 0 {
                    skill_name_from_path(f.path.as_str())
                } else {
                    fm_name
                };
                let body = if prio == 2 {
                    strip_skill_frontmatter(c.as_str()).to_string()
                } else {
                    String::new()
                };
                Some(Entry {
                    key: normalize_skill_key(name.as_str()),
                    priority: prio,
                    name,
                    description: fm_desc,
                    path: f.path.clone(),
                    workspace_id: f.workspace_id.clone(),
                    body,
                })
            },
            None => None,
        }
    } else {
        let name = skill_name_from_path(f.path.as_str());
        Some(Entry {
            key: normalize_skill_key(name.as_str()),
            priority: prio,
            name,
            description: String::new(),
            path: f.path.clone(),
            workspace_id: f.workspace_id.clone(),
            body: String::new(),
        })
    }
}

/// The line of one entry.
fn write_entry_line(e: &Entry) -> (res: String)
    ensures
        res@ == entry_line(entry_view(*e)),
{
    let mut out = String::from_str("  <skill name=\"");
    out.append(xml_escape(e.name.as_str()).as_str());
    out.append("\" description=\"");
    out.append(xml_escape(e.description.as_str()).as_str());
    out.append("\" path=\"");
    out.append(xml_escape(e.path.as_str()).as_str());
    out.append("\"");
    if chars_of(e.workspace_id.as_str()).len() > 0 {
        out.append(" workspace_id=\"");
        out.append(xml_escape(e.workspace_id.as_str()).as_str());
        out.append("\"");
    }
    if chars_of(e.body.as_str()).len() == 0 {
        out.append(" />\n");
    } else {
        out.append(">\n");
        out.append(e.body.as_str());
        out.append("\n  </skill>\n");
    }
    out
}

/// Whether a string holds exactly `s`.
fn same_text(a: &String, s: &str) -> (res: bool)
    ensures
        res == (a@ == s@),
{
    str_eq(a.as_str(), s)
}

/// Renders the skills block of the system prompt from the listed skill
/// files and what reading them gave.
pub fn render_skills_block(files: Vec<SkillRead>, include_bodies: bool) -> (res: String)
    ensures
        res@ == spec_skills_block(files@, include_bodies),
{
    let ghost fv = files@;
    let mut entries: Vec<Entry> = Vec::new();
    let mut names: Vec<String> = Vec::new();
    let mut i: usize = 0;
    proof {
        assert(entries@.map_values(|e: Entry| entry_view(e)) =~= skill_entries(fv.take(0), include_bodies));
        assert(strings_view(names@).to_set() =~= Seq::<EntryV>::empty().map_values(|e: EntryV| e.0).to_set());
    }
    while i < files.len()
        invariant
            i <= fv.len(),
            fv == files@,
            entries@.map_values(|e: Entry| entry_view(e)) == skill_entries(fv.take(i as int), include_bodies),
            sorted_texts(strings_view(names@)),
            strings_view(names@).to_set() == skill_entries(fv.take(i as int), include_bodies).map_values(
                |e: EntryV| e.0,
            ).to_set(),
        decreases fv.len() - i,
    {
        proof {
            assert(fv.take(i + 1).drop_last() =~= fv.take(i as int));
            assert(fv.take(i + 1).last() == fv[i as int]);
        }
        let ghost es_before = skill_entries(fv.take(i as int), include_bodies);
        match make_entry(&files[i], include_bodies) {
            Some(e) => {
                let ghost ev = entry_view(e);
                insert_sorted(&mut names, e.key.as_str());
                let ghost before = entries@;
                entries.push(e);
                proof {
                    assert(entries@.map_values(|x: Entry| entry_view(x)) =~= before.map_values(
                        |x: Entry| entry_view(x),
                    ).push(ev));
                    assert(es_before.push(ev).map_values(|x: EntryV| x.0) =~= es_before.map_values(
                        |x: EntryV| x.0,
                    ).push(ev.0));
                    es_before.map_values(|x: EntryV| x.0).lemma_push_to_set_commute(ev.0);
                }
            },
            None => {},
        }
        i += 1;
    }
    assert(fv.take(i as int) =~= fv);
    let ghost es = skill_entries(fv, include_bodies);
    if entries.len() == 0 {
        assert(es.len() == 0);
        return String::new();
    }
    proof {
        lemma_sorted_elements(strings_view(names@));
        assert forall|t: int| 0 <= t < entries@.len() implies #[trigger] entry_view(entries@[t]) == es[t] by {
            assert(entries@.map_values(|x: Entry| entry_view(x))[t] == es[t]);
        }
    }
    let ghost nv = strings_view(names@);
    let mut xml = String::from_str("<available_skills>\n");
    let mut k: usize = 0;
    while k < names.len()
        invariant
            k <= names@.len(),
            nv == strings_view(names@),
            es.len() == entries@.len(),
            forall|t: int| 0 <= t < entries@.len() ==> #[trigger] entry_view(entries@[t]) == es[t],
            xml@ == "<available_skills>\n"@ + block_lines(nv.take(k as int), es),
        decreases names@.len() - k,
    {
        assert(nv.take(k + 1).drop_last() =~= nv.take(k as int));
        let name = names[k].as_str();
        let mut best: Option<usize> = None;
        let mut j: usize = 0;
        while j < entries.len()
            invariant
                j <= entries@.len(),
                es.len() == entries@.len(),
                forall|t: int| 0 <= t < entries@.len() ==> #[trigger] entry_view(entries@[t]) == es[t],
                match best {
                    Some(b) => best_for(es, name@, j as int) == Some(b as int) && b < j,
                    None => best_for(es, name@, j as int) is None,
                },
            decreases entries@.len() - j,
        {
            assert(entry_view(entries@[j as int]) == es[j as int]);
            if same_text(&entries[j].key, name) {
                let better = match best {
                    Some(b) => {
                        assert(entry_view(entries@[b as int]) == es[b as int]);
                        entries[j].priority < entries[b].priority
                    },
                    None => true,
                };
                if better {
                    best = Some(j);
                }
            }
            j += 1;
        }
        match best {
            Some(b) => {
                assert(entry_view(entries@[b as int]) == es[b as int]);
                xml.append(write_entry_line(&entries[b]).as_str());
            },
            None => {},
        }
        assert(xml@ =~= "<available_skills>\n"@ + block_lines(nv.take(k + 1), es));
        k += 1;
    }
    assert(nv.take(k as int) =~= nv);
    xml.append("</available_skills>");
    xml
}

/// The path prefixes searched for skills: the system's, then the project's
/// and the agent's when set.
pub open spec fn spec_skill_prefixes(project_id: Seq<char>, agent_id: Seq<char>) -> Seq<Seq<char>> {
    seq!["/system/skills/"@] + (if project_id.len() > 0 {
        seq!["/projects/"@ + project_id + "/skills/"@]
    } else {
        seq![]
    }) + if agent_id.len() > 0 {
        seq!["/agents/"@ + agent_id + "/skills/"@]
    } else {
        seq![]
    }
}

/// The path prefixes searched for skills.
pub fn skill_prefixes(project_id: &str, agent_id: &str) -> (res: Vec<String>)
    ensures
        strings_view(res@) == spec_skill_prefixes(project_id@, agent_id@),
{
    let mut out: Vec<String> = Vec::new();
    out.push(String::from_str("/system/skills/"));
    let ghost a = strings_view(out@);
    if chars_of(project_id).len() > 0 {
        let mut p = String::from_str("/projects/");
        p.append(project_id);
        p.append("/skills/");
        out.push(p);
    }
    let ghost b = strings_view(out@);
    if chars_of(agent_id).len() > 0 {
        let mut p = String::from_str("/agents/");
        p.append(agent_id);
        p.append("/skills/");
        out.push(p);
    }
    assert(strings_view(out@) =~= spec_skill_prefixes(project_id@, agent_id@));
    out
}

/// The listing query for the SKILL.md files under a prefix.
pub fn skill_listing_url(api: &str, prefix: &str) -> (res: String)
    ensures
        res@ == api@ + "/tdata/Files?$filter=startswith(path,'"@ + prefix@
            + "') and name eq 'SKILL.md' and Status ne 'Archived'"@,
{
    let mut s = api.to_string();
    s.append("/tdata/Files?$filter=startswith(path,'");
    s.append(prefix);
    s.append("') and name eq 'SKILL.md' and Status ne 'Archived'");
    s
}


/// Skills are searched under the system prefix first, then under the
/// project's prefix when there is a project, then under the agent's when
/// there is an agent.
pub proof fn law_skill_prefixes(project_id: Seq<char>, agent_id: Seq<char>)
    ensures
        ({
            let ps = spec_skill_prefixes(project_id, agent_id);
            let proj: int = if project_id.len() > 0 { 1 } else { 0 };
            &&& ps.len() == 1 + proj + (if agent_id.len() > 0 { 1int } else { 0 })
            &&& ps[0] == "/system/skills/"@
            &&& project_id.len() > 0 ==> ps[1] == "/projects/"@ + project_id + "/skills/"@
            &&& agent_id.len() > 0 ==> ps[1 + proj] == "/agents/"@ + agent_id + "/skills/"@
        }),
{
}

} // verus!
