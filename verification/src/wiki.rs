//! Wiki jobs: the task message a curator session receives for each kind of
//! job, and the settings the session is configured with.

use vstd::prelude::*;
use crate::json::{Json, JsonV, spec_get, opt_str, string_value, push_member, members_view};
use crate::text::str_eq;

verus! {

/// The message of a source_search job.
pub open spec fn spec_source_search_message(input: Seq<char>, persona_id: Seq<char>, job_id: Seq<char>) -> Seq<char> {
    "You are executing a WikiJob (source_search) for persona '"@
        + persona_id
        + "'.\nJob ID: "@
        + job_id
        + "\n\n## Your Task\n\nSearch the web for high-quality sources matching the scope below, fetch their content,\nstore it in paw-fs, and create WikiSource entities for each source you find.\n\n## Search Scope\n\n"@
        + input
        + "\n\n## Python Sandbox Rules\n\nWhen writing Python code in any tool:\n- Do NOT use any `import` statements — all functions are available in the global scope\n- Do NOT use `enumerate()` with keyword arguments (e.g., `enumerate(items, start=1)` is forbidden; use `enumerate(items)` and add the offset manually)\n- Available built-in functions: `temper.web_search(query)`, `temper.web_fetch(url)`, `temper.write(path, content)`, `temper.read(path)`\n\n## Workflow\n\n1. **Search**: Use `temper.web_search()` with varied queries derived from the search scope\n2. **Fetch**: Use `temper.web_fetch()` to retrieve full content from promising URLs\n3. **Store**: Use `temper.write()` to save raw content to paw-fs at paths like `wiki/sources/{source_slug}.md`\n4. **Create WikiSource**: For each stored source, create a WikiSource entity:\n   ```\n   temper.create(\"WikiSources\", {\n     \"PersonaId\": \""@
        + persona_id
        + "\",\n     \"Title\": \"<source title>\",\n     \"SourceType\": \"<article|reference|tutorial|documentation>\",\n     \"SourceUrl\": \"<original URL>\",\n     \"FileId\": \"<file_id from temper.write()>\",\n     \"Metadata\": \"<JSON string with author, date, word_count, etc.>\"\n   })\n   ```\n5. **Index each source**: After creating each WikiSource, dispatch the Index action:\n   ```\n   temper.action(\"WikiSources\", \"<source_entity_id>\", \"Index\", {\n     \"extracted_topics\": \"<JSON array of topic strings>\"\n   })\n   ```\n6. **Update job progress**: Periodically dispatch RecordProgress on the WikiJob:\n   ```\n   temper.action(\"WikiJobs\", \""@
        + job_id
        + "\", \"RecordProgress\", {\n     \"progress_log\": \"<JSON array of progress entries>\"\n   })\n   ```\n7. **Complete**: When done, dispatch Complete on the WikiJob:\n   ```\n   temper.action(\"WikiJobs\", \""@
        + job_id
        + "\", \"Complete\", {\n     \"output\": \"<JSON summary: sources_found, sources_indexed, topics_discovered>\"\n   })\n   ```\n8. **Trigger synthesis**: After completing sourcing, create a synthesis WikiJob so pages get built automatically:\n   ```\n   synth = temper.create(\"WikiJobs\", {})\n   temper.action(\"WikiJobs\", synth[\"entity_id\"], \"Configure\", {\n     \"job_type\": \"synthesize\",\n     \"persona_id\": \""@
        + persona_id
        + "\",\n     \"input\": '{\"task\": \"Synthesize wiki pages from all gathered sources\"}'\n   })\n   temper.action(\"WikiJobs\", synth[\"entity_id\"], \"Submit\", {})\n   ```\n   This will reactively spawn a new Curator session for synthesis.\n\n## Quality Standards\n\n- Prefer authoritative sources (academic, official documentation, established references)\n- Minimum 5 sources, aim for 10-20 for comprehensive coverage\n- Extract topics from each source for later synthesis cross-referencing\n- If a fetch fails, log it and continue with other sources\n"@
}

/// The task message that sends the curator to gather sources for a persona.
pub fn build_source_search_message(input: &str, persona_id: &str, job_id: &str) -> (res: String)
    ensures
        res@ == spec_source_search_message(input@, persona_id@, job_id@),
{
    let mut out = String::new();
    out.append("You are executing a WikiJob (source_search) for persona '");
    out.append(persona_id);
    out.append("'.\nJob ID: ");
    out.append(job_id);
    out.append("\n\n## Your Task\n\nSearch the web for high-quality sources matching the scope below, fetch their content,\nstore it in paw-fs, and create WikiSource entities for each source you find.\n\n## Search Scope\n\n");
    out.append(input);
    out.append("\n\n## Python Sandbox Rules\n\nWhen writing Python code in any tool:\n- Do NOT use any `import` statements — all functions are available in the global scope\n- Do NOT use `enumerate()` with keyword arguments (e.g., `enumerate(items, start=1)` is forbidden; use `enumerate(items)` and add the offset manually)\n- Available built-in functions: `temper.web_search(query)`, `temper.web_fetch(url)`, `temper.write(path, content)`, `temper.read(path)`\n\n## Workflow\n\n1. **Search**: Use `temper.web_search()` with varied queries derived from the search scope\n2. **Fetch**: Use `temper.web_fetch()` to retrieve full content from promising URLs\n3. **Store**: Use `temper.write()` to save raw content to paw-fs at paths like `wiki/sources/{source_slug}.md`\n4. **Create WikiSource**: For each stored source, create a WikiSource entity:\n   ```\n   temper.create(\"WikiSources\", {\n     \"PersonaId\": \"");
    out.append(persona_id);
    out.append("\",\n     \"Title\": \"<source title>\",\n     \"SourceType\": \"<article|reference|tutorial|documentation>\",\n     \"SourceUrl\": \"<original URL>\",\n     \"FileId\": \"<file_id from temper.write()>\",\n     \"Metadata\": \"<JSON string with author, date, word_count, etc.>\"\n   })\n   ```\n5. **Index each source**: After creating each WikiSource, dispatch the Index action:\n   ```\n   temper.action(\"WikiSources\", \"<source_entity_id>\", \"Index\", {\n     \"extracted_topics\": \"<JSON array of topic strings>\"\n   })\n   ```\n6. **Update job progress**: Periodically dispatch RecordProgress on the WikiJob:\n   ```\n   temper.action(\"WikiJobs\", \"");
    out.append(job_id);
    out.append("\", \"RecordProgress\", {\n     \"progress_log\": \"<JSON array of progress entries>\"\n   })\n   ```\n7. **Complete**: When done, dispatch Complete on the WikiJob:\n   ```\n   temper.action(\"WikiJobs\", \"");
    out.append(job_id);
    out.append("\", \"Complete\", {\n     \"output\": \"<JSON summary: sources_found, sources_indexed, topics_discovered>\"\n   })\n   ```\n8. **Trigger synthesis**: After completing sourcing, create a synthesis WikiJob so pages get built automatically:\n   ```\n   synth = temper.create(\"WikiJobs\", {})\n   temper.action(\"WikiJobs\", synth[\"entity_id\"], \"Configure\", {\n     \"job_type\": \"synthesize\",\n     \"persona_id\": \"");
    out.append(persona_id);
    out.append("\",\n     \"input\": '{\"task\": \"Synthesize wiki pages from all gathered sources\"}'\n   })\n   temper.action(\"WikiJobs\", synth[\"entity_id\"], \"Submit\", {})\n   ```\n   This will reactively spawn a new Curator session for synthesis.\n\n## Quality Standards\n\n- Prefer authoritative sources (academic, official documentation, established references)\n- Minimum 5 sources, aim for 10-20 for comprehensive coverage\n- Extract topics from each source for later synthesis cross-referencing\n- If a fetch fails, log it and continue with other sources\n");
    proof {
        assert(out@ =~= spec_source_search_message(input@, persona_id@, job_id@));
    }
    out
}

/// The message of a synthesize job.
pub open spec fn spec_synthesize_message(persona_id: Seq<char>, job_id: Seq<char>) -> Seq<char> {
    "You are executing a WikiJob (synthesize) for persona '"@
        + persona_id
        + "'.\nJob ID: "@
        + job_id
        + "\n\n## Your Task\n\nRead all Indexed WikiSources for this persona, synthesize the knowledge into\nwell-structured wiki pages, store page content in paw-fs, and create WikiPage entities.\n\n## Python Sandbox Rules\n\nWhen writing Python code in any tool:\n- Do NOT use any `import` statements — all functions are available in the global scope\n- Do NOT use `enumerate()` with keyword arguments (e.g., `enumerate(items, start=1)` is forbidden; use `enumerate(items)` and add the offset manually)\n- Available built-in functions: `temper.list(entity_set, filter)`, `temper.get(entity_set, id)`, `temper.create(entity_set, fields)`, `temper.action(entity_set, id, action, params)`, `temper.write(path, content)`, `temper.read(path)`\n\n## Workflow\n\n1. **List sources**: Retrieve all Indexed WikiSources for this persona:\n   ```\n   temper.list(\"WikiSources\", \"$filter=PersonaId eq '"@
        + persona_id
        + "' and Status eq 'Indexed'\")\n   ```\n2. **Read content**: For each source, use `temper.read()` to load the stored content via its FileId\n3. **Plan pages**: Identify logical topics/themes that span multiple sources. Plan a coherent page structure.\n4. **Write pages**: For each planned page, synthesize content from relevant sources and write it:\n   ```\n   temper.write(\"/wiki/pages/{page_slug}.md\", content)\n   ```\n5. **Create WikiPage**: For each page:\n   ```\n   temper.create(\"WikiPages\", {\n     \"PersonaId\": \""@
        + persona_id
        + "\",\n     \"Slug\": \"<page-slug>\",\n     \"Title\": \"<Page Title>\",\n     \"Category\": \"<grammar|vocabulary|culture|usage|reference>\",\n     \"FileId\": \"<file_id from temper.write()>\",\n     \"Summary\": \"<2-3 sentence summary>\",\n     \"CrossReferences\": \"<JSON array of related page slugs>\",\n     \"SourceIds\": \"<JSON array of WikiSource entity IDs used>\",\n     \"Tags\": \"<JSON array of topic tags>\",\n     \"DifficultyRange\": \"<JSON: {\\\"min\\\": \\\"N5\\\", \\\"max\\\": \\\"N3\\\"}>\"\n   })\n   ```\n6. **Publish each page**: Dispatch Publish on each WikiPage:\n   ```\n   temper.action(\"WikiPages\", \"<page_entity_id>\", \"Publish\", {})\n   ```\n7. **Update job progress**: Periodically dispatch RecordProgress on the WikiJob\n8. **Complete**: When done, dispatch Complete on the WikiJob:\n   ```\n   temper.action(\"WikiJobs\", \""@
        + job_id
        + "\", \"Complete\", {\n     \"output\": \"<JSON summary: pages_created, topics_covered, source_coverage>\"\n   })\n   ```\n\n## Markdown Formatting Standards\n\nAll wiki page content MUST follow these conventions:\n- **Headers**: Use `##` for main sections, `###` for subsections\n- **Japanese terms**: Always **bold** Japanese text, followed by reading in parentheses: **食べる** (taberu)\n- **Examples**: Use blockquotes with Japanese, romanization, and translation:\n  > **日本語を勉強しています。**\n  > *Nihongo o benkyou shite imasu.*\n  > \"I am studying Japanese.\"\n- **Tables**: Use for conjugation patterns, comparison charts, vocabulary lists\n- **Wikilinks**: Use `[[page-slug]]` syntax for cross-references to other wiki pages\n- **Source attribution**: Include a \"Sources\" section at the bottom referencing WikiSource IDs\n\n## Quality Standards\n\n- Each page should synthesize information from multiple sources\n- Aim for comprehensive but focused pages (1000-3000 words)\n- Include practical examples for every concept\n- Cross-reference related pages extensively\n- Maintain consistent terminology across all pages\n"@
}

/// The task message that has the curator write wiki pages from the sources.
pub fn build_synthesize_message(persona_id: &str, job_id: &str) -> (res: String)
    ensures
        res@ == spec_synthesize_message(persona_id@, job_id@),
{
    let mut out = String::new();
    out.append("You are executing a WikiJob (synthesize) for persona '");
    out.append(persona_id);
    out.append("'.\nJob ID: ");
    out.append(job_id);
    out.append("\n\n## Your Task\n\nRead all Indexed WikiSources for this persona, synthesize the knowledge into\nwell-structured wiki pages, store page content in paw-fs, and create WikiPage entities.\n\n## Python Sandbox Rules\n\nWhen writing Python code in any tool:\n- Do NOT use any `import` statements — all functions are available in the global scope\n- Do NOT use `enumerate()` with keyword arguments (e.g., `enumerate(items, start=1)` is forbidden; use `enumerate(items)` and add the offset manually)\n- Available built-in functions: `temper.list(entity_set, filter)`, `temper.get(entity_set, id)`, `temper.create(entity_set, fields)`, `temper.action(entity_set, id, action, params)`, `temper.write(path, content)`, `temper.read(path)`\n\n## Workflow\n\n1. **List sources**: Retrieve all Indexed WikiSources for this persona:\n   ```\n   temper.list(\"WikiSources\", \"$filter=PersonaId eq '");
    out.append(persona_id);
    out.append("' and Status eq 'Indexed'\")\n   ```\n2. **Read content**: For each source, use `temper.read()` to load the stored content via its FileId\n3. **Plan pages**: Identify logical topics/themes that span multiple sources. Plan a coherent page structure.\n4. **Write pages**: For each planned page, synthesize content from relevant sources and write it:\n   ```\n   temper.write(\"/wiki/pages/{page_slug}.md\", content)\n   ```\n5. **Create WikiPage**: For each page:\n   ```\n   temper.create(\"WikiPages\", {\n     \"PersonaId\": \"");
    out.append(persona_id);
    out.append("\",\n     \"Slug\": \"<page-slug>\",\n     \"Title\": \"<Page Title>\",\n     \"Category\": \"<grammar|vocabulary|culture|usage|reference>\",\n     \"FileId\": \"<file_id from temper.write()>\",\n     \"Summary\": \"<2-3 sentence summary>\",\n     \"CrossReferences\": \"<JSON array of related page slugs>\",\n     \"SourceIds\": \"<JSON array of WikiSource entity IDs used>\",\n     \"Tags\": \"<JSON array of topic tags>\",\n     \"DifficultyRange\": \"<JSON: {\\\"min\\\": \\\"N5\\\", \\\"max\\\": \\\"N3\\\"}>\"\n   })\n   ```\n6. **Publish each page**: Dispatch Publish on each WikiPage:\n   ```\n   temper.action(\"WikiPages\", \"<page_entity_id>\", \"Publish\", {})\n   ```\n7. **Update job progress**: Periodically dispatch RecordProgress on the WikiJob\n8. **Complete**: When done, dispatch Complete on the WikiJob:\n   ```\n   temper.action(\"WikiJobs\", \"");
    out.append(job_id);
    out.append("\", \"Complete\", {\n     \"output\": \"<JSON summary: pages_created, topics_covered, source_coverage>\"\n   })\n   ```\n\n## Markdown Formatting Standards\n\nAll wiki page content MUST follow these conventions:\n- **Headers**: Use `##` for main sections, `###` for subsections\n- **Japanese terms**: Always **bold** Japanese text, followed by reading in parentheses: **食べる** (taberu)\n- **Examples**: Use blockquotes with Japanese, romanization, and translation:\n  > **日本語を勉強しています。**\n  > *Nihongo o benkyou shite imasu.*\n  > \"I am studying Japanese.\"\n- **Tables**: Use for conjugation patterns, comparison charts, vocabulary lists\n- **Wikilinks**: Use `[[page-slug]]` syntax for cross-references to other wiki pages\n- **Source attribution**: Include a \"Sources\" section at the bottom referencing WikiSource IDs\n\n## Quality Standards\n\n- Each page should synthesize information from multiple sources\n- Aim for comprehensive but focused pages (1000-3000 words)\n- Include practical examples for every concept\n- Cross-reference related pages extensively\n- Maintain consistent terminology across all pages\n");
    proof {
        assert(out@ =~= spec_synthesize_message(persona_id@, job_id@));
    }
    out
}

/// The tools a curator session gets unless the job names others.
pub const DEFAULT_CURATOR_TOOLS: &'static str = "temper_get,temper_list,temper_create,temper_action,temper_write,temper_read,temper_web_search,temper_web_fetch";

/// A wiki job's settings, as read from its fields.
pub struct WikiJob {
    pub job_type: String,
    pub input: String,
    pub persona_id: String,
    pub soul_id: String,
    pub model: String,
    pub provider: String,
    pub tools_enabled: String,
    pub max_turns: String,
}

/// A string field, or its default.
pub open spec fn field_or(fields: JsonV, key: Seq<char>, default_value: Seq<char>) -> Seq<char> {
    match opt_str(spec_get(fields, key)) {
        Some(s) => s,
        None => default_value,
    }
}

/// The settings a wiki job's fields give, each field with its default.
pub open spec fn job_from(fields: JsonV, job: WikiJob) -> bool {
    &&& job.job_type@ == field_or(fields, "job_type"@, ""@)
    &&& job.input@ == field_or(fields, "input"@, "{}"@)
    &&& job.persona_id@ == field_or(fields, "persona_id"@, ""@)
    &&& job.soul_id@ == field_or(fields, "soul_id"@, "app-soul-curator"@)
    &&& job.model@ == field_or(fields, "model"@, "gpt-5"@)
    &&& job.provider@ == field_or(fields, "provider"@, "openai"@)
    &&& job.tools_enabled@ == field_or(fields, "tools_enabled"@, DEFAULT_CURATOR_TOOLS@)
    &&& job.max_turns@ == field_or(fields, "max_turns"@, "250"@)
}

/// A string field, or its default.
fn read_or(fields: &Json, key: &str, default_value: &str) -> (res: String)
    ensures
        res@ == field_or(fields@, key@, default_value@),
{
    match fields.get_str(key) {
        Some(s) => s.to_string(),
        None => default_value.to_string(),
    }
}

/// Reads a wiki job's settings from its fields.
pub fn read_wiki_job(fields: &Json) -> (res: WikiJob)
    ensures
        job_from(fields@, res),
{
    WikiJob {
        job_type: read_or(fields, "job_type", ""),
        input: read_or(fields, "input", "{}"),
        persona_id: read_or(fields, "persona_id", ""),
        soul_id: read_or(fields, "soul_id", "app-soul-curator"),
        model: read_or(fields, "model", "gpt-5"),
        provider: read_or(fields, "provider", "openai"),
        tools_enabled: read_or(fields, "tools_enabled", DEFAULT_CURATOR_TOOLS),
        max_turns: read_or(fields, "max_turns", "250"),
    }
}

/// The task message of a job: by its type, or the refusal of a type that
/// has none.
pub open spec fn spec_user_message(job: WikiJob, job_id: Seq<char>) -> Result<Seq<char>, Seq<char>> {
    if job.job_type@ == "source_search"@ {
        Ok(spec_source_search_message(job.input@, job.persona_id@, job_id))
    } else if job.job_type@ == "synthesize"@ {
        Ok(spec_synthesize_message(job.persona_id@, job_id))
    } else {
        Err("build_session_message: unsupported job_type '"@ + job.job_type@ + "'"@)
    }
}

/// A job's task message opens by naming the job's type, the job's persona
/// and the given job id, in that order: a source_search job's with
/// `You are executing a WikiJob (source_search) for persona '<persona_id>'.`
/// and `Job ID: <job_id>` on the next line, a synthesize job's likewise;
/// any other type is refused, naming it.
pub proof fn law_user_message_names_persona_and_job(job: WikiJob, job_id: Seq<char>)
    ensures
        job.job_type@ == "source_search"@ ==> (spec_user_message(job, job_id) matches Ok(m) && crate::text::has_prefix(
            m,
            "You are executing a WikiJob (source_search) for persona '"@ + job.persona_id@ + "'.\nJob ID: "@ + job_id,
        )),
        job.job_type@ == "synthesize"@ ==> (spec_user_message(job, job_id) matches Ok(m) && crate::text::has_prefix(
            m,
            "You are executing a WikiJob (synthesize) for persona '"@ + job.persona_id@ + "'.\nJob ID: "@ + job_id,
        )),
        job.job_type@ != "source_search"@ && job.job_type@ != "synthesize"@ ==> spec_user_message(job, job_id)
            == Err::<Seq<char>, Seq<char>>("build_session_message: unsupported job_type '"@ + job.job_type@ + "'"@),
{
    let p = job.persona_id@;
    reveal_strlit("synthesize");
    reveal_strlit("source_search");
    assert("synthesize"@[1] != "source_search"@[1]);
    assert("synthesize"@ != "source_search"@);
    if job.job_type@ == "source_search"@ {
        let m = spec_source_search_message(job.input@, p, job_id);
        let head = "You are executing a WikiJob (source_search) for persona '"@ + p + "'.\nJob ID: "@ + job_id;
        assert forall|k: int| 0 <= k < head.len() implies m[k] == head[k] by {}
        assert(m.subrange(0, head.len() as int) =~= head);
    } else if job.job_type@ == "synthesize"@ {
        let m = spec_synthesize_message(p, job_id);
        let head = "You are executing a WikiJob (synthesize) for persona '"@ + p + "'.\nJob ID: "@ + job_id;
        assert forall|k: int| 0 <= k < head.len() implies m[k] == head[k] by {}
        assert(m.subrange(0, head.len() as int) =~= head);
        assert(spec_user_message(job, job_id) == Ok::<Seq<char>, Seq<char>>(m));
        assert(crate::text::has_prefix(m, head));
    }
}

/// The task message a job's curator session receives.
pub fn build_user_message(job: &WikiJob, job_id: &str) -> (res: Result<String, String>)
    ensures
        match res {
            Ok(m) => spec_user_message(*job, job_id@) == Ok::<Seq<char>, Seq<char>>(m@),
            Err(e) => spec_user_message(*job, job_id@) == Err::<Seq<char>, Seq<char>>(e@),
        },
{
    if str_eq(job.job_type.as_str(), "source_search") {
        Ok(build_source_search_message(job.input.as_str(), job.persona_id.as_str(), job_id))
    } else if str_eq(job.job_type.as_str(), "synthesize") {
        Ok(build_synthesize_message(job.persona_id.as_str(), job_id))
    } else {
        let mut e = String::from_str("build_session_message: unsupported job_type '");
        e.append(job.job_type.as_str());
        e.append("'");
        Err(e)
    }
}

/// The settings the curator session is configured with.
pub open spec fn spec_configure_body(job: WikiJob, user_message: Seq<char>) -> JsonV {
    JsonV::Object(seq![
        ("soul_id"@, JsonV::String(job.soul_id@)),
        ("user_message"@, JsonV::String(user_message)),
        ("model"@, JsonV::String(job.model@)),
        ("provider"@, JsonV::String(job.provider@)),
        ("tools_enabled"@, JsonV::String(job.tools_enabled@)),
        ("max_turns"@, JsonV::String(job.max_turns@)),
    ])
}

/// The body of the `Configure` action on the curator session.
pub fn configure_body(job: &WikiJob, user_message: &str) -> (res: Json)
    ensures
        res@ == spec_configure_body(*job, user_message@),
{
    let mut m: Vec<(String, Json)> = Vec::new();
    push_member(&mut m, "soul_id", string_value(job.soul_id.as_str()));
    push_member(&mut m, "user_message", string_value(user_message));
    push_member(&mut m, "model", string_value(job.model.as_str()));
    push_member(&mut m, "provider", string_value(job.provider.as_str()));
    push_member(&mut m, "tools_enabled", string_value(job.tools_enabled.as_str()));
    push_member(&mut m, "max_turns", string_value(job.max_turns.as_str()));
    assert(members_view(m@) =~= seq![
        ("soul_id"@, JsonV::String(job.soul_id@)),
        ("user_message"@, JsonV::String(user_message@)),
        ("model"@, JsonV::String(job.model@)),
        ("provider"@, JsonV::String(job.provider@)),
        ("tools_enabled"@, JsonV::String(job.tools_enabled@)),
        ("max_turns"@, JsonV::String(job.max_turns@)),
    ]);
    Json::Object(m)
}

} // verus!
