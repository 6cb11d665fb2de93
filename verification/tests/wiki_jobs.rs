use os_apps::json::{Json, JsonNumber};
use os_apps::wiki::{
    build_source_search_message, build_synthesize_message, build_user_message, configure_body,
    read_wiki_job, DEFAULT_CURATOR_TOOLS,
};
use serde_json::Value;

const SOURCE_SEARCH_EXPECTED: &str = "You are executing a WikiJob (source_search) for persona 'p-ja'.\nJob ID: wj-1\n\n## Your Task\n\nSearch the web for high-quality sources matching the scope below, fetch their content,\nstore it in paw-fs, and create WikiSource entities for each source you find.\n\n## Search Scope\n\n{\"topic\": \"particles\"}\n\n## Python Sandbox Rules\n\nWhen writing Python code in any tool:\n- Do NOT use any `import` statements — all functions are available in the global scope\n- Do NOT use `enumerate()` with keyword arguments (e.g., `enumerate(items, start=1)` is forbidden; use `enumerate(items)` and add the offset manually)\n- Available built-in functions: `temper.web_search(query)`, `temper.web_fetch(url)`, `temper.write(path, content)`, `temper.read(path)`\n\n## Workflow\n\n1. **Search**: Use `temper.web_search()` with varied queries derived from the search scope\n2. **Fetch**: Use `temper.web_fetch()` to retrieve full content from promising URLs\n3. **Store**: Use `temper.write()` to save raw content to paw-fs at paths like `wiki/sources/{source_slug}.md`\n4. **Create WikiSource**: For each stored source, create a WikiSource entity:\n   ```\n   temper.create(\"WikiSources\", {\n     \"PersonaId\": \"p-ja\",\n     \"Title\": \"<source title>\",\n     \"SourceType\": \"<article|reference|tutorial|documentation>\",\n     \"SourceUrl\": \"<original URL>\",\n     \"FileId\": \"<file_id from temper.write()>\",\n     \"Metadata\": \"<JSON string with author, date, word_count, etc.>\"\n   })\n   ```\n5. **Index each source**: After creating each WikiSource, dispatch the Index action:\n   ```\n   temper.action(\"WikiSources\", \"<source_entity_id>\", \"Index\", {\n     \"extracted_topics\": \"<JSON array of topic strings>\"\n   })\n   ```\n6. **Update job progress**: Periodically dispatch RecordProgress on the WikiJob:\n   ```\n   temper.action(\"WikiJobs\", \"wj-1\", \"RecordProgress\", {\n     \"progress_log\": \"<JSON array of progress entries>\"\n   })\n   ```\n7. **Complete**: When done, dispatch Complete on the WikiJob:\n   ```\n   temper.action(\"WikiJobs\", \"wj-1\", \"Complete\", {\n     \"output\": \"<JSON summary: sources_found, sources_indexed, topics_discovered>\"\n   })\n   ```\n8. **Trigger synthesis**: After completing sourcing, create a synthesis WikiJob so pages get built automatically:\n   ```\n   synth = temper.create(\"WikiJobs\", {})\n   temper.action(\"WikiJobs\", synth[\"entity_id\"], \"Configure\", {\n     \"job_type\": \"synthesize\",\n     \"persona_id\": \"p-ja\",\n     \"input\": '{\"task\": \"Synthesize wiki pages from all gathered sources\"}'\n   })\n   temper.action(\"WikiJobs\", synth[\"entity_id\"], \"Submit\", {})\n   ```\n   This will reactively spawn a new Curator session for synthesis.\n\n## Quality Standards\n\n- Prefer authoritative sources (academic, official documentation, established references)\n- Minimum 5 sources, aim for 10-20 for comprehensive coverage\n- Extract topics from each source for later synthesis cross-referencing\n- If a fetch fails, log it and continue with other sources\n";

const SYNTHESIZE_EXPECTED: &str = "You are executing a WikiJob (synthesize) for persona 'p-ja'.\nJob ID: wj-2\n\n## Your Task\n\nRead all Indexed WikiSources for this persona, synthesize the knowledge into\nwell-structured wiki pages, store page content in paw-fs, and create WikiPage entities.\n\n## Python Sandbox Rules\n\nWhen writing Python code in any tool:\n- Do NOT use any `import` statements — all functions are available in the global scope\n- Do NOT use `enumerate()` with keyword arguments (e.g., `enumerate(items, start=1)` is forbidden; use `enumerate(items)` and add the offset manually)\n- Available built-in functions: `temper.list(entity_set, filter)`, `temper.get(entity_set, id)`, `temper.create(entity_set, fields)`, `temper.action(entity_set, id, action, params)`, `temper.write(path, content)`, `temper.read(path)`\n\n## Workflow\n\n1. **List sources**: Retrieve all Indexed WikiSources for this persona:\n   ```\n   temper.list(\"WikiSources\", \"$filter=PersonaId eq 'p-ja' and Status eq 'Indexed'\")\n   ```\n2. **Read content**: For each source, use `temper.read()` to load the stored content via its FileId\n3. **Plan pages**: Identify logical topics/themes that span multiple sources. Plan a coherent page structure.\n4. **Write pages**: For each planned page, synthesize content from relevant sources and write it:\n   ```\n   temper.write(\"/wiki/pages/{page_slug}.md\", content)\n   ```\n5. **Create WikiPage**: For each page:\n   ```\n   temper.create(\"WikiPages\", {\n     \"PersonaId\": \"p-ja\",\n     \"Slug\": \"<page-slug>\",\n     \"Title\": \"<Page Title>\",\n     \"Category\": \"<grammar|vocabulary|culture|usage|reference>\",\n     \"FileId\": \"<file_id from temper.write()>\",\n     \"Summary\": \"<2-3 sentence summary>\",\n     \"CrossReferences\": \"<JSON array of related page slugs>\",\n     \"SourceIds\": \"<JSON array of WikiSource entity IDs used>\",\n     \"Tags\": \"<JSON array of topic tags>\",\n     \"DifficultyRange\": \"<JSON: {\\\"min\\\": \\\"N5\\\", \\\"max\\\": \\\"N3\\\"}>\"\n   })\n   ```\n6. **Publish each page**: Dispatch Publish on each WikiPage:\n   ```\n   temper.action(\"WikiPages\", \"<page_entity_id>\", \"Publish\", {})\n   ```\n7. **Update job progress**: Periodically dispatch RecordProgress on the WikiJob\n8. **Complete**: When done, dispatch Complete on the WikiJob:\n   ```\n   temper.action(\"WikiJobs\", \"wj-2\", \"Complete\", {\n     \"output\": \"<JSON summary: pages_created, topics_covered, source_coverage>\"\n   })\n   ```\n\n## Markdown Formatting Standards\n\nAll wiki page content MUST follow these conventions:\n- **Headers**: Use `##` for main sections, `###` for subsections\n- **Japanese terms**: Always **bold** Japanese text, followed by reading in parentheses: **食べる** (taberu)\n- **Examples**: Use blockquotes with Japanese, romanization, and translation:\n  > **日本語を勉強しています。**\n  > *Nihongo o benkyou shite imasu.*\n  > \"I am studying Japanese.\"\n- **Tables**: Use for conjugation patterns, comparison charts, vocabulary lists\n- **Wikilinks**: Use `[[page-slug]]` syntax for cross-references to other wiki pages\n- **Source attribution**: Include a \"Sources\" section at the bottom referencing WikiSource IDs\n\n## Quality Standards\n\n- Each page should synthesize information from multiple sources\n- Aim for comprehensive but focused pages (1000-3000 words)\n- Include practical examples for every concept\n- Cross-reference related pages extensively\n- Maintain consistent terminology across all pages\n";

fn to_json(v: &Value) -> Json {
    match v {
        Value::Null => Json::Null,
        Value::Bool(b) => Json::Bool(*b),
        Value::Number(n) => Json::Number(JsonNumber::PosInt(n.as_u64().unwrap())),
        Value::String(s) => Json::String(s.clone()),
        Value::Array(items) => Json::Array(items.iter().map(to_json).collect()),
        Value::Object(map) => Json::Object(map.iter().map(|(k, v)| (k.clone(), to_json(v))).collect()),
    }
}

fn json(text: &str) -> Json {
    to_json(&serde_json::from_str::<Value>(text).unwrap())
}

#[test]
fn source_search_message_interpolates_scope_persona_and_job() {
    assert_eq!(build_source_search_message("{\"topic\": \"particles\"}", "p-ja", "wj-1"), SOURCE_SEARCH_EXPECTED);
}

#[test]
fn synthesize_message_interpolates_persona_and_job() {
    assert_eq!(build_synthesize_message("p-ja", "wj-2"), SYNTHESIZE_EXPECTED);
}

#[test]
fn job_settings_default_each_missing_field() {
    let job = read_wiki_job(&json(r#"{"job_type": "synthesize", "persona_id": "p-ja", "model": "m-1"}"#));
    assert_eq!(job.job_type, "synthesize");
    assert_eq!(job.input, "{}");
    assert_eq!(job.soul_id, "app-soul-curator");
    assert_eq!(job.model, "m-1");
    assert_eq!(job.provider, "openai");
    assert_eq!(job.tools_enabled, DEFAULT_CURATOR_TOOLS);
    assert_eq!(job.max_turns, "250");
    assert_eq!(build_user_message(&job, "wj-2"), Ok(SYNTHESIZE_EXPECTED.to_string()));
}

#[test]
fn unsupported_job_types_are_refused() {
    let job = read_wiki_job(&json(r#"{"job_type": "translate"}"#));
    assert_eq!(
        build_user_message(&job, "wj-3"),
        Err("build_session_message: unsupported job_type 'translate'".to_string())
    );
}

#[test]
fn configure_body_carries_the_session_settings() {
    let job = read_wiki_job(&json(r#"{"job_type": "source_search", "max_turns": "40"}"#));
    match configure_body(&job, "do it") {
        Json::Object(members) => {
            let keys: Vec<&str> = members.iter().map(|(k, _)| k.as_str()).collect();
            assert_eq!(keys, vec!["soul_id", "user_message", "model", "provider", "tools_enabled", "max_turns"]);
            assert!(matches!(&members[1].1, Json::String(s) if s == "do it"));
            assert!(matches!(&members[5].1, Json::String(s) if s == "40"));
        }
        _ => panic!("the body is an object"),
    }
}
