//! The REPL tool catalog: which `temper.*` and `sandbox.*` methods a session
//! may call, the `execute` tool that lists them, and the SDK reference that
//! explains the environment.

use vstd::prelude::*;
use crate::json::{Json, JsonV, array1, object1, object2, object3, string_value};
use crate::text::{chars_of, join_lines, split_char, split_on_char, str_eq, string_from_chars, trim, trim_chars};

verus! {

/// One method of the REPL objects, and the tool token that enables it
/// (`None`: always available).
#[derive(Clone, Copy, Debug)]
pub struct ReplMethodSpec {
    pub object: &'static str,
    pub method: &'static str,
    pub signature: &'static str,
    pub description: &'static str,
    pub token: Option<&'static str>,
}

/// The methods of the REPL objects, in the order they are listed.
pub open spec fn method_table() -> Seq<ReplMethodSpec> {
    seq![
        ReplMethodSpec {
            object: "sandbox",
            method: "bash",
            signature: "(command)",
            description: "run shell command, returns stdout",
            token: Some("bash"),
        },
        ReplMethodSpec {
            object: "sandbox",
            method: "read",
            signature: "(path)",
            description: "read file content",
            token: Some("read"),
        },
        ReplMethodSpec {
            object: "sandbox",
            method: "write",
            signature: "(path, content)",
            description: "write file",
            token: Some("write"),
        },
        ReplMethodSpec {
            object: "sandbox",
            method: "edit",
            signature: "(path, old, new)",
            description: "search-replace in file",
            token: Some("edit"),
        },
        ReplMethodSpec {
            object: "temper",
            method: "create",
            signature: "(entity_set, fields_dict)",
            description: "create entity, returns dict with entity_id",
            token: Some("temper_create"),
        },
        ReplMethodSpec {
            object: "temper",
            method: "get",
            signature: "(entity_set, entity_id)",
            description: "get entity by id",
            token: Some("temper_get"),
        },
        ReplMethodSpec {
            object: "temper",
            method: "list",
            signature: "(entity_set, filter_str)",
            description: "list entities with OData $filter",
            token: Some("temper_list"),
        },
        ReplMethodSpec {
            object: "temper",
            method: "action",
            signature: "(entity_set, entity_id, action_name, params_dict)",
            description: "dispatch action",
            token: Some("temper_action"),
        },
        ReplMethodSpec {
            object: "temper",
            method: "patch",
            signature: "(entity_set, entity_id, fields_dict)",
            description: "partial update",
            token: Some("temper_patch"),
        },
        ReplMethodSpec {
            object: "temper",
            method: "spawn_session",
            signature: "(task, soul_id=None, model=None, tools=None, workdir=None, sandbox_url=None, max_turns=None, background=False)",
            description: "spawn sub-session",
            token: Some("temper_spawn_session"),
        },
        ReplMethodSpec {
            object: "temper",
            method: "list_sessions",
            signature: "(filter=None, top=50)",
            description: "list recent sessions; add a filter to narrow the results",
            token: Some("temper_list_sessions"),
        },
        ReplMethodSpec {
            object: "temper",
            method: "abort_session",
            signature: "(session_id)",
            description: "cancel session",
            token: Some("temper_abort_session"),
        },
        ReplMethodSpec {
            object: "temper",
            method: "steer_session",
            signature: "(session_id, message)",
            description: "inject message",
            token: Some("temper_steer_session"),
        },
        ReplMethodSpec {
            object: "temper",
            method: "save_memory",
            signature: "(key, content, memory_type='project')",
            description: "persist long-lived memory",
            token: Some("temper_save_memory"),
        },
        ReplMethodSpec {
            object: "temper",
            method: "recall_memory",
            signature: "(query)",
            description: "search persisted memories, returns list",
            token: Some("temper_recall_memory"),
        },
        ReplMethodSpec {
            object: "temper",
            method: "write",
            signature: "(path, content, opts=None)",
            description: "write file by path (auto-creates workspace/dirs), returns {file_id, path, workspace_id}",
            token: Some("temper_write"),
        },
        ReplMethodSpec {
            object: "temper",
            method: "read",
            signature: "(path, opts=None)",
            description: "read file content by path. opts: {offset: int, limit: int} for partial reads (0-indexed line numbers)",
            token: Some("temper_read"),
        },
        ReplMethodSpec {
            object: "temper",
            method: "ls",
            signature: "(path, opts=None)",
            description: "list directory contents (files and subdirectories), returns JSON array",
            token: Some("temper_ls"),
        },
        ReplMethodSpec {
            object: "temper",
            method: "grep",
            signature: "(pattern, path, opts=None)",
            description: "search file contents for pattern, returns matching lines with file paths and line numbers. opts: {case_insensitive: bool, max_results: int}",
            token: Some("temper_grep"),
        },
        ReplMethodSpec {
            object: "temper",
            method: "glob",
            signature: "(pattern, path='/')",
            description: "find files matching name pattern (supports *, **, ?), returns list of matching paths",
            token: Some("temper_glob"),
        },
        ReplMethodSpec {
            object: "temper",
            method: "edit",
            signature: "(path, old_string, new_string, opts=None)",
            description: "replace first occurrence of old_string with new_string in file",
            token: Some("temper_edit"),
        },
        ReplMethodSpec {
            object: "temper",
            method: "rename",
            signature: "(old_path, new_path, opts=None)",
            description: "rename or move a file to a new path",
            token: Some("temper_rename"),
        },
        ReplMethodSpec {
            object: "temper",
            method: "search_history",
            signature: "(pattern)",
            description: "search recent conversation history in this session, including compacted entries",
            token: Some("temper_search_history"),
        },
        ReplMethodSpec {
            object: "temper",
            method: "run_coding_agent",
            signature: "(agent_type, task)",
            description: "spawn coding session",
            token: Some("temper_run_coding_agent"),
        },
        ReplMethodSpec {
            object: "temper",
            method: "submit_specs",
            signature: "(files_dict)",
            description: "load specs into Temper; files_dict must include model.csdl.xml plus one or more *.ioa.toml files (nested paths allowed)",
            token: Some("temper_submit_specs"),
        },
        ReplMethodSpec {
            object: "temper",
            method: "show_spec",
            signature: "(entity_name)",
            description: "inspect entity spec",
            token: Some("temper_show_spec"),
        },
        ReplMethodSpec {
            object: "temper",
            method: "specs",
            signature: "()",
            description: "list available entity specs",
            token: Some("temper_specs"),
        },
        ReplMethodSpec {
            object: "temper",
            method: "install_app",
            signature: "(app_name, reason, payload=None, capability_type='os_app')",
            description: "request capability install",
            token: Some("temper_install_app"),
        },
        ReplMethodSpec {
            object: "temper",
            method: "list_apps",
            signature: "()",
            description: "list available apps",
            token: Some("temper_list_apps"),
        },
        ReplMethodSpec {
            object: "temper",
            method: "upload_wasm",
            signature: "(module_name, wasm_base64)",
            description: "upload WASM module",
            token: Some("temper_upload_wasm"),
        },
        ReplMethodSpec {
            object: "temper",
            method: "get_secret",
            signature: "(key)",
            description: "read secret from vault (Cedar-gated)",
            token: Some("temper_get_secret"),
        },
        ReplMethodSpec {
            object: "temper",
            method: "switch_provider",
            signature: "(model=None, provider=None)",
            description: "change LLM provider/model mid-session (takes effect on next turn)",
            token: None,
        },
        ReplMethodSpec {
            object: "temper",
            method: "switch_mode",
            signature: "({\"mode\": \"plan\"})",
            description: "switch to plan mode (read-only + Plan entities)",
            token: None,
        },
        ReplMethodSpec {
            object: "temper",
            method: "switch_mode",
            signature: "({\"mode\": \"execute\"})",
            description: "switch to execute mode (full tools)",
            token: None,
        },
        ReplMethodSpec {
            object: "temper",
            method: "done",
            signature: "(result)",
            description: "signal session completion with result",
            token: None,
        },
        ReplMethodSpec {
            object: "temper",
            method: "submit_policy",
            signature: "(policy_id, cedar_text)",
            description: "create Cedar policy (Cedar-gated)",
            token: Some("temper_submit_policy"),
        },
        ReplMethodSpec {
            object: "temper",
            method: "list_policies",
            signature: "()",
            description: "list all Cedar policies",
            token: Some("temper_list_policies"),
        },
        ReplMethodSpec {
            object: "temper",
            method: "get_policy",
            signature: "(policy_id)",
            description: "read a specific Cedar policy",
            token: Some("temper_get_policy"),
        },
        ReplMethodSpec {
            object: "temper",
            method: "update_policy",
            signature: "(policy_id, cedar_text)",
            description: "update Cedar policy (Cedar-gated)",
            token: Some("temper_update_policy"),
        },
        ReplMethodSpec {
            object: "temper",
            method: "delete_policy",
            signature: "(policy_id)",
            description: "delete Cedar policy (Cedar-gated)",
            token: Some("temper_delete_policy"),
        },
        ReplMethodSpec {
            object: "temper",
            method: "get_trajectories",
            signature: "(entity_type, include_actions, limit=10)",
            description: "evolution data",
            token: Some("temper_get_trajectories"),
        },
        ReplMethodSpec {
            object: "temper",
            method: "get_insights",
            signature: "()",
            description: "evolution insights",
            token: Some("temper_get_insights"),
        },
        ReplMethodSpec {
            object: "temper",
            method: "get_decisions",
            signature: "()",
            description: "pending governance decisions",
            token: Some("temper_get_decisions"),
        },
        ReplMethodSpec {
            object: "temper",
            method: "poll_decision",
            signature: "(decision_id)",
            description: "wait for decision",
            token: Some("temper_poll_decision"),
        },
        ReplMethodSpec {
            object: "temper",
            method: "approve_decision",
            signature: "(decision_id, scope_dict)",
            description: "approve governance decision (Cedar-gated)",
            token: Some("temper_approve_decision"),
        },
        ReplMethodSpec {
            object: "temper",
            method: "deny_decision",
            signature: "(decision_id)",
            description: "deny governance decision (Cedar-gated)",
            token: Some("temper_deny_decision"),
        },
        ReplMethodSpec {
            object: "temper",
            method: "get_agent_id",
            signature: "()",
            description: "return the current agent/session identifier",
            token: None,
        },
        ReplMethodSpec {
            object: "temper",
            method: "get_session_id",
            signature: "()",
            description: "return the current session identifier",
            token: None,
        },
        ReplMethodSpec {
            object: "temper",
            method: "datadog_query",
            signature: "(query_kind, monitor_id=None, query=None, ...)",
            description: "Datadog API",
            token: Some("temper_datadog_query"),
        },
        ReplMethodSpec {
            object: "temper",
            method: "railway",
            signature: "(action, project_id=None, ...)",
            description: "Railway API",
            token: Some("temper_railway"),
        },
        ReplMethodSpec {
            object: "temper",
            method: "vercel",
            signature: "(action, deployment_id=None, ...)",
            description: "Vercel API",
            token: Some("temper_vercel"),
        },
        ReplMethodSpec {
            object: "temper",
            method: "web_search",
            signature: "(query)",
            description: "search the web via Exa, returns list of {title, url, text}",
            token: Some("temper_web_search"),
        },
        ReplMethodSpec {
            object: "temper",
            method: "web_fetch",
            signature: "(url)",
            description: "fetch a URL, returns text content (HTML tags stripped)",
            token: Some("temper_web_fetch"),
        },
    ]
}

/// The method catalog.
pub fn repl_method_specs() -> (res: Vec<ReplMethodSpec>)
    ensures
        res@ == method_table(),
{
    let v = vec![
        ReplMethodSpec {
            object: "sandbox",
            method: "bash",
            signature: "(command)",
            description: "run shell command, returns stdout",
            token: Some("bash"),
        },
        ReplMethodSpec {
            object: "sandbox",
            method: "read",
            signature: "(path)",
            description: "read file content",
            token: Some("read"),
        },
        ReplMethodSpec {
            object: "sandbox",
            method: "write",
            signature: "(path, content)",
            description: "write file",
            token: Some("write"),
        },
        ReplMethodSpec {
            object: "sandbox",
            method: "edit",
            signature: "(path, old, new)",
            description: "search-replace in file",
            token: Some("edit"),
        },
        ReplMethodSpec {
            object: "temper",
            method: "create",
            signature: "(entity_set, fields_dict)",
            description: "create entity, returns dict with entity_id",
            token: Some("temper_create"),
        },
        ReplMethodSpec {
            object: "temper",
            method: "get",
            signature: "(entity_set, entity_id)",
            description: "get entity by id",
            token: Some("temper_get"),
        },
        ReplMethodSpec {
            object: "temper",
            method: "list",
            signature: "(entity_set, filter_str)",
            description: "list entities with OData $filter",
            token: Some("temper_list"),
        },
        ReplMethodSpec {
            object: "temper",
            method: "action",
            signature: "(entity_set, entity_id, action_name, params_dict)",
            description: "dispatch action",
            token: Some("temper_action"),
        },
        ReplMethodSpec {
            object: "temper",
            method: "patch",
            signature: "(entity_set, entity_id, fields_dict)",
            description: "partial update",
            token: Some("temper_patch"),
        },
        ReplMethodSpec {
            object: "temper",
            method: "spawn_session",
            signature: "(task, soul_id=None, model=None, tools=None, workdir=None, sandbox_url=None, max_turns=None, background=False)",
            description: "spawn sub-session",
            token: Some("temper_spawn_session"),
        },
        ReplMethodSpec {
            object: "temper",
            method: "list_sessions",
            signature: "(filter=None, top=50)",
            description: "list recent sessions; add a filter to narrow the results",
            token: Some("temper_list_sessions"),
        },
        ReplMethodSpec {
            object: "temper",
            method: "abort_session",
            signature: "(session_id)",
            description: "cancel session",
            token: Some("temper_abort_session"),
        },
        ReplMethodSpec {
            object: "temper",
            method: "steer_session",
            signature: "(session_id, message)",
            description: "inject message",
            token: Some("temper_steer_session"),
        },
        ReplMethodSpec {
            object: "temper",
            method: "save_memory",
            signature: "(key, content, memory_type='project')",
            description: "persist long-lived memory",
            token: Some("temper_save_memory"),
        },
        ReplMethodSpec {
            object: "temper",
            method: "recall_memory",
            signature: "(query)",
            description: "search persisted memories, returns list",
            token: Some("temper_recall_memory"),
        },
        ReplMethodSpec {
            object: "temper",
            method: "write",
            signature: "(path, content, opts=None)",
            description: "write file by path (auto-creates workspace/dirs), returns {file_id, path, workspace_id}",
            token: Some("temper_write"),
        },
        ReplMethodSpec {
            object: "temper",
            method: "read",
            signature: "(path, opts=None)",
            description: "read file content by path. opts: {offset: int, limit: int} for partial reads (0-indexed line numbers)",
            token: Some("temper_read"),
        },
        ReplMethodSpec {
            object: "temper",
            method: "ls",
            signature: "(path, opts=None)",
            description: "list directory contents (files and subdirectories), returns JSON array",
            token: Some("temper_ls"),
        },
        ReplMethodSpec {
            object: "temper",
            method: "grep",
            signature: "(pattern, path, opts=None)",
            description: "search file contents for pattern, returns matching lines with file paths and line numbers. opts: {case_insensitive: bool, max_results: int}",
            token: Some("temper_grep"),
        },
        ReplMethodSpec {
            object: "temper",
            method: "glob",
            signature: "(pattern, path='/')",
            description: "find files matching name pattern (supports *, **, ?), returns list of matching paths",
            token: Some("temper_glob"),
        },
        ReplMethodSpec {
            object: "temper",
            method: "edit",
            signature: "(path, old_string, new_string, opts=None)",
            description: "replace first occurrence of old_string with new_string in file",
            token: Some("temper_edit"),
        },
        ReplMethodSpec {
            object: "temper",
            method: "rename",
            signature: "(old_path, new_path, opts=None)",
            description: "rename or move a file to a new path",
            token: Some("temper_rename"),
        },
        ReplMethodSpec {
            object: "temper",
            method: "search_history",
            signature: "(pattern)",
            description: "search recent conversation history in this session, including compacted entries",
            token: Some("temper_search_history"),
        },
        ReplMethodSpec {
            object: "temper",
            method: "run_coding_agent",
            signature: "(agent_type, task)",
            description: "spawn coding session",
            token: Some("temper_run_coding_agent"),
        },
        ReplMethodSpec {
            object: "temper",
            method: "submit_specs",
            signature: "(files_dict)",
            description: "load specs into Temper; files_dict must include model.csdl.xml plus one or more *.ioa.toml files (nested paths allowed)",
            token: Some("temper_submit_specs"),
        },
        ReplMethodSpec {
            object: "temper",
            method: "show_spec",
            signature: "(entity_name)",
            description: "inspect entity spec",
            token: Some("temper_show_spec"),
        },
        ReplMethodSpec {
            object: "temper",
            method: "specs",
            signature: "()",
            description: "list available entity specs",
            token: Some("temper_specs"),
        },
        ReplMethodSpec {
            object: "temper",
            method: "install_app",
            signature: "(app_name, reason, payload=None, capability_type='os_app')",
            description: "request capability install",
            token: Some("temper_install_app"),
        },
        ReplMethodSpec {
            object: "temper",
            method: "list_apps",
            signature: "()",
            description: "list available apps",
            token: Some("temper_list_apps"),
        },
        ReplMethodSpec {
            object: "temper",
            method: "upload_wasm",
            signature: "(module_name, wasm_base64)",
            description: "upload WASM module",
            token: Some("temper_upload_wasm"),
        },
        ReplMethodSpec {
            object: "temper",
            method: "get_secret",
            signature: "(key)",
            description: "read secret from vault (Cedar-gated)",
            token: Some("temper_get_secret"),
        },
        ReplMethodSpec {
            object: "temper",
            method: "switch_provider",
            signature: "(model=None, provider=None)",
            description: "change LLM provider/model mid-session (takes effect on next turn)",
            token: None,
        },
        ReplMethodSpec {
            object: "temper",
            method: "switch_mode",
            signature: "({\"mode\": \"plan\"})",
            description: "switch to plan mode (read-only + Plan entities)",
            token: None,
        },
        ReplMethodSpec {
            object: "temper",
            method: "switch_mode",
            signature: "({\"mode\": \"execute\"})",
            description: "switch to execute mode (full tools)",
            token: None,
        },
        ReplMethodSpec {
            object: "temper",
            method: "done",
            signature: "(result)",
            description: "signal session completion with result",
            token: None,
        },
        ReplMethodSpec {
            object: "temper",
            method: "submit_policy",
            signature: "(policy_id, cedar_text)",
            description: "create Cedar policy (Cedar-gated)",
            token: Some("temper_submit_policy"),
        },
        ReplMethodSpec {
            object: "temper",
            method: "list_policies",
            signature: "()",
            description: "list all Cedar policies",
            token: Some("temper_list_policies"),
        },
        ReplMethodSpec {
            object: "temper",
            method: "get_policy",
            signature: "(policy_id)",
            description: "read a specific Cedar policy",
            token: Some("temper_get_policy"),
        },
        ReplMethodSpec {
            object: "temper",
            method: "update_policy",
            signature: "(policy_id, cedar_text)",
            description: "update Cedar policy (Cedar-gated)",
            token: Some("temper_update_policy"),
        },
        ReplMethodSpec {
            object: "temper",
            method: "delete_policy",
            signature: "(policy_id)",
            description: "delete Cedar policy (Cedar-gated)",
            token: Some("temper_delete_policy"),
        },
        ReplMethodSpec {
            object: "temper",
            method: "get_trajectories",
            signature: "(entity_type, include_actions, limit=10)",
            description: "evolution data",
            token: Some("temper_get_trajectories"),
        },
        ReplMethodSpec {
            object: "temper",
            method: "get_insights",
            signature: "()",
            description: "evolution insights",
            token: Some("temper_get_insights"),
        },
        ReplMethodSpec {
            object: "temper",
            method: "get_decisions",
            signature: "()",
            description: "pending governance decisions",
            token: Some("temper_get_decisions"),
        },
        ReplMethodSpec {
            object: "temper",
            method: "poll_decision",
            signature: "(decision_id)",
            description: "wait for decision",
            token: Some("temper_poll_decision"),
        },
        ReplMethodSpec {
            object: "temper",
            method: "approve_decision",
            signature: "(decision_id, scope_dict)",
            description: "approve governance decision (Cedar-gated)",
            token: Some("temper_approve_decision"),
        },
        ReplMethodSpec {
            object: "temper",
            method: "deny_decision",
            signature: "(decision_id)",
            description: "deny governance decision (Cedar-gated)",
            token: Some("temper_deny_decision"),
        },
        ReplMethodSpec {
            object: "temper",
            method: "get_agent_id",
            signature: "()",
            description: "return the current agent/session identifier",
            token: None,
        },
        ReplMethodSpec {
            object: "temper",
            method: "get_session_id",
            signature: "()",
            description: "return the current session identifier",
            token: None,
        },
        ReplMethodSpec {
            object: "temper",
            method: "datadog_query",
            signature: "(query_kind, monitor_id=None, query=None, ...)",
            description: "Datadog API",
            token: Some("temper_datadog_query"),
        },
        ReplMethodSpec {
            object: "temper",
            method: "railway",
            signature: "(action, project_id=None, ...)",
            description: "Railway API",
            token: Some("temper_railway"),
        },
        ReplMethodSpec {
            object: "temper",
            method: "vercel",
            signature: "(action, deployment_id=None, ...)",
            description: "Vercel API",
            token: Some("temper_vercel"),
        },
        ReplMethodSpec {
            object: "temper",
            method: "web_search",
            signature: "(query)",
            description: "search the web via Exa, returns list of {title, url, text}",
            token: Some("temper_web_search"),
        },
        ReplMethodSpec {
            object: "temper",
            method: "web_fetch",
            signature: "(url)",
            description: "fetch a URL, returns text content (HTML tags stripped)",
            token: Some("temper_web_fetch"),
        },
    ];
    assert(v@ =~= method_table());
    v
}

/// The tools enabled when a session names none.
pub const DEFAULT_TOOLS_ENABLED: &'static str = "temper_create,temper_get,temper_list,temper_action,temper_patch,temper_submit_specs,temper_show_spec,temper_specs,temper_upload_wasm,temper_get_trajectories,temper_get_insights,temper_get_decisions,temper_poll_decision,temper_approve_decision,temper_deny_decision,temper_submit_policy,temper_list_policies,temper_get_policy,temper_update_policy,temper_delete_policy,temper_install_app,temper_list_apps,temper_spawn_session,temper_list_sessions,temper_abort_session,temper_steer_session,temper_save_memory,temper_recall_memory,temper_write,temper_read,temper_ls,temper_grep,temper_glob,temper_edit,temper_rename,temper_search_history,temper_run_coding_agent,temper_get_secret,temper_datadog_query,temper_railway,temper_vercel,temper_web_search,temper_web_fetch,read,write,edit,bash";

/// The current name of a tool token: legacy names map to the `temper_*`
/// token that replaced them; any other token is its own name.
pub open spec fn spec_normalize_token(t: Seq<char>) -> Seq<char> {
    if t == "read_entity"@ {
        "temper_get"@
    } else if t == "save_memory"@ {
        "temper_save_memory"@
    } else if t == "recall_memory"@ {
        "temper_recall_memory"@
    } else if t == "spawn_agent"@ || t == "spawn_session"@ {
        "temper_spawn_session"@
    } else if t == "temper_file_upload"@ {
        "temper_write"@
    } else {
        t
    }
}

/// Maps a legacy tool token to its current name.
pub fn normalize_tool_token<'a>(token: &'a str) -> (res: &'a str)
    ensures
        res@ == spec_normalize_token(token@),
{
    if str_eq(token, "read_entity") {
        "temper_get"
    } else if str_eq(token, "save_memory") {
        "temper_save_memory"
    } else if str_eq(token, "recall_memory") {
        "temper_recall_memory"
    } else if str_eq(token, "spawn_agent") || str_eq(token, "spawn_session") {
        "temper_spawn_session"
    } else if str_eq(token, "temper_file_upload") {
        "temper_write"
    } else {
        token
    }
}

/// The tokens named by comma-separated pieces: each piece trimmed, empty
/// pieces skipped, legacy names normalized.
pub open spec fn listed_tokens(pieces: Seq<Seq<char>>) -> Seq<Seq<char>>
    decreases pieces.len(),
{
    if pieces.len() == 0 {
        seq![]
    } else {
        let prior = listed_tokens(pieces.drop_last());
        let t = trim(pieces.last());
        if t.len() == 0 {
            prior
        } else {
            prior.push(spec_normalize_token(t))
        }
    }
}

/// The set of tools a comma-separated `tools_enabled` list enables.
pub open spec fn tool_set(tools_enabled: Seq<char>) -> Set<Seq<char>> {
    listed_tokens(split_char(tools_enabled, ',')).to_set()
}

/// The strings held, as plain values.
pub open spec fn strings_view(v: Seq<String>) -> Seq<Seq<char>> {
    v.map_values(|s: String| s@)
}

/// A set of tool tokens held in a vector: each token once, in no
/// particular order.
pub open spec fn token_set(v: Seq<String>) -> Set<Seq<char>> {
    strings_view(v).to_set()
}

/// Whether `v` holds `s`.
pub fn contains_string(v: &Vec<String>, s: &str) -> (res: bool)
    ensures
        res == strings_view(v@).contains(s@),
{
    let mut i: usize = 0;
    while i < v.len()
        invariant
            i <= v@.len(),
            forall|j: int| 0 <= j < i ==> v@[j]@ != s@,
        decreases v@.len() - i,
    {
        if str_eq(v[i].as_str(), s) {
            assert(strings_view(v@)[i as int] == s@);
            return true;
        }
        i += 1;
    }
    assert forall|j: int| 0 <= j < strings_view(v@).len() implies strings_view(v@)[j] != s@ by {
        assert(v@[j]@ != s@);
    }
    false
}

/// The tools a comma-separated list enables, each once.
pub fn enabled_tool_set(tools_enabled: &str) -> (res: Vec<String>)
    ensures
        token_set(res@) == tool_set(tools_enabled@),
        strings_view(res@).no_duplicates(),
{
    let pieces = split_on_char(&chars_of(tools_enabled), ',');
    let ghost pv = pieces@.map_values(|p: Vec<char>| p@);
    let mut out: Vec<String> = Vec::new();
    proof {
        assert(pv.take(0) =~= Seq::<Seq<char>>::empty());
        assert(strings_view(out@) =~= Seq::<Seq<char>>::empty());
        assert(listed_tokens(pv.take(0)).to_set() =~= token_set(out@));
    }
    let mut i: usize = 0;
    while i < pieces.len()
        invariant
            i <= pieces@.len(),
            pv == pieces@.map_values(|p: Vec<char>| p@),
            pv == split_char(tools_enabled@, ','),
            token_set(out@) == listed_tokens(pv.take(i as int)).to_set(),
            strings_view(out@).no_duplicates(),
        decreases pieces@.len() - i,
    {
        assert(pv.take(i + 1).drop_last() =~= pv.take(i as int));
        assert(pv.take(i + 1).last() == pieces@[i as int]@);
        let t = trim_chars(&pieces[i]);
        if t.len() > 0 {
            let name = string_from_chars(&t);
            let token = normalize_tool_token(name.as_str());
            let ghost before = strings_view(out@);
            let ghost prior = listed_tokens(pv.take(i as int));
            proof {
                prior.lemma_push_to_set_commute(token@);
            }
            if !contains_string(&out, token) {
                out.push(token.to_string());
                proof {
                    assert(strings_view(out@) =~= before.push(token@));
                    before.lemma_push_to_set_commute(token@);
                }
            } else {
                assert(token_set(out@).insert(token@) =~= token_set(out@));
            }
        }
        i += 1;
    }
    assert(pv.take(i as int) =~= pv);
    out
}

/// Whether a method is available: it has no token, or its token is enabled.
pub open spec fn method_enabled(m: ReplMethodSpec, enabled: Set<Seq<char>>) -> bool {
    match m.token {
        Some(t) => enabled.contains(t@),
        None => true,
    }
}

/// Whether `spec`'s method is available with the `enabled` tools.
pub fn method_is_enabled(spec: &ReplMethodSpec, enabled: &Vec<String>) -> (res: bool)
    ensures
        res == method_enabled(*spec, token_set(enabled@)),
{
    match spec.token {
        Some(token) => {
            contains_string(enabled, token)
        },
        None => true,
    }
}

/// Whether the enabled tools reach a sandbox: a shell or file tool, or the
/// coding agent.
pub open spec fn sandbox_surface(enabled: Set<Seq<char>>) -> bool {
    enabled.contains("bash"@) || enabled.contains("read"@) || enabled.contains("write"@)
        || enabled.contains("edit"@) || enabled.contains("temper_run_coding_agent"@)
}

/// Whether the enabled tools need a sandbox.
pub fn has_sandbox_surface(enabled: &Vec<String>) -> (res: bool)
    ensures
        res == sandbox_surface(token_set(enabled@)),
{
    contains_string(enabled, "bash") || contains_string(enabled, "read") || contains_string(
        enabled,
        "write",
    ) || contains_string(enabled, "edit") || contains_string(enabled, "temper_run_coding_agent")
}

/// The `execute` tool description before the method listing.
pub const TOOL_DESCRIPTION_HEAD: &'static str = "Execute Python code in the Temper REPL. Variables persist across calls.\n\n\
         Available methods:\n\
         ";

/// The `execute` tool description after the method listing.
pub const TOOL_DESCRIPTION_TAIL: &'static str = "\n\n\
         IMPORTANT PYTHON RULES (this is Monty, a restricted Python — NOT standard CPython):\n\
         - No 'import' statements at all (no import json, os, re, typing, sys — NOTHING)\n\
         - No enumerate(x, start=N) — use range(len(x)) instead\n\
         - No f-strings with nested quotes — use string concatenation\n\
         - No tuple comparison operators (<, >, etc.)\n\
         - All temper.* calls return pre-parsed dicts/lists — no json.loads() needed\n\
         - No pip packages (no requests, httpx, subprocess, os)\n\
         - Use sandbox.bash() for ALL shell commands when sandbox tools are enabled\n\
         Write complete multi-step scripts. Use simple Python: for/if/while, string concat, list indexing.";

/// The objects note when a sandbox is provisioned on first use.
pub const SANDBOX_NOTE_ON_DEMAND: &'static str = " Two objects are available: `temper` (platform API) and `sandbox` (remote shell/files, provisioned on demand when you first use a sandbox tool).";

/// The objects note when a sandbox is configured.
pub const SANDBOX_NOTE_READY: &'static str = " Two objects are available: `temper` (platform API) and `sandbox` (remote shell/files).";

/// The objects note without sandbox tools.
pub const SANDBOX_NOTE_NONE: &'static str = " One object is available: `temper` (platform API).";

/// The start of the execution-environment section, before the objects note.
pub const SDK_ENVIRONMENT_HEAD: &'static str = "<temper_sdk>\n\
         ## Execution Environment\n\n\
         Your `execute` tool runs Python in a sandboxed REPL.";

/// The execution-environment rules, between the objects note and the sandbox working directory.
pub const SDK_ENVIRONMENT_RULES: &'static str = "\n\n\
         Constraints (Monty — restricted Python, NOT standard CPython):\n\
         - No 'import' statements at all (no import json, os, re, typing, sys)\n\
         - No enumerate(x, start=N) — use range(len(x)) instead\n\
         - No f-strings with nested quotes — use string concatenation\n\
         - No tuple comparison (<, >) — compare individual elements\n\
         - All temper.* calls return pre-parsed dicts/lists — no json.loads() needed\n\
         - No pip packages (no requests, httpx, numpy, pandas, etc.)\n\
         - No network access from Python — use sandbox.bash(\"curl ...\") for HTTP\n\
         - No filesystem access from Python — use sandbox.read/write/edit\n\
         - Python variables and helper definitions persist across execute calls within this session; persist important artifacts to Temper entities or Files so they survive crashes, handoffs, or later jobs\n\
         - Prefer short, focused execute scripts; avoid monolithic one-shot programs when the task can be split across turns\n\
         - If a script starts getting large, stop and continue in a follow-up execute call instead of building a giant helper framework\n\
         - Write substantial code blocks using simple Python: for/if/while, string concat, list indexing\n\
         - Sandbox working directory: ";

/// The heading of the examples section.
pub const SDK_EXAMPLES_HEAD: &'static str = "## Examples\n";

/// The examples that use the sandbox.
pub const SDK_SANDBOX_EXAMPLES: &'static str = "\n### Clone and explore\n\
             ```python\n\
             sandbox.bash(\"git clone https://github.com/org/repo.git /workspace/repo\")\n\
             content = sandbox.read(\"/workspace/repo/README.md\")\n\
             print(content[:500])\n\
             ```\n\
             \n### Edit + test + commit\n\
             ```python\n\
             sandbox.edit(\"/workspace/repo/src/main.py\",\n\
                 old=\"def hello():\",\n\
                 new=\"def hello(name='World'):\")\n\
             result = sandbox.bash(\"cd /workspace/repo && pytest tests/ -x -q\")\n\
             print(result)\n\
             sandbox.bash(\"cd /workspace/repo && git add -A && git commit -m 'fix: greet by name'\")\n\
             ```\n";

/// The entity and memory example.
pub const SDK_ENTITY_EXAMPLE: &'static str = "\n### Entity CRUD + memory\n\
         ```python\n\
         issue = temper.create(\"Issues\", {\"description\": \"Fix login bug\"})\n\
         temper.action(\"Issues\", issue[\"entity_id\"], \"OpenPaw.PM.MoveToTriage\", {})\n\
         temper.save_memory(\"test_results\", \"pytest: 47 passed, 0 failed\", \"project\")\n\
         ```\n";

/// The efficiency section.
pub const SDK_EFFICIENCY: &'static str = "## Efficiency\n\n\
         Batch closely related steps in one execute call, but do not force an entire long-running workflow into one giant script.\n\
         BAD: 5 separate execute calls for 5 one-line operations\n\
         BAD: 1 monolithic execute call that tries to ingest, plan, synthesize, and publish everything at once\n\
         GOOD: 1 focused execute call per coherent chunk of work, with state carried in the session between calls\n\n\
         Each execute call is an LLM turn. Fewer turns help, but reliability matters more than forcing one oversized script.";

/// The closing tag of the SDK reference.
pub const SDK_END: &'static str = "</temper_sdk>";


/// The line listing one method.
pub open spec fn method_line(m: ReplMethodSpec) -> Seq<char> {
    "- "@ + m.object@ + "."@ + m.method@ + m.signature@ + " -> "@ + m.description@
}

/// The lines of the available methods, in catalog order.
pub open spec fn listing_lines(table: Seq<ReplMethodSpec>, enabled: Set<Seq<char>>) -> Seq<Seq<char>>
    decreases table.len(),
{
    if table.len() == 0 {
        seq![]
    } else {
        let prior = listing_lines(table.drop_last(), enabled);
        if method_enabled(table.last(), enabled) {
            prior.push(method_line(table.last()))
        } else {
            prior
        }
    }
}

/// The method listing: one line per available method.
pub open spec fn spec_method_listing(enabled: Set<Seq<char>>) -> Seq<char> {
    join_lines(listing_lines(method_table(), enabled))
}

/// The line listing one method.
fn format_method_line(m: &ReplMethodSpec) -> (res: String)
    ensures
        res@ == method_line(*m),
{
    let mut out = String::from_str("- ");
    out.append(m.object);
    out.append(".");
    out.append(m.method);
    out.append(m.signature);
    out.append(" -> ");
    out.append(m.description);
    out
}

/// Lists the methods available with the `enabled` tools.
pub fn build_method_listing(enabled: &Vec<String>) -> (res: String)
    ensures
        res@ == spec_method_listing(token_set(enabled@)),
{
    let table = repl_method_specs();
    let ghost es = token_set(enabled@);
    let mut lines: Vec<String> = Vec::new();
    proof {
        assert(table@.take(0) =~= Seq::<ReplMethodSpec>::empty());
        assert(strings_view(lines@) =~= Seq::<Seq<char>>::empty());
    }
    let mut i: usize = 0;
    while i < table.len()
        invariant
            i <= table@.len(),
            table@ == method_table(),
            es == token_set(enabled@),
            strings_view(lines@) == listing_lines(table@.take(i as int), es),
        decreases table@.len() - i,
    {
        assert(table@.take(i + 1).drop_last() =~= table@.take(i as int));
        if method_is_enabled(&table[i], enabled) {
            let ghost before = strings_view(lines@);
            lines.push(format_method_line(&table[i]));
            assert(strings_view(lines@) =~= before.push(method_line(table@[i as int])));
        }
        i += 1;
    }
    assert(table@.take(i as int) =~= table@);
    crate::text::join_newline(&lines)
}

/// The `execute` tool: its name, the given description, and an input
/// schema of one required string `code`.
pub open spec fn execute_tool(description: Seq<char>) -> JsonV {
    JsonV::Object(
        seq![
            ("name"@, JsonV::String("execute"@)),
            ("description"@, JsonV::String(description)),
            (
                "input_schema"@,
                JsonV::Object(
                    seq![
                        ("type"@, JsonV::String("object"@)),
                        (
                            "properties"@,
                            JsonV::Object(
                                seq![
                                    (
                                        "code"@,
                                        JsonV::Object(
                                            seq![
                                                ("type"@, JsonV::String("string"@)),
                                                (
                                                    "description"@,
                                                    JsonV::String("Python code to execute"@),
                                                ),
                                            ],
                                        ),
                                    ),
                                ],
                            ),
                        ),
                        ("required"@, JsonV::Array(seq![JsonV::String("code"@)])),
                    ],
                ),
            ),
        ],
    )
}

/// The `execute` tool with the given description.
pub fn execute_tool_definition(description: String) -> (res: Json)
    ensures
        res@ == execute_tool(description@),
{
    let code = object2(
        "type",
        string_value("string"),
        "description",
        string_value("Python code to execute"),
    );
    let schema = object3(
        "type",
        string_value("object"),
        "properties",
        object1("code", code),
        "required",
        array1(string_value("code")),
    );
    object3(
        "name",
        string_value("execute"),
        "description",
        Json::String(description),
        "input_schema",
        schema,
    )
}

/// The `execute` tool's description: the method listing between the fixed
/// head and rules.
pub open spec fn tool_description(tools_enabled: Seq<char>) -> Seq<char> {
    TOOL_DESCRIPTION_HEAD@ + spec_method_listing(tool_set(tools_enabled)) + TOOL_DESCRIPTION_TAIL@
}

/// The tools offered to the model: the single `execute` tool, whose
/// description lists the methods the enabled tools allow.
pub fn build_tool_definitions(tools_enabled: &str, _sandbox_url: &str, _workdir: &str) -> (res: Vec<Json>)
    ensures
        crate::json::items_view(res@) == seq![execute_tool(tool_description(tools_enabled@))],
{
    let enabled = enabled_tool_set(tools_enabled);
    let listing = build_method_listing(&enabled);
    let mut description = String::from_str(TOOL_DESCRIPTION_HEAD);
    description.append(listing.as_str());
    description.append(TOOL_DESCRIPTION_TAIL);
    let mut out: Vec<Json> = Vec::new();
    proof {
        crate::json::lemma_items_view_empty(out@);
    }
    let tool = execute_tool_definition(description);
    let ghost tv = tool@;
    crate::json::push_item(&mut out, tool);
    assert(crate::json::items_view(out@) =~= seq![tv]);
    out
}

/// The note on the REPL objects: a sandbox provisioned on demand when the
/// tools reach one and none is configured, a configured sandbox, or none.
pub open spec fn sandbox_note(has_sandbox: bool, sandbox_url: Seq<char>) -> Seq<char> {
    if has_sandbox && sandbox_url.len() == 0 {
        SANDBOX_NOTE_ON_DEMAND@
    } else if has_sandbox {
        SANDBOX_NOTE_READY@
    } else {
        SANDBOX_NOTE_NONE@
    }
}

/// The examples section: the sandbox examples when a sandbox is reachable,
/// then the entity example.
pub open spec fn examples_section(has_sandbox: bool, entity_example: Seq<char>) -> Seq<char> {
    SDK_EXAMPLES_HEAD@ + (if has_sandbox {
        SDK_SANDBOX_EXAMPLES@
    } else {
        seq![]
    }) + entity_example
}

/// An SDK reference from its parts: the environment section (with the
/// objects note and the sandbox working directory), the examples, the
/// efficiency section and the closing tag, separated by blank lines.
pub open spec fn sdk_reference_text(
    rules: Seq<char>,
    entity_example: Seq<char>,
    efficiency: Seq<char>,
    has_sandbox: bool,
    sandbox_url: Seq<char>,
    workdir: Seq<char>,
) -> Seq<char> {
    SDK_ENVIRONMENT_HEAD@ + sandbox_note(has_sandbox, sandbox_url) + rules + workdir + "\n\n"@
        + examples_section(has_sandbox, entity_example) + "\n\n"@ + efficiency + "\n\n"@
        + SDK_END@
}

/// The SDK reference for the enabled tools.
pub open spec fn spec_sdk_reference(tools_enabled: Seq<char>, sandbox_url: Seq<char>, workdir: Seq<char>) -> Seq<char> {
    sdk_reference_text(
        SDK_ENVIRONMENT_RULES@,
        SDK_ENTITY_EXAMPLE@,
        SDK_EFFICIENCY@,
        sandbox_surface(tool_set(tools_enabled)),
        sandbox_url,
        workdir,
    )
}

/// Writes an SDK reference from its parts.
pub fn write_sdk_reference(
    rules: &str,
    entity_example: &str,
    efficiency: &str,
    has_sandbox: bool,
    sandbox_url: &str,
    workdir: &str,
) -> (res: String)
    ensures
        res@ == sdk_reference_text(rules@, entity_example@, efficiency@, has_sandbox, sandbox_url@, workdir@),
{
    let note = if has_sandbox && sandbox_url.is_empty() {
        SANDBOX_NOTE_ON_DEMAND
    } else if has_sandbox {
        SANDBOX_NOTE_READY
    } else {
        SANDBOX_NOTE_NONE
    };
    let mut out = String::from_str(SDK_ENVIRONMENT_HEAD);
    out.append(note);
    out.append(rules);
    out.append(workdir);
    out.append("\n\n");
    out.append(SDK_EXAMPLES_HEAD);
    if has_sandbox {
        out.append(SDK_SANDBOX_EXAMPLES);
    }
    out.append(entity_example);
    out.append("\n\n");
    out.append(efficiency);
    out.append("\n\n");
    out.append(SDK_END);
    out
}

/// The SDK reference placed in the system prompt.
pub fn build_sdk_reference(tools_enabled: &str, sandbox_url: &str, workdir: &str) -> (res: String)
    ensures
        res@ == spec_sdk_reference(tools_enabled@, sandbox_url@, workdir@),
{
    let enabled = enabled_tool_set(tools_enabled);
    let has_sandbox = has_sandbox_surface(&enabled);
    write_sdk_reference(
        SDK_ENVIRONMENT_RULES,
        SDK_ENTITY_EXAMPLE,
        SDK_EFFICIENCY,
        has_sandbox,
        sandbox_url,
        workdir,
    )
}

} // verus!
