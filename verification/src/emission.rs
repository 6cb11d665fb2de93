//! Emitting a finished session's trajectory: which sessions owe one, the
//! identities it is emitted under, and what the session records of the
//! emission.

use vstd::prelude::*;
use crate::json::{Json, JsonV, spec_get, opt_str, spec_entity_field_str, entity_field_str, object2, object3, string_value};
use crate::text::{str_eq, chars_of};
use crate::tools::strings_view;
use crate::prompt::{join_sep, join_with};

verus! {

/// The status a session's state records (`Status`, else `status`), or the
/// empty string.
pub open spec fn spec_session_status(entity_state: JsonV) -> Seq<char> {
    match spec_entity_field_str(entity_state, seq!["Status", "status"]) {
        Some(s) => s,
        None => seq![],
    }
}

/// The status a session's state records.
pub fn session_status(entity_state: &Json) -> (res: String)
    ensures
        res@ == spec_session_status(entity_state@),
{
    let keys = ["Status", "status"];
    assert(keys@ =~= seq!["Status", "status"]);
    match entity_field_str(entity_state, &keys) {
        Some(s) => s.to_string(),
        None => String::new(),
    }
}

/// A terminal session status.
pub open spec fn is_terminal(status: Seq<char>) -> bool {
    status == "Completed"@ || status == "Failed"@ || status == "Cancelled"@
}

/// Refuses a session that has not ended: only `Completed`, `Failed` and
/// `Cancelled` sessions owe a trajectory.
pub open spec fn spec_terminal_refusal(session_id: Seq<char>, status: Seq<char>) -> Option<Seq<char>> {
    if is_terminal(status) {
        None
    } else {
        Some("emit_ots_trajectory: session "@ + session_id + " not in terminal state (status="@ + status + ")"@)
    }
}

/// Refuses a session that has not ended.
pub fn terminal_refusal(session_id: &str, status: &str) -> (res: Option<String>)
    ensures
        crate::text::opt_string(res) == spec_terminal_refusal(session_id@, status@),
{
    if str_eq(status, "Completed") || str_eq(status, "Failed") || str_eq(status, "Cancelled") {
        return None;
    }
    let mut m = String::from_str("emit_ots_trajectory: session ");
    m.append(session_id);
    m.append(" not in terminal state (status=");
    m.append(status);
    m.append(")");
    Some(m)
}

/// The trajectory id: the session's recorded one when non-empty, else
/// `trj-` and the session id, so retries reuse it.
pub open spec fn spec_trajectory_id(fields: JsonV, session_id: Seq<char>) -> Seq<char> {
    match opt_str(spec_get(fields, "trajectory_id"@)) {
        Some(t) if t.len() > 0 => t,
        _ => "trj-"@ + session_id,
    }
}

/// The trajectory id a session's trajectory is emitted under.
pub fn trajectory_id(fields: &Json, session_id: &str) -> (res: String)
    ensures
        res@ == spec_trajectory_id(fields@, session_id@),
{
    if let Some(t) = fields.get_str("trajectory_id") {
        if chars_of(t).len() > 0 {
            return t.to_string();
        }
    }
    let mut s = String::from_str("trj-");
    s.append(session_id);
    s
}

/// The agent a trajectory is credited to: the session's `agent_id`, else the
/// session itself.
pub open spec fn spec_emission_agent(fields: JsonV, session_id: Seq<char>) -> Seq<char> {
    match opt_str(spec_get(fields, "agent_id"@)) {
        Some(a) => a,
        None => session_id,
    }
}

/// The agent a trajectory is credited to.
pub fn emission_agent(fields: &Json, session_id: &str) -> (res: String)
    ensures
        res@ == spec_emission_agent(fields@, session_id@),
{
    match fields.get_str("agent_id") {
        Some(a) => a.to_string(),
        None => session_id.to_string(),
    }
}

/// The transcript file a session declares, when it declares one; a session
/// without one has an undeclared transcript.
pub open spec fn spec_declared_transcript(fields: JsonV) -> Option<Seq<char>> {
    match opt_str(spec_get(fields, "session_file_id"@)) {
        Some(id) if id.len() > 0 => Some(id),
        _ => None,
    }
}

/// The transcript file a session declares.
pub fn declared_transcript(fields: &Json) -> (res: Option<String>)
    ensures
        crate::text::opt_string(res) == spec_declared_transcript(fields@),
{
    match fields.get_str("session_file_id") {
        Some(id) => if chars_of(id).len() > 0 {
            Some(id.to_string())
        } else {
            None
        },
        None => None,
    }
}

/// What an emitted trajectory is recorded as: `emitted` with no error when
/// nothing is missing from it, else `emitted_degraded` with its
/// degradations joined by commas.
pub open spec fn spec_emission_status(degradations: Seq<Seq<char>>) -> (Seq<char>, Seq<char>) {
    if degradations.len() == 0 {
        ("emitted"@, seq![])
    } else {
        ("emitted_degraded"@, join_sep(degradations, ","@))
    }
}

/// The `MarkTrajectoryEmitted` parameters for an emitted trajectory.
pub fn emitted_result(trajectory_id: &str, degradations: &Vec<String>) -> (res: Json)
    ensures
        ({
            let (status, error) = spec_emission_status(strings_view(degradations@));
            res@ == JsonV::Object(seq![
                ("trajectory_id"@, JsonV::String(trajectory_id@)),
                ("trajectory_emission_status"@, JsonV::String(status)),
                ("trajectory_emission_error"@, JsonV::String(error)),
            ])
        }),
{
    let (status, error) = if degradations.len() == 0 {
        proof {
            reveal_strlit("");
        }
        ("emitted", String::new())
    } else {
        ("emitted_degraded", join_with(degradations, ","))
    };
    object3(
        "trajectory_id",
        string_value(trajectory_id),
        "trajectory_emission_status",
        string_value(status),
        "trajectory_emission_error",
        string_value(error.as_str()),
    )
}

/// The `TrajectoryEmissionFailed` parameters for an emission that failed
/// with `message`.
pub fn emission_failed_result(message: &str) -> (res: Json)
    ensures
        res@ == JsonV::Object(seq![
            ("trajectory_emission_error"@, JsonV::String(message@)),
            ("trajectory_emission_status"@, JsonV::String("failed"@)),
        ]),
{
    object2("trajectory_emission_error", string_value(message), "trajectory_emission_status", string_value("failed"))
}

/// The message of a refused trajectory upload: its status and the start of
/// the reply.
pub open spec fn spec_upload_failure(status: u16, body: Seq<char>) -> Seq<char> {
    "POST /api/ots/trajectories failed (HTTP "@ + crate::text::decimal(status as nat) + "): "@
        + crate::trajectory::spec_truncate_body(body)
}

/// Whether an upload's status is a success.
pub fn upload_accepted(status: u16) -> (res: bool)
    ensures
        res == (200 <= status && status < 300),
{
    200 <= status && status < 300
}

/// The message of a refused trajectory upload.
pub fn upload_failure(status: u16, body: &str) -> (res: String)
    ensures
        res@ == spec_upload_failure(status, body@),
{
    let mut m = String::from_str("POST /api/ots/trajectories failed (HTTP ");
    m.append(crate::text::string_from_chars(&crate::text::decimal_chars(status as u64)).as_str());
    m.append("): ");
    m.append(crate::trajectory::truncate_body(body).as_str());
    m
}

/// The message of an emission that failed on the way.
pub fn emission_error(session_id: &str, error: &str) -> (res: String)
    ensures
        res@ == "emit_ots_trajectory failed for "@ + session_id@ + ": "@ + error@,
{
    let mut m = String::from_str("emit_ots_trajectory failed for ");
    m.append(session_id);
    m.append(": ");
    m.append(error);
    m
}


/// A session is refused exactly when its status is not `Completed`,
/// `Failed` or `Cancelled`, and the refusal names the session and then its
/// status.
pub proof fn law_terminal_refusal(session_id: Seq<char>, status: Seq<char>)
    ensures
        spec_terminal_refusal(session_id, status) is None <==> (status == "Completed"@ || status == "Failed"@
            || status == "Cancelled"@),
        spec_terminal_refusal(session_id, status) matches Some(m) ==> crate::text::has_prefix(
            m,
            "emit_ots_trajectory: session "@ + session_id,
        ) && crate::text::has_suffix(m, "(status="@ + status + ")"@),
{
    if !is_terminal(status) {
        let m = "emit_ots_trajectory: session "@ + session_id + " not in terminal state (status="@ + status + ")"@;
        assert(spec_terminal_refusal(session_id, status) == Some(m));
        let p = "emit_ots_trajectory: session "@ + session_id;
        let t = "(status="@ + status + ")"@;
        reveal_strlit(" not in terminal state (status=");
        reveal_strlit("(status=");
        let l = " not in terminal state (status="@;
        assert(l.subrange(l.len() - 8, l.len() as int) =~= "(status="@);
        assert(m =~= p + l.subrange(0, l.len() - 8) + t);
        assert(m.subrange(0, p.len() as int) =~= p);
        assert(m.subrange(m.len() - t.len(), m.len() as int) =~= t);
    }
}


/// A trajectory keeps the id the session's fields give when it is not
/// empty; otherwise it is `trj-` followed by the session id.
pub proof fn law_trajectory_id(fields: JsonV, session_id: Seq<char>, given: Option<Seq<char>>)
    requires
        given == opt_str(spec_get(fields, "trajectory_id"@)),
    ensures
        given is Some && given->0.len() > 0 ==> spec_trajectory_id(fields, session_id) == given->0,
        !(given is Some && given->0.len() > 0) ==> spec_trajectory_id(fields, session_id) == "trj-"@ + session_id,
{
}

/// A trajectory emitted without degradations is `emitted` with no error; one
/// emitted with some is `emitted_degraded`, its error listing the
/// degradations, the first first and the last last.
pub proof fn law_emission_status(degradations: Seq<Seq<char>>)
    ensures
        degradations.len() == 0 ==> spec_emission_status(degradations) == ("emitted"@, Seq::<char>::empty()),
        degradations.len() > 0 ==> spec_emission_status(degradations).0 == "emitted_degraded"@
            && crate::text::has_prefix(spec_emission_status(degradations).1, degradations[0])
            && crate::text::has_suffix(spec_emission_status(degradations).1, degradations.last()),
{
    if degradations.len() > 0 {
        lemma_join_ends(degradations);
    }
}

/// A joined list starts with its first part and ends with its last.
proof fn lemma_join_ends(parts: Seq<Seq<char>>)
    requires
        parts.len() > 0,
    ensures
        crate::text::has_prefix(join_sep(parts, ","@), parts[0]),
        crate::text::has_suffix(join_sep(parts, ","@), parts.last()),
    decreases parts.len(),
{
    let j = join_sep(parts, ","@);
    if parts.len() == 1 {
        assert(j.subrange(0, parts[0].len() as int) =~= parts[0]);
        assert(j.subrange(j.len() - parts.last().len(), j.len() as int) =~= parts.last());
    } else {
        let init = parts.drop_last();
        lemma_join_ends(init);
        let ji = join_sep(init, ","@);
        assert(init[0] == parts[0]);
        assert(j == ji + ","@ + parts.last());
        assert(ji.subrange(0, parts[0].len() as int) =~= parts[0]);
        assert(j.subrange(0, parts[0].len() as int) =~= ji.subrange(0, parts[0].len() as int));
        assert(j.subrange(j.len() - parts.last().len(), j.len() as int) =~= parts.last());
    }
}

} // verus!
