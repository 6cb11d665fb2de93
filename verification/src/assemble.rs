//! Assembling the complete OTS trajectory document of a finished session.

use vstd::prelude::*;
use vstd::string::{StrSliceExecFns, StringExecFns};
use crate::chain::{
    TreeEntry, TurnDraft, claim_span, first_unclaimed, group_from, group_turns, queue_for, queues_in_range,
    resolve_chain, spec_claim, spec_resolve_chain, turn_view,
};
use crate::json::{
    Json, JsonNumber, JsonV, items_view, lemma_items_view, lemma_items_view_empty, lemma_members_view,
    lemma_members_view_empty, members_view, opt_json, push_item, push_member, spec_get,
};
use crate::session::str_or;
use crate::text::{opt_string, str_eq};

verus! {

/// Whether, and how, the transcript behind a session was read.
#[derive(Clone, Copy, Debug, PartialEq, Eq)]
pub enum TranscriptPresence {
    /// The transcript was read.
    Present,
    /// The declared transcript file does not exist.
    MissingFile,
    /// The transcript file exists and is empty.
    EmptyFile,
    /// The session ended before its first turn was written.
    PendingFirstTurn,
    /// The session has no transcript entries.
    NoEntries,
    /// The session declares no transcript.
    Undeclared,
}

impl TranscriptPresence {
    /// The transcript was read.
    pub open spec fn spec_is_present(self) -> bool {
        self is Present
    }

    /// The name of the presence state.
    pub open spec fn spec_as_str(self) -> Seq<char> {
        match self {
            TranscriptPresence::Present => "present"@,
            TranscriptPresence::MissingFile => "missing_file"@,
            TranscriptPresence::EmptyFile => "empty_file"@,
            TranscriptPresence::PendingFirstTurn => "pending_first_turn"@,
            TranscriptPresence::NoEntries => "no_entries"@,
            TranscriptPresence::Undeclared => "undeclared"@,
        }
    }

    /// Whether the transcript was read.
    pub fn is_present(&self) -> (res: bool)
        ensures
            res == self.spec_is_present(),
    {
        match self {
            TranscriptPresence::Present => true,
            _ => false,
        }
    }

    /// The name of the presence state.
    pub fn as_str(&self) -> (res: &'static str)
        ensures
            res@ == self.spec_as_str(),
    {
        match self {
            TranscriptPresence::Present => "present",
            TranscriptPresence::MissingFile => "missing_file",
            TranscriptPresence::EmptyFile => "empty_file",
            TranscriptPresence::PendingFirstTurn => "pending_first_turn",
            TranscriptPresence::NoEntries => "no_entries",
            TranscriptPresence::Undeclared => "undeclared",
        }
    }
}

/// Everything the emitter knows about a finished session.
pub struct TrajectoryInputs<'a> {
    /// Stable trajectory id (`trj-<session_id>`), the idempotency key.
    pub trajectory_id: &'a str,
    /// Session entity id.
    pub session_id: &'a str,
    /// Owning agent entity id.
    pub agent_id: &'a str,
    /// Terminal session status (`Completed` / `Failed` / `Cancelled`).
    pub status: &'a str,
    /// Session entity `fields` object.
    pub fields: &'a Json,
    /// Session tree as JSONL (one entry per line), oldest first.
    pub session_jsonl: &'a str,
    /// Per-session tool-span JSONL.
    pub tool_spans_jsonl: &'a str,
    /// Full entity state (used for the event log).
    pub entity_state: &'a Json,
    /// Identity of the governing actor spec (`<app>@<version>`).
    pub spec_version: &'a str,
    /// Whether the transcript behind `session_jsonl` was actually there.
    pub transcript: TranscriptPresence,
    /// Whether a declared tool-span file could not be found.
    pub tool_spans_missing: bool,
}

/// The call id a span carries.
pub open spec fn span_call_id(span: JsonV) -> Option<Seq<char>> {
    crate::json::opt_str(spec_get(span, "tool_call_id"@))
}

/// The indices, in execution order, of the first `n` spans that carry `id`.
pub open spec fn queue_upto(spans: Seq<JsonV>, id: Seq<char>, n: int) -> Seq<usize>
    decreases n,
{
    if n <= 0 {
        seq![]
    } else {
        let q = queue_upto(spans, id, n - 1);
        if span_call_id(spans[n - 1]) == Some(id) {
            q.push((n - 1) as usize)
        } else {
            q
        }
    }
}

/// The indices, in execution order, of the spans that carry `id`.
pub open spec fn queue_of(spans: Seq<JsonV>, id: Seq<char>) -> Seq<usize> {
    queue_upto(spans, id, spans.len() as int)
}

/// The span a call with `id` claims: the earliest span carrying the id that
/// no earlier call claimed.
pub open spec fn claimable(spans: Seq<JsonV>, claimed: Seq<bool>, id: Seq<char>) -> Option<usize> {
    first_unclaimed(queue_of(spans, id), claimed)
}

/// The queues hold, for each id among the first `n` spans, its indices among
/// them, and nothing else.
pub open spec fn queues_match(queues: Seq<(String, Vec<usize>)>, spans: Seq<JsonV>, n: int) -> bool {
    &&& forall|q: int| 0 <= q < queues.len() ==> (#[trigger] queues[q]).1@ == queue_upto(spans, queues[q].0@, n)
    &&& forall|q: int| 0 <= q < queues.len() ==> queue_upto(spans, (#[trigger] queues[q]).0@, n).len() > 0
    &&& forall|k: int|
        0 <= k < n && (#[trigger] span_call_id(spans[k])) is Some ==> exists|q: int|
            0 <= q < queues.len() && (#[trigger] queues[q]).0@ == span_call_id(spans[k]).unwrap()
}

/// Queued indices stay below the count of spans queued.
proof fn lemma_queue_upto_range(spans: Seq<JsonV>, id: Seq<char>, n: int)
    requires
        n <= usize::MAX as int + 1,
    ensures
        forall|k: int| 0 <= k < queue_upto(spans, id, n).len() ==> (#[trigger] queue_upto(spans, id, n)[k] as int) < n,
    decreases n,
{
    if n > 0 {
        lemma_queue_upto_range(spans, id, n - 1);
        let q = queue_upto(spans, id, n - 1);
        if span_call_id(spans[n - 1]) == Some(id) {
            assert forall|k: int| 0 <= k < queue_upto(spans, id, n).len() implies (#[trigger] queue_upto(
                spans,
                id,
                n,
            )[k] as int) < n by {
                if k < q.len() {
                    assert(queue_upto(spans, id, n)[k] == q[k]);
                }
            }
        }
    }
}

/// Queue keys are distinct.
pub open spec fn keys_unique(queues: Seq<(String, Vec<usize>)>) -> bool {
    forall|a: int, b: int| 0 <= a < queues.len() && 0 <= b < queues.len() && a != b ==> (#[trigger] queues[a]).0@ != (
    #[trigger] queues[b]).0@
}

/// An id no span among the first `n` carries has an empty queue.
proof fn lemma_queue_upto_absent(spans: Seq<JsonV>, id: Seq<char>, n: int)
    requires
        forall|k: int| 0 <= k < n ==> span_call_id(#[trigger] spans[k]) != Some(id),
    ensures
        queue_upto(spans, id, n).len() == 0,
    decreases n,
{
    if n > 0 {
        lemma_queue_upto_absent(spans, id, n - 1);
    }
}

/// A nonempty queue means some span carries the id.
proof fn lemma_queue_upto_witness(spans: Seq<JsonV>, id: Seq<char>, n: int)
    requires
        queue_upto(spans, id, n).len() > 0,
    ensures
        exists|k: int| 0 <= k < n && span_call_id(#[trigger] spans[k]) == Some(id),
    decreases n,
{
    if n > 0 {
        if span_call_id(spans[n - 1]) != Some(id) {
            lemma_queue_upto_witness(spans, id, n - 1);
        }
    }
}

/// What `queue_for` finds is the first queue under the key.
proof fn lemma_queue_for(queues: Seq<(String, Vec<usize>)>, id: Seq<char>)
    ensures
        queue_for(queues, id) matches Some(x) ==> exists|q: int|
            0 <= q < queues.len() && (#[trigger] queues[q]).0@ == id && x == queues[q].1@,
        queue_for(queues, id) is None ==> forall|q: int| 0 <= q < queues.len() ==> (#[trigger] queues[q]).0@ != id,
    decreases queues.len(),
{
    if queues.len() > 0 {
        lemma_queue_for(queues.drop_first(), id);
        if queues[0].0@ != id {
            if let Some(x) = queue_for(queues.drop_first(), id) {
                let q = choose|q: int|
                    0 <= q < queues.drop_first().len() && (#[trigger] queues.drop_first()[q]).0@ == id && x
                        == queues.drop_first()[q].1@;
                assert(queues[q + 1] == queues.drop_first()[q]);
            } else {
                assert forall|q: int| 0 <= q < queues.len() implies (#[trigger] queues[q]).0@ != id by {
                    if q > 0 {
                        assert(queues[q] == queues.drop_first()[q - 1]);
                    }
                }
            }
        }
    }
}

/// A claimable span is one of the spans.
pub proof fn lemma_claimable_in_range(spans: Seq<JsonV>, claimed: Seq<bool>, id: Seq<char>)
    requires
        spans.len() <= usize::MAX,
    ensures
        claimable(spans, claimed, id) matches Some(i) ==> (i as int) < spans.len(),
{
    let q = queue_of(spans, id);
    lemma_queue_upto_range(spans, id, spans.len() as int);
    crate::chain::law_claims_are_first_come(q, claimed);
}

/// Queues built from the spans hand out exactly the claimable span.
pub proof fn lemma_claim_matches(queues: Seq<(String, Vec<usize>)>, spans: Seq<JsonV>, claimed: Seq<bool>, id: Seq<char>)
    requires
        queues_match(queues, spans, spans.len() as int),
        spans.len() <= usize::MAX,
    ensures
        spec_claim(queues, claimed, id) == claimable(spans, claimed, id),
        queues_in_range(queues, spans.len() as int),
{
    lemma_queue_for(queues, id);
    match queue_for(queues, id) {
        Some(x) => {},
        None => {
            assert forall|k: int| 0 <= k < spans.len() implies span_call_id(#[trigger] spans[k]) != Some(id) by {
                if span_call_id(spans[k]) == Some(id) {
                    let q = choose|q: int| 0 <= q < queues.len() && (#[trigger] queues[q]).0@ == id;
                }
            }
            lemma_queue_upto_absent(spans, id, spans.len() as int);
        },
    }
    assert forall|q: int, k: int| 0 <= q < queues.len() && 0 <= k < queues[q].1@.len() implies (
    #[trigger] queues[q].1@[k] as int) < spans.len() by {
        lemma_queue_upto_range(spans, queues[q].0@, spans.len() as int);
    }
}

/// The position of the queue under `id`, if there is one.
fn find_queue(queues: &Vec<(String, Vec<usize>)>, id: &str) -> (res: Option<usize>)
    ensures
        match res {
            Some(q) => q < queues@.len() && queues@[q as int].0@ == id@,
            None => forall|p: int| 0 <= p < queues@.len() ==> (#[trigger] queues@[p]).0@ != id@,
        },
{
    let mut q: usize = 0;
    while q < queues.len()
        invariant
            q <= queues@.len(),
            forall|p: int| 0 <= p < q ==> (#[trigger] queues@[p]).0@ != id@,
        decreases queues@.len() - q,
    {
        if str_eq(queues[q].0.as_str(), id) {
            return Some(q);
        }
        q += 1;
    }
    None
}

/// A copy of a list of indices.
fn copy_indices(v: &Vec<usize>) -> (res: Vec<usize>)
    ensures
        res@ == v@,
{
    let mut out: Vec<usize> = Vec::new();
    let mut i: usize = 0;
    while i < v.len()
        invariant
            i <= v@.len(),
            out@ == v@.take(i as int),
        decreases v@.len() - i,
    {
        out.push(v[i]);
        assert(out@ =~= v@.take(i + 1));
        i += 1;
    }
    assert(v@.take(i as int) =~= v@);
    out
}

/// The span queues by call id, each in execution order.
pub fn span_queues(spans: &Vec<Json>) -> (res: Vec<(String, Vec<usize>)>)
    ensures
        queues_match(res@, items_view(spans@), spans@.len() as int),
        keys_unique(res@),
{
    let ghost sv = items_view(spans@);
    proof {
        lemma_items_view(spans@);
    }
    let mut queues: Vec<(String, Vec<usize>)> = Vec::new();
    let mut i: usize = 0;
    while i < spans.len()
        invariant
            i <= spans@.len(),
            sv == items_view(spans@),
            sv.len() == spans@.len(),
            forall|k: int| 0 <= k < spans@.len() ==> #[trigger] sv[k] == spans@[k]@,
            queues_match(queues@, sv, i as int),
            keys_unique(queues@),
        decreases spans@.len() - i,
    {
        let ghost old_queues = queues@;
        let ghost n = i as int;
        match spans[i].get_str("tool_call_id") {
            Some(id) => {
                assert(span_call_id(sv[n]) == Some(id@));
                match find_queue(&queues, id) {
                    Some(q) => {
                        let mut grown = copy_indices(&queues[q].1);
                        grown.push(i);
                        let key = queues[q].0.clone();
                        queues.set(q, (key, grown));
                        assert(keys_unique(queues@)) by {
                            assert forall|a: int, b: int|
                                0 <= a < queues@.len() && 0 <= b < queues@.len() && a != b implies (
                            #[trigger] queues@[a]).0@ != (#[trigger] queues@[b]).0@ by {
                                assert(queues@[a].0@ == old_queues[a].0@);
                                assert(queues@[b].0@ == old_queues[b].0@);
                            }
                        }
                        assert forall|p: int| 0 <= p < queues@.len() implies (#[trigger] queues@[p]).1@
                            == queue_upto(sv, queues@[p].0@, n + 1) && queue_upto(sv, queues@[p].0@, n + 1).len() > 0 by {
                            if p == q {
                                assert(grown@ =~= old_queues[p].1@.push(i));
                            } else {
                                assert(queues@[p] == old_queues[p]);
                                assert(old_queues[p].0@ != id@);
                            }
                        }
                        assert forall|k: int| 0 <= k < n + 1 && (#[trigger] span_call_id(sv[k])) is Some implies exists|p: int|
                            0 <= p < queues@.len() && (#[trigger] queues@[p]).0@ == span_call_id(sv[k]).unwrap() by {
                            if let Some(kid) = span_call_id(sv[k]) {
                                if k < n {
                                    let p = choose|p: int| 0 <= p < old_queues.len() && (#[trigger] old_queues[p]).0@ == kid;
                                    assert(queues@[p].0@ == kid);
                                } else {
                                    assert(queues@[q as int].0@ == kid);
                                }
                            }
                        }
                    },
                    None => {
                        let mut fresh: Vec<usize> = Vec::new();
                        fresh.push(i);
                        queues.push((id.to_string(), fresh));
                        proof {
                            assert forall|k: int| 0 <= k < n implies span_call_id(#[trigger] sv[k]) != Some(id@) by {
                                if span_call_id(sv[k]) == Some(id@) {
                                    let p = choose|p: int| 0 <= p < old_queues.len() && (#[trigger] old_queues[p]).0@ == id@;
                                }
                            }
                            lemma_queue_upto_absent(sv, id@, n);
                            assert(fresh@ =~= seq![i]);
                            assert(keys_unique(queues@)) by {
                                assert forall|a: int, b: int|
                                    0 <= a < queues@.len() && 0 <= b < queues@.len() && a != b implies (
                                #[trigger] queues@[a]).0@ != (#[trigger] queues@[b]).0@ by {
                                    if a < old_queues.len() {
                                        assert(queues@[a] == old_queues[a]);
                                    }
                                    if b < old_queues.len() {
                                        assert(queues@[b] == old_queues[b]);
                                    }
                                }
                            }
                        }
                        assert forall|p: int| 0 <= p < queues@.len() implies (#[trigger] queues@[p]).1@
                            == queue_upto(sv, queues@[p].0@, n + 1) && queue_upto(sv, queues@[p].0@, n + 1).len() > 0 by {
                            if p < old_queues.len() {
                                assert(queues@[p] == old_queues[p]);
                                assert(old_queues[p].0@ != id@);
                            } else {
                                assert(queue_upto(sv, id@, n) =~= seq![]);
                            }
                        }
                        assert forall|k: int| 0 <= k < n + 1 && (#[trigger] span_call_id(sv[k])) is Some implies exists|p: int|
                            0 <= p < queues@.len() && (#[trigger] queues@[p]).0@ == span_call_id(sv[k]).unwrap() by {
                            if let Some(kid) = span_call_id(sv[k]) {
                                if k < n {
                                    let p = choose|p: int| 0 <= p < old_queues.len() && (#[trigger] old_queues[p]).0@ == kid;
                                    assert(queues@[p] == old_queues[p]);
                                } else {
                                    assert(queues@[old_queues.len() as int].0@ == kid);
                                }
                            }
                        }
                    },
                }
            },
            None => {
                assert(span_call_id(sv[n]) is None);
                assert forall|p: int| 0 <= p < queues@.len() implies (#[trigger] queues@[p]).1@ == queue_upto(
                    sv,
                    queues@[p].0@,
                    n + 1,
                ) && queue_upto(sv, queues@[p].0@, n + 1).len() > 0 by {}
                assert forall|k: int| 0 <= k < n + 1 && (#[trigger] span_call_id(sv[k])) is Some implies exists|p: int|
                    0 <= p < queues@.len() && (#[trigger] queues@[p]).0@ == span_call_id(sv[k]).unwrap() by {
                    if let Some(kid) = span_call_id(sv[k]) {
                        let p = choose|p: int| 0 <= p < old_queues.len() && (#[trigger] old_queues[p]).0@ == kid;
                    }
                }
            },
        }
        i += 1;
    }
    queues
}

/// `a + b` wrapped to 64 bits.
pub open spec fn wrap_add(a: u64, b: u64) -> u64 {
    if a + b > u64::MAX {
        (a + b - 0x1_0000_0000_0000_0000) as u64
    } else {
        (a + b) as u64
    }
}

/// `a.wrapping_add(b)`.
fn wrapping_add(a: u64, b: u64) -> (res: u64)
    ensures
        res == wrap_add(a, b),
{
    if a > u64::MAX - b {
        a - (u64::MAX - b) - 1
    } else {
        a + b
    }
}

/// The first observation recorded for `id`.
pub open spec fn first_observation(obs: Seq<(Seq<char>, bool, Seq<char>)>, id: Seq<char>) -> Option<(bool, Seq<char>)>
    decreases obs.len(),
{
    if obs.len() == 0 {
        None
    } else if obs[0].0 == id {
        Some((obs[0].1, obs[0].2))
    } else {
        first_observation(obs.drop_first(), id)
    }
}

/// The ids of some calls.
pub open spec fn id_seq(calls: Seq<(Seq<char>, Seq<char>, Option<JsonV>)>) -> Seq<Seq<char>> {
    calls.map_values(|c: (Seq<char>, Seq<char>, Option<JsonV>)| c.0)
}

/// The calls that only an observation names, in order: one per id that
/// neither `named` nor an earlier observation already gave a call.
pub open spec fn extra_calls(
    obs: Seq<(Seq<char>, bool, Seq<char>)>,
    named: Seq<Seq<char>>,
) -> Seq<(Seq<char>, Seq<char>, Option<JsonV>)>
    decreases obs.len(),
{
    if obs.len() == 0 {
        seq![]
    } else {
        let prev = extra_calls(obs.drop_last(), named);
        let id = obs.last().0;
        if named.contains(id) || id_seq(prev).contains(id) {
            prev
        } else {
            prev.push((id, "unknown"@, None))
        }
    }
}

/// A turn's calls: the assistant's own, then one per observed id the
/// assistant did not name.
pub open spec fn turn_calls(
    assistant_calls: Seq<(Seq<char>, Seq<char>, Option<JsonV>)>,
    obs: Seq<(Seq<char>, bool, Seq<char>)>,
) -> Seq<(Seq<char>, Seq<char>, Option<JsonV>)> {
    assistant_calls + extra_calls(obs, id_seq(assistant_calls))
}

/// The span a claim hands out, as a value.
pub open spec fn claimed_span(spans: Seq<JsonV>, idx: Option<usize>) -> Option<JsonV> {
    match idx {
        Some(i) => Some(spans[i as int]),
        None => None,
    }
}

/// The decisions of a turn's calls, in call order, each claiming its span
/// and charging the inline budget: the decisions, whether any failed, their
/// summed duration, the claim table after, and the budget left after.
pub open spec fn decide_calls(
    calls: Seq<(Seq<char>, Seq<char>, Option<JsonV>)>,
    obs: Seq<(Seq<char>, bool, Seq<char>)>,
    spans: Seq<JsonV>,
    claimed: Seq<bool>,
    remaining: int,
) -> (Seq<JsonV>, bool, u64, Seq<bool>, int)
    decreases calls.len(),
{
    if calls.len() == 0 {
        (seq![], false, 0, claimed, remaining)
    } else {
        let (ds, err, dur, cl, rem) = decide_calls(calls.drop_last(), obs, spans, claimed, remaining);
        let c = calls.last();
        let idx = claimable(spans, cl, c.0);
        let cl2 = match idx {
            Some(i) => cl.update(i as int, true),
            None => cl,
        };
        let span = claimed_span(spans, idx);
        let observation = first_observation(obs, c.0);
        let (d, rem2) = crate::trajectory::spec_build_decision(c, observation, span, rem);
        let failed = crate::trajectory::decision_outcome(observation, span).0;
        let took = match crate::trajectory::opt_get(span, "duration_ms"@) {
            Some(x) => match crate::session::spec_json_u64(x) {
                Some(v) => v,
                None => 0,
            },
            None => 0,
        };
        (ds.push(d), err || failed, wrap_add(dur, took), cl2, rem2)
    }
}

/// Whether `s` is among the strings.
fn contains_string(v: &Vec<String>, s: &str) -> (res: bool)
    ensures
        res == v@.map_values(|x: String| x@).contains(s@),
{
    let ghost vv = v@.map_values(|x: String| x@);
    let mut i: usize = 0;
    while i < v.len()
        invariant
            i <= v@.len(),
            vv == v@.map_values(|x: String| x@),
            forall|k: int| 0 <= k < i ==> vv[k] != s@,
        decreases v@.len() - i,
    {
        if str_eq(v[i].as_str(), s) {
            assert(vv[i as int] == s@);
            return true;
        }
        i += 1;
    }
    false
}

/// The calls as plain values.
pub open spec fn calls_view(calls: Seq<crate::trajectory::ToolCall>) -> Seq<(Seq<char>, Seq<char>, Option<JsonV>)> {
    calls.map_values(|c: crate::trajectory::ToolCall| crate::trajectory::call_view(c))
}

/// The observations as plain values.
pub open spec fn obs_view(obs: Seq<(String, crate::trajectory::Observation)>) -> Seq<(Seq<char>, bool, Seq<char>)> {
    obs.map_values(|o: (String, crate::trajectory::Observation)| crate::trajectory::observation_view(o))
}

/// A turn's calls: the assistant's own, then one for each observed call id
/// the assistant did not name.
pub fn turn_call_list(
    assistant_calls: Vec<crate::trajectory::ToolCall>,
    obs: &Vec<(String, crate::trajectory::Observation)>,
) -> (res: Vec<crate::trajectory::ToolCall>)
    ensures
        calls_view(res@) == turn_calls(calls_view(assistant_calls@), obs_view(obs@)),
{
    let ghost base = calls_view(assistant_calls@);
    let ghost ov = obs_view(obs@);
    let mut named: Vec<String> = Vec::new();
    let mut j: usize = 0;
    while j < assistant_calls.len()
        invariant
            j <= assistant_calls@.len(),
            base == calls_view(assistant_calls@),
            named@.map_values(|x: String| x@) == id_seq(base.take(j as int)),
        decreases assistant_calls@.len() - j,
    {
        named.push(assistant_calls[j].id.clone());
        assert(id_seq(base.take(j + 1)) =~= id_seq(base.take(j as int)).push(base[j as int].0));
        assert(named@.map_values(|x: String| x@) =~= id_seq(base.take(j + 1)));
        j += 1;
    }
    assert(base.take(j as int) =~= base);
    let ghost named0 = id_seq(base);
    let mut calls = assistant_calls;
    let mut i: usize = 0;
    proof {
        assert(ov.take(0) =~= Seq::<(Seq<char>, bool, Seq<char>)>::empty());
        assert(calls_view(calls@) =~= base + extra_calls(ov.take(0), named0));
    }
    while i < obs.len()
        invariant
            i <= obs@.len(),
            ov == obs_view(obs@),
            named0 == id_seq(base),
            calls_view(calls@) == base + extra_calls(ov.take(i as int), named0),
            named@.map_values(|x: String| x@) == named0 + id_seq(extra_calls(ov.take(i as int), named0)),
        decreases obs@.len() - i,
    {
        let ghost prev = extra_calls(ov.take(i as int), named0);
        proof {
            assert(ov.take(i + 1).drop_last() =~= ov.take(i as int));
            assert(ov.take(i + 1).last() == ov[i as int]);
            assert(ov[i as int].0 == obs@[i as int].0@);
        }
        let id = obs[i].0.as_str();
        if !contains_string(&named, id) {
            proof {
                assert(!named0.contains(id@)) by {
                    if named0.contains(id@) {
                        let k = choose|k: int| 0 <= k < named0.len() && named0[k] == id@;
                        assert((named0 + id_seq(prev))[k] == id@);
                    }
                }
                assert(!id_seq(prev).contains(id@)) by {
                    if id_seq(prev).contains(id@) {
                        let k = choose|k: int| 0 <= k < id_seq(prev).len() && id_seq(prev)[k] == id@;
                        assert((named0 + id_seq(prev))[named0.len() + k] == id@);
                    }
                }
            }
            let ghost calls_before = calls@;
            let ghost named_before = named@;
            named.push(obs[i].0.clone());
            let call = crate::trajectory::ToolCall { id: obs[i].0.clone(), name: "unknown".to_string(), arguments: None };
            assert(crate::trajectory::call_view(call) == (id@, "unknown"@, None::<JsonV>));
            calls.push(call);
            proof {
                assert(calls@ == calls_before.push(call));
                assert(calls_view(calls@) =~= calls_view(calls_before).push(crate::trajectory::call_view(call)));
                assert(named@.map_values(|x: String| x@) =~= named_before.map_values(|x: String| x@).push(id@));
                let newp = prev.push((id@, "unknown"@, None));
                assert(extra_calls(ov.take(i + 1), named0) == newp);
                assert(calls_view(calls@) =~= base + newp);
                assert(id_seq(newp) =~= id_seq(prev).push(id@));
                assert(named@.map_values(|x: String| x@) =~= named0 + id_seq(newp));
            }
        } else {
            proof {
                let all = named0 + id_seq(prev);
                let k = choose|k: int| 0 <= k < all.len() && all[k] == id@;
                if k < named0.len() {
                    assert(named0[k] == id@);
                    assert(named0.contains(id@));
                } else {
                    assert(id_seq(prev)[k - named0.len()] == id@);
                    assert(id_seq(prev).contains(id@));
                }
                assert(extra_calls(ov.take(i + 1), named0) == prev);
            }
        }
        i += 1;
    }
    assert(ov.take(i as int) =~= ov);
    calls
}

/// The first observation recorded for `id`.
fn find_observation<'a>(obs: &'a Vec<(String, crate::trajectory::Observation)>, id: &str) -> (res: Option<
    &'a crate::trajectory::Observation,
>)
    ensures
        crate::trajectory::opt_observation(res) == first_observation(obs_view(obs@), id@),
{
    let ghost ov = obs_view(obs@);
    let mut i: usize = 0;
    assert(ov.skip(0) =~= ov);
    while i < obs.len()
        invariant
            i <= obs@.len(),
            ov == obs_view(obs@),
            first_observation(ov, id@) == first_observation(ov.skip(i as int), id@),
        decreases obs@.len() - i,
    {
        assert(ov.skip(i as int).drop_first() =~= ov.skip(i + 1));
        assert(ov.skip(i as int)[0] == ov[i as int]);
        if str_eq(obs[i].0.as_str(), id) {
            return Some(&obs[i].1);
        }
        i += 1;
    }
    None
}

/// The decisions of a turn's calls, in call order: each claims its span,
/// takes its observation, and charges the inline budget. Returns the
/// decisions, whether any failed, and their summed duration.
pub fn decide_turn(
    calls: &Vec<crate::trajectory::ToolCall>,
    obs: &Vec<(String, crate::trajectory::Observation)>,
    spans: &Vec<Json>,
    queues: &Vec<(String, Vec<usize>)>,
    claimed: &mut Vec<bool>,
    budget: &mut crate::ots::InlineBudget,
) -> (res: (Vec<Json>, bool, u64))
    requires
        queues_match(queues@, items_view(spans@), spans@.len() as int),
        old(claimed)@.len() == spans@.len(),
    ensures
        ({
            let (ds, err, dur, cl, rem) = decide_calls(
                calls_view(calls@),
                obs_view(obs@),
                items_view(spans@),
                old(claimed)@,
                old(budget).remaining as int,
            );
            &&& items_view(res.0@) == ds
            &&& res.1 == err
            &&& res.2 == dur
            &&& final(claimed)@ == cl
            &&& final(budget).remaining == rem
        }),
        final(claimed)@.len() == old(claimed)@.len(),
{
    let ghost cv = calls_view(calls@);
    let ghost ov = obs_view(obs@);
    let ghost sv = items_view(spans@);
    let ghost claimed0 = claimed@;
    let ghost rem0 = budget.remaining as int;
    proof {
        lemma_items_view(spans@);
    }
    let n_spans = spans.len();
    let mut decisions: Vec<Json> = Vec::new();
    let mut error = false;
    let mut duration: u64 = 0;
    proof {
        lemma_items_view_empty(decisions@);
        assert(cv.take(0) =~= Seq::<(Seq<char>, Seq<char>, Option<JsonV>)>::empty());
    }
    let mut i: usize = 0;
    while i < calls.len()
        invariant
            i <= calls@.len(),
            cv == calls_view(calls@),
            ov == obs_view(obs@),
            sv == items_view(spans@),
            sv.len() == spans@.len(),
            n_spans == spans@.len(),
            forall|k: int| 0 <= k < spans@.len() ==> #[trigger] sv[k] == spans@[k]@,
            queues_match(queues@, sv, spans@.len() as int),
            claimed@.len() == spans@.len(),
            ({
                let (ds, err, dur, cl, rem) = decide_calls(cv.take(i as int), ov, sv, claimed0, rem0);
                &&& items_view(decisions@) == ds
                &&& error == err
                &&& duration == dur
                &&& claimed@ == cl
                &&& budget.remaining == rem
            }),
        decreases calls@.len() - i,
    {
        let call = &calls[i];
        proof {
            assert(cv.take(i + 1).drop_last() =~= cv.take(i as int));
            assert(cv.take(i + 1).last() == cv[i as int]);
            assert(cv[i as int] == crate::trajectory::call_view(*call));
            lemma_claim_matches(queues@, sv, claimed@, call.id@);
            lemma_claimable_in_range(sv, claimed@, call.id@);
        }
        let idx = claim_span(queues, claimed, call.id.as_str());
        let span: Option<&Json> = match idx {
            Some(k) => Some(&spans[k]),
            None => None,
        };
        assert(opt_json(span) == claimed_span(sv, idx));
        let observation = find_observation(obs, call.id.as_str());
        let ghost outcome = crate::trajectory::decision_outcome(
            crate::trajectory::opt_observation(observation),
            opt_json(span),
        );
        let decision = crate::trajectory::build_decision(call, observation, span, budget);
        let failed = match observation {
            Some(o) => o.is_error,
            None => match span {
                Some(sp) => match sp.get_bool("is_error") {
                    Some(b) => b,
                    None => false,
                },
                None => false,
            },
        };
        assert(failed == outcome.0);
        let took: u64 = match span {
            Some(sp) => match crate::session::get_u64(sp, "duration_ms") {
                Some(v) => v,
                None => 0,
            },
            None => 0,
        };
        push_item(&mut decisions, decision);
        error = error || failed;
        duration = wrapping_add(duration, took);
        i += 1;
    }
    assert(cv.take(i as int) =~= cv);
    (decisions, error, duration)
}

/// Every index a turn grouping holds lies below `n` when the chain's and
/// the open prompt's do.
proof fn lemma_group_in_range(entries: Seq<TreeEntry>, chain: Seq<usize>, prompt: Seq<usize>, n: int)
    requires
        forall|k: int| 0 <= k < chain.len() ==> (chain[k] as int) < n,
        forall|k: int| 0 <= k < prompt.len() ==> (prompt[k] as int) < n,
    ensures
        forall|t: int| 0 <= t < group_from(entries, chain, prompt).len() ==> drafts_in_range(
            #[trigger] group_from(entries, chain, prompt)[t],
            n,
        ),
    decreases chain.len(),
{
    let g = group_from(entries, chain, prompt);
    if chain.len() == 0 {
        if prompt.len() > 0 {
            assert(g == seq![(prompt, None::<usize>)]);
            assert(drafts_in_range(g[0], n));
        }
    } else {
        let i = chain[0];
        let rest = chain.drop_first();
        assert forall|k: int| 0 <= k < rest.len() implies (rest[k] as int) < n by {
            assert(rest[k] == chain[k + 1]);
        }
        if entries[i as int].spec_is_header() {
            lemma_group_in_range(entries, rest, prompt, n);
            assert(g == group_from(entries, rest, prompt));
        } else if entries[i as int].spec_is_assistant() {
            lemma_group_in_range(entries, rest, seq![], n);
            let tail = group_from(entries, rest, seq![]);
            assert(g == seq![(prompt, Some(i))] + tail);
            assert forall|t: int| 0 <= t < g.len() implies drafts_in_range(#[trigger] g[t], n) by {
                if t > 0 {
                    assert(g[t] == tail[t - 1]);
                } else {
                    assert(g[0] == (prompt, Some(i)));
                }
            }
        } else {
            let pushed = prompt.push(i);
            assert forall|k: int| 0 <= k < pushed.len() implies (pushed[k] as int) < n by {
                if k < prompt.len() {
                    assert(pushed[k] == prompt[k]);
                }
            }
            lemma_group_in_range(entries, rest, pushed, n);
            assert(g == group_from(entries, rest, pushed));
        }
    }
}

/// A turn's indices lie below `n`.
pub open spec fn drafts_in_range(d: (Seq<usize>, Option<usize>), n: int) -> bool {
    &&& forall|p: int| 0 <= p < d.0.len() ==> (#[trigger] d.0[p] as int) < n
    &&& d.1 matches Some(a) ==> (a as int) < n
}

/// The resolved chain's indices name entries, and so do its turns'.
pub proof fn lemma_turns_in_range(entries: Seq<TreeEntry>, leaf_id: Seq<char>)
    requires
        entries.len() <= usize::MAX,
    ensures
        forall|k: int|
            0 <= k < spec_resolve_chain(entries, leaf_id).0.len() ==> (#[trigger] spec_resolve_chain(
                entries,
                leaf_id,
            ).0[k] as int) < entries.len(),
        forall|t: int|
            0 <= t < group_from(entries, spec_resolve_chain(entries, leaf_id).0, seq![]).len() ==> drafts_in_range(
                #[trigger] group_from(entries, spec_resolve_chain(entries, leaf_id).0, seq![])[t],
                entries.len() as int,
            ),
{
    let c = spec_resolve_chain(entries, leaf_id).0;
    crate::chain::law_resolved_chain_is_genuine(entries, leaf_id);
    if exists|leaf: int| crate::chain::is_chain(entries, c, leaf) {
        let leaf = choose|leaf: int| crate::chain::is_chain(entries, c, leaf);
    } else {
        assert forall|k: int| 0 <= k < c.len() implies (c[k] as int) < entries.len() by {
            assert(c[k] == k as usize);
        }
    }
    lemma_group_in_range(entries, c, seq![], entries.len() as int);
}

/// The observations recorded in the given entries, in order.
pub open spec fn prompt_observations(entries: Seq<TreeEntry>, prompt: Seq<usize>) -> Seq<(Seq<char>, bool, Seq<char>)>
    decreases prompt.len(),
{
    if prompt.len() == 0 {
        seq![]
    } else {
        prompt_observations(entries, prompt.drop_last()) + crate::trajectory::entry_observations(
            entries[prompt.last() as int],
        )
    }
}

/// The observations that answer turn `t`'s calls: those on the next turn's
/// prompt side.
pub open spec fn turn_observations(
    entries: Seq<TreeEntry>,
    drafts: Seq<(Seq<usize>, Option<usize>)>,
    t: int,
) -> Seq<(Seq<char>, bool, Seq<char>)> {
    if t + 1 < drafts.len() {
        prompt_observations(entries, drafts[t + 1].0)
    } else {
        seq![]
    }
}

/// The messages for the given entries, in order, from a budget with
/// `remaining` characters; and the budget left after.
pub open spec fn spec_messages(
    entries: Seq<TreeEntry>,
    prompt: Seq<usize>,
    timestamp: Seq<char>,
    remaining: int,
) -> (Seq<JsonV>, int)
    decreases prompt.len(),
{
    if prompt.len() == 0 {
        (seq![], remaining)
    } else {
        let (ms, r) = spec_messages(entries, prompt.drop_last(), timestamp, remaining);
        let (m, r2) = crate::message::spec_build_message(entries[prompt.last() as int], timestamp, r);
        (ms.push(m), r2)
    }
}

/// The token estimates of the given entries, summed with 64-bit wrapping.
pub open spec fn sum_tokens(entries: Seq<TreeEntry>, prompt: Seq<usize>) -> u64
    decreases prompt.len(),
{
    if prompt.len() == 0 {
        0
    } else {
        wrap_add(sum_tokens(entries, prompt.drop_last()), entries[prompt.last() as int].tokens)
    }
}

/// The messages of a turn's prompt side, then of its assistant entry.
fn turn_messages(
    entries: &Vec<TreeEntry>,
    prompt: &Vec<usize>,
    assistant: Option<usize>,
    timestamp: &str,
    budget: &mut crate::ots::InlineBudget,
) -> (res: Vec<Json>)
    requires
        drafts_in_range((prompt@, assistant), entries@.len() as int),
    ensures
        ({
            let (pm, r1) = spec_messages(entries@, prompt@, timestamp@, old(budget).remaining as int);
            let (ms, r2) = match assistant {
                Some(a) => {
                    let (m, r) = crate::message::spec_build_message(entries@[a as int], timestamp@, r1);
                    (pm.push(m), r)
                },
                None => (pm, r1),
            };
            &&& items_view(res@) == ms
            &&& final(budget).remaining == r2
        }),
{
    let ghost start = budget.remaining as int;
    let mut messages: Vec<Json> = Vec::new();
    proof {
        lemma_items_view_empty(messages@);
        assert(prompt@.take(0) =~= Seq::<usize>::empty());
    }
    let mut i: usize = 0;
    while i < prompt.len()
        invariant
            i <= prompt@.len(),
            drafts_in_range((prompt@, assistant), entries@.len() as int),
            ({
                let (ms, r) = spec_messages(entries@, prompt@.take(i as int), timestamp@, start);
                &&& items_view(messages@) == ms
                &&& budget.remaining == r
            }),
        decreases prompt@.len() - i,
    {
        proof {
            assert(prompt@.take(i + 1).drop_last() =~= prompt@.take(i as int));
            assert(prompt@.take(i + 1).last() == prompt@[i as int]);
        }
        assert(drafts_in_range((prompt@, assistant), entries@.len() as int));
        assert(((prompt@, assistant).0[i as int] as int) < entries@.len());
        let m = crate::message::build_message(&entries[prompt[i]], timestamp, budget);
        push_item(&mut messages, m);
        i += 1;
    }
    assert(prompt@.take(i as int) =~= prompt@);
    match assistant {
        Some(a) => {
            let m = crate::message::build_message(&entries[a], timestamp, budget);
            push_item(&mut messages, m);
        },
        None => {},
    }
    messages
}

/// The observations recorded on a turn's prompt side.
fn gather_observations(entries: &Vec<TreeEntry>, prompt: &Vec<usize>) -> (res: Vec<(String, crate::trajectory::Observation)>)
    requires
        forall|p: int| 0 <= p < prompt@.len() ==> (#[trigger] prompt@[p] as int) < entries@.len(),
    ensures
        obs_view(res@) == prompt_observations(entries@, prompt@),
{
    let mut out: Vec<(String, crate::trajectory::Observation)> = Vec::new();
    proof {
        assert(prompt@.take(0) =~= Seq::<usize>::empty());
        assert(obs_view(out@) =~= Seq::<(Seq<char>, bool, Seq<char>)>::empty());
    }
    let mut i: usize = 0;
    while i < prompt.len()
        invariant
            i <= prompt@.len(),
            forall|p: int| 0 <= p < prompt@.len() ==> (#[trigger] prompt@[p] as int) < entries@.len(),
            obs_view(out@) == prompt_observations(entries@, prompt@.take(i as int)),
        decreases prompt@.len() - i,
    {
        proof {
            assert(prompt@.take(i + 1).drop_last() =~= prompt@.take(i as int));
            assert(prompt@.take(i + 1).last() == prompt@[i as int]);
        }
        let found = crate::trajectory::observations_from_entry(&entries[prompt[i]]);
        let ghost before = out@;
        let mut j: usize = 0;
        while j < found.len()
            invariant
                j <= found@.len(),
                obs_view(out@) == obs_view(before) + obs_view(found@).take(j as int),
            decreases found@.len() - j,
        {
            let o = &found[j];
            let copy = (o.0.clone(), crate::trajectory::Observation { is_error: o.1.is_error, text: o.1.text.clone() });
            let ghost prev = out@;
            out.push(copy);
            assert(obs_view(out@) =~= obs_view(prev).push(crate::trajectory::observation_view(copy)));
            assert(obs_view(found@).take(j + 1) =~= obs_view(found@).take(j as int).push(
                crate::trajectory::observation_view(found@[j as int]),
            ));
            j += 1;
        }
        assert(obs_view(found@).take(j as int) =~= obs_view(found@));
        i += 1;
    }
    assert(prompt@.take(i as int) =~= prompt@);
    out
}

/// Ten to the power `m`.
pub open spec fn pow10(m: nat) -> nat
    decreases m,
{
    if m == 0 {
        1
    } else {
        10 * pow10((m - 1) as nat)
    }
}

/// A number below `10^m` (with `m >= 1`) has at most `m` decimal digits.
pub proof fn lemma_decimal_len(n: nat, m: nat)
    requires
        m >= 1,
        n < pow10(m),
    ensures
        crate::text::decimal(n).len() <= m,
    decreases n,
{
    if n >= 10 {
        let p = pow10((m - 1) as nat);
        assert(pow10(m) == 10 * p);
        assert(n / 10 < p) by (nonlinear_arith)
            requires
                n < 10 * p,
        ;
        if m == 1 {
            assert(p == 1);
        } else {
            lemma_decimal_len(n / 10, (m - 1) as nat);
        }
    }
}

/// A decimal representation starts with `0` only for zero.
proof fn lemma_decimal_lead(n: nat)
    ensures
        n > 0 ==> crate::text::decimal(n)[0] != '0',
    decreases n,
{
    crate::text::lemma_decimal_nonempty(n);
    if n >= 10 {
        lemma_decimal_lead(n / 10);
        crate::text::lemma_decimal_nonempty(n / 10);
        assert(crate::text::decimal(n)[0] == crate::text::decimal(n / 10)[0]);
    } else if n > 0 {
        let c = crate::text::digit_char(n as int);
        assert(c as int == 48 + n);
    }
}

/// Every character of a decimal representation is a digit.
proof fn lemma_decimal_digits(n: nat)
    ensures
        forall|k: int| 0 <= k < crate::text::decimal(n).len() ==> crate::text::is_digit(#[trigger] crate::text::decimal(n)[k]),
    decreases n,
{
    let last = if n < 10 { n as int } else { (n % 10) as int };
    assert(crate::text::is_digit(crate::text::digit_char(last))) by {
        let c = crate::text::digit_char(last);
        assert(c as int == 48 + last);
        assert('0' as int == 48);
        assert('9' as int == 57);
    }
    if n >= 10 {
        lemma_decimal_digits(n / 10);
        let d = crate::text::decimal(n / 10);
        assert forall|k: int| 0 <= k < crate::text::decimal(n).len() implies crate::text::is_digit(
            #[trigger] crate::text::decimal(n)[k],
        ) by {
            if k < d.len() {
                assert(crate::text::decimal(n)[k] == d[k]);
            }
        }
    }
}

/// The JSON number `d` as a double (`json!(d as f64)`): what the parser reads
/// from its decimal text with a zero fraction.
pub open spec fn float_of(d: u64) -> JsonV {
    match crate::json_text::parsed_json(crate::text::decimal(d as nat) + ".0"@) {
        Some(v) => v,
        None => JsonV::Null,
    }
}

/// `json!(d as f64)`.
fn float_value(d: u64) -> (res: Json)
    ensures
        res@ == float_of(d),
{
    let mut text = crate::text::string_from_chars(&crate::text::decimal_chars(d));
    let ghost digits = text@;
    crate::text::push_char(&mut text, '.');
    crate::text::push_char(&mut text, '0');
    proof {
        reveal_strlit(".0");
        assert(text@ =~= crate::text::decimal(d as nat) + ".0"@);
        crate::text::lemma_decimal_nonempty(d as nat);
        lemma_decimal_digits(d as nat);
        let k = digits.len() as int;
        assert(text@[k] == '.');
        assert forall|t: int| 0 <= t < text@.len() && t != k implies #[trigger] crate::text::is_digit(text@[t]) by {
            if t < k {
                assert(text@[t] == digits[t]);
            }
        }
        assert(pow10(20) == 100000000000000000000nat) by {
            reveal_with_fuel(pow10, 21);
        }
        lemma_decimal_len(d as nat, 20);
        lemma_decimal_lead(d as nat);
        assert(k > 1 ==> d > 0);
        assert(text@[0] == digits[0]);
        assert(crate::json_text::is_decimal_fraction(text@));
    }
    match crate::json_text::parse_json(text.as_str()) {
        Some(v) => v,
        None => Json::Null,
    }
}

/// A turn's pieces: its number, span id, timestamp, error flag, messages,
/// decisions, and the members that follow them.
pub struct TurnParts {
    pub turn_id: i64,
    pub span_id: Seq<char>,
    pub timestamp: Seq<char>,
    pub error: bool,
    pub messages: Seq<JsonV>,
    pub decisions: Seq<JsonV>,
    pub extra: Seq<(Seq<char>, JsonV)>,
}

/// A turn as JSON.
pub open spec fn turn_json(t: TurnParts) -> JsonV {
    JsonV::Object(
        seq![
            ("turn_id"@, crate::signals::jint(t.turn_id)),
            ("span_id"@, crate::trajectory::jstr(t.span_id)),
            ("timestamp"@, crate::trajectory::jstr(t.timestamp)),
            ("error"@, JsonV::Bool(t.error)),
            ("messages"@, JsonV::Array(t.messages)),
            ("decisions"@, JsonV::Array(t.decisions)),
        ] + t.extra,
    )
}

/// A turn under construction.
pub struct TurnBuild {
    pub turn_id: i64,
    pub span_id: String,
    pub timestamp: String,
    pub error: bool,
    pub messages: Vec<Json>,
    pub decisions: Vec<Json>,
    pub extra: Vec<(String, Json)>,
}

/// A turn under construction as plain values.
pub open spec fn turn_parts(t: TurnBuild) -> TurnParts {
    TurnParts {
        turn_id: t.turn_id,
        span_id: t.span_id@,
        timestamp: t.timestamp@,
        error: t.error,
        messages: items_view(t.messages@),
        decisions: items_view(t.decisions@),
        extra: members_view(t.extra@),
    }
}

/// Everything the turns carry forward: the span claims, both budgets,
/// whether a signal was carried or dropped, the signal carriers, and the
/// turns so far.
pub struct TurnsState {
    pub claimed: Seq<bool>,
    pub remaining: int,
    pub signal_remaining: int,
    pub carried: bool,
    pub dropped: bool,
    pub carriers: Seq<JsonV>,
    pub turns: Seq<TurnParts>,
}

/// The span id of turn `t`: the assistant entry's, else the turn number's.
pub open spec fn turn_span_id(session_id: Seq<char>, assistant: Option<TreeEntry>, t: int) -> Seq<char> {
    match assistant {
        Some(e) => session_id + ":"@ + e.id@,
        None => session_id + ":turn-"@ + crate::text::decimal((t + 1) as nat),
    }
}

/// The timestamp turn `t` falls back to: the cycle-closing event at its
/// position, else the document's start.
pub open spec fn fallback_timestamp(boundary: Seq<Seq<char>>, t: int, start: Seq<char>) -> Seq<char> {
    if 0 <= t < boundary.len() {
        boundary[t]
    } else {
        start
    }
}

/// Some inventory member records a signal's length.
pub open spec fn carries_signal(inventory: Seq<(Seq<char>, JsonV)>) -> bool {
    exists|k: int| 0 <= k < inventory.len() && !crate::signals::is_marker(#[trigger] inventory[k])
}

/// Some inventory member records a drop.
pub open spec fn records_drop(inventory: Seq<(Seq<char>, JsonV)>) -> bool {
    exists|k: int| 0 <= k < inventory.len() && (#[trigger] inventory[k]).0 == "_token_signals_dropped"@
}

/// The optional assistant entry of a turn.
pub open spec fn turn_assistant(entries: Seq<TreeEntry>, assistant: Option<usize>) -> Option<TreeEntry> {
    match assistant {
        Some(a) => Some(entries[a as int]),
        None => None,
    }
}

/// Prompt tokens of a turn: what the assistant entry recorded, else the
/// prompt entries' estimates summed.
pub open spec fn turn_prompt_tokens(entries: Seq<TreeEntry>, prompt: Seq<usize>, assistant: Option<TreeEntry>) -> u64 {
    match assistant {
        Some(e) => match crate::session::opt_u64(spec_get(e.raw@, "input_tokens"@)) {
            Some(p) => p,
            None => sum_tokens(entries, prompt),
        },
        None => sum_tokens(entries, prompt),
    }
}

/// Completion tokens of a turn: what the assistant entry recorded, else its
/// estimate; zero without one.
pub open spec fn turn_completion_tokens(assistant: Option<TreeEntry>) -> u64 {
    match assistant {
        Some(e) => match crate::session::opt_u64(spec_get(e.raw@, "output_tokens"@)) {
            Some(c) => c,
            None => e.tokens,
        },
        None => 0,
    }
}

/// Turn `t` added to the state.
pub open spec fn spec_turn_step(
    entries: Seq<TreeEntry>,
    drafts: Seq<(Seq<usize>, Option<usize>)>,
    spans: Seq<JsonV>,
    boundary: Seq<Seq<char>>,
    timestamp_start: Seq<char>,
    session_id: Seq<char>,
    s: TurnsState,
    t: int,
) -> TurnsState {
    let draft = drafts[t];
    let assistant = turn_assistant(entries, draft.1);
    let timestamp = match assistant {
        Some(e) => match e.spec_recorded_at() {
            Some(ts) => ts,
            None => fallback_timestamp(boundary, t, timestamp_start),
        },
        None => fallback_timestamp(boundary, t, timestamp_start),
    };
    let (pm, r1) = spec_messages(entries, draft.0, timestamp, s.remaining);
    let (messages, r2) = match assistant {
        Some(e) => {
            let (m, r) = crate::message::spec_build_message(e, timestamp, r1);
            (pm.push(m), r)
        },
        None => (pm, r1),
    };
    let obs = turn_observations(entries, drafts, t);
    let own_calls = match assistant {
        Some(e) => crate::trajectory::entry_tool_calls(e),
        None => seq![],
    };
    let (decisions, error, duration, claimed, r3) = decide_calls(
        turn_calls(own_calls, obs),
        obs,
        spans,
        s.claimed,
        r2,
    );
    let span_id = turn_span_id(session_id, assistant, t);
    let base_extra = (if duration > 0 {
        seq![("duration_ms"@, float_of(duration))]
    } else {
        seq![]
    }) + seq![
        ("_prompt_tokens"@, crate::trajectory::juint(turn_prompt_tokens(entries, draft.0, assistant))),
        ("_completion_tokens"@, crate::trajectory::juint(turn_completion_tokens(assistant))),
    ];
    match assistant {
        Some(e) => {
            let (adds, inventory, sr) = crate::signals::spec_attach_token_signals(e.raw@, s.signal_remaining);
            TurnsState {
                claimed,
                remaining: r3,
                signal_remaining: sr,
                carried: s.carried || carries_signal(inventory),
                dropped: s.dropped || records_drop(inventory),
                carriers: if inventory.len() > 0 {
                    s.carriers.push(
                        crate::signals::spec_token_signal_carrier(
                            crate::trajectory::jstr(span_id),
                            (t + 1) as i64,
                            inventory,
                        ),
                    )
                } else {
                    s.carriers
                },
                turns: s.turns.push(
                    TurnParts {
                        turn_id: (t + 1) as i64,
                        span_id,
                        timestamp,
                        error,
                        messages,
                        decisions,
                        extra: base_extra + adds,
                    },
                ),
            }
        },
        None => TurnsState {
            claimed,
            remaining: r3,
            turns: s.turns.push(
                TurnParts {
                    turn_id: (t + 1) as i64,
                    span_id,
                    timestamp,
                    error,
                    messages,
                    decisions,
                    extra: base_extra,
                },
            ),
            ..s
        },
    }
}

/// The state as plain values.
pub open spec fn state_view(
    claimed: Seq<bool>,
    remaining: usize,
    signal_remaining: usize,
    carried: bool,
    dropped: bool,
    carriers: Seq<Json>,
    turns: Seq<TurnBuild>,
) -> TurnsState {
    TurnsState {
        claimed,
        remaining: remaining as int,
        signal_remaining: signal_remaining as int,
        carried,
        dropped,
        carriers: items_view(carriers),
        turns: turns.map_values(|t: TurnBuild| turn_parts(t)),
    }
}

/// The turns as plain values.
pub open spec fn drafts_view(drafts: Seq<TurnDraft>) -> Seq<(Seq<usize>, Option<usize>)> {
    drafts.map_values(|d: TurnDraft| turn_view(d))
}

/// The strings as plain values.
pub open spec fn strings_view(v: Seq<String>) -> Seq<Seq<char>> {
    v.map_values(|s: String| s@)
}

/// The token estimates of the prompt entries, summed with wrapping.
fn prompt_token_sum(entries: &Vec<TreeEntry>, prompt: &Vec<usize>) -> (res: u64)
    requires
        forall|p: int| 0 <= p < prompt@.len() ==> (#[trigger] prompt@[p] as int) < entries@.len(),
    ensures
        res == sum_tokens(entries@, prompt@),
{
    let mut total: u64 = 0;
    let mut i: usize = 0;
    while i < prompt.len()
        invariant
            i <= prompt@.len(),
            forall|p: int| 0 <= p < prompt@.len() ==> (#[trigger] prompt@[p] as int) < entries@.len(),
            total == sum_tokens(entries@, prompt@.take(i as int)),
        decreases prompt@.len() - i,
    {
        proof {
            assert(prompt@.take(i + 1).drop_last() =~= prompt@.take(i as int));
            assert(prompt@.take(i + 1).last() == prompt@[i as int]);
        }
        total = wrapping_add(total, entries[prompt[i]].tokens);
        i += 1;
    }
    assert(prompt@.take(i as int) =~= prompt@);
    total
}

/// Whether some inventory member records a signal's length.
fn inventory_carries_signal(inventory: &Vec<(String, Json)>) -> (res: bool)
    ensures
        res == carries_signal(members_view(inventory@)),
{
    let ghost iv = members_view(inventory@);
    proof {
        lemma_members_view(inventory@);
        reveal_strlit("_");
    }
    let mut i: usize = 0;
    while i < inventory.len()
        invariant
            i <= inventory@.len(),
            iv == members_view(inventory@),
            iv.len() == inventory@.len(),
            forall|k: int| 0 <= k < inventory@.len() ==> #[trigger] iv[k] == (inventory@[k].0@, inventory@[k].1@),
            forall|k: int| 0 <= k < i ==> crate::signals::is_marker(#[trigger] iv[k]),
        decreases inventory@.len() - i,
    {
        if !crate::text::str_starts_with(inventory[i].0.as_str(), "_") {
            assert(!crate::signals::is_marker(iv[i as int]));
            return true;
        }
        i += 1;
    }
    false
}

/// Whether some inventory member records a drop.
fn inventory_records_drop(inventory: &Vec<(String, Json)>) -> (res: bool)
    ensures
        res == records_drop(members_view(inventory@)),
{
    let ghost iv = members_view(inventory@);
    proof {
        lemma_members_view(inventory@);
    }
    let mut i: usize = 0;
    while i < inventory.len()
        invariant
            i <= inventory@.len(),
            iv == members_view(inventory@),
            iv.len() == inventory@.len(),
            forall|k: int| 0 <= k < inventory@.len() ==> #[trigger] iv[k] == (inventory@[k].0@, inventory@[k].1@),
            forall|k: int| 0 <= k < i ==> (#[trigger] iv[k]).0 != "_token_signals_dropped"@,
        decreases inventory@.len() - i,
    {
        if str_eq(inventory[i].0.as_str(), "_token_signals_dropped") {
            assert(iv[i as int].0 == "_token_signals_dropped"@);
            return true;
        }
        i += 1;
    }
    false
}

/// The span id of a turn.
fn span_id_for(session_id: &str, assistant: Option<&TreeEntry>, t: usize) -> (res: String)
    requires
        t < usize::MAX,
    ensures
        res@ == turn_span_id(
            session_id@,
            match assistant {
                Some(e) => Some(*e),
                None => None,
            },
            t as int,
        ),
{
    let mut out = String::from_str(session_id);
    match assistant {
        Some(e) => {
            out.append(":");
            out.append(e.id.as_str());
        },
        None => {
            out.append(":turn-");
            let n = crate::text::string_from_chars(&crate::text::decimal_chars((t + 1) as u64));
            out.append(n.as_str());
        },
    }
    out
}

/// The turns' indices all name entries.
pub open spec fn all_drafts_in_range(drafts: Seq<(Seq<usize>, Option<usize>)>, n: int) -> bool {
    forall|t: int| 0 <= t < drafts.len() ==> drafts_in_range(#[trigger] drafts[t], n)
}

/// Attach an assistant entry's token signals for turn `t`, recording the
/// carrier of its inventory; returns the members the turn gains.
fn turn_signals(
    raw: &Json,
    span_id: &String,
    t: usize,
    signal_budget: &mut crate::ots::TokenSignalBudget,
    carried: &mut bool,
    dropped: &mut bool,
    carriers: &mut Vec<Json>,
) -> (res: Vec<(String, Json)>)
    requires
        t < usize::MAX,
    ensures
        ({
            let (adds, inventory, sr) = crate::signals::spec_attach_token_signals(
                raw@,
                old(signal_budget).remaining as int,
            );
            &&& members_view(res@) == adds
            &&& final(signal_budget).remaining == sr
            &&& *final(carried) == (*old(carried) || carries_signal(inventory))
            &&& *final(dropped) == (*old(dropped) || records_drop(inventory))
            &&& items_view(final(carriers)@) == if inventory.len() > 0 {
                items_view(old(carriers)@).push(
                    crate::signals::spec_token_signal_carrier(
                        crate::trajectory::jstr(span_id@),
                        (t + 1) as i64,
                        inventory,
                    ),
                )
            } else {
                items_view(old(carriers)@)
            }
        }),
{
    let (adds, inventory) = crate::signals::attach_token_signals(raw, signal_budget);
    let carries = inventory_carries_signal(&inventory);
    let drops = inventory_records_drop(&inventory);
    *carried = *carried || carries;
    *dropped = *dropped || drops;
    proof {
        lemma_members_view(inventory@);
    }
    if inventory.len() > 0 {
        let carrier = crate::signals::token_signal_carrier(&Json::String(span_id.clone()), (t + 1) as i64, inventory);
        push_item(carriers, carrier);
    }
    adds
}

/// The members a turn carries after its decisions.
fn turn_extra(duration: u64, prompt_tokens: u64, completion_tokens: u64, adds: Vec<(String, Json)>) -> (res: Vec<
    (String, Json),
>)
    ensures
        members_view(res@) == (if duration > 0 {
            seq![("duration_ms"@, float_of(duration))]
        } else {
            seq![]
        }) + seq![
            ("_prompt_tokens"@, crate::trajectory::juint(prompt_tokens)),
            ("_completion_tokens"@, crate::trajectory::juint(completion_tokens)),
        ] + members_view(adds@),
{
    let mut extra: Vec<(String, Json)> = Vec::new();
    proof {
        lemma_members_view_empty(extra@);
    }
    if duration > 0 {
        push_member(&mut extra, "duration_ms", float_value(duration));
    }
    push_member(&mut extra, "_prompt_tokens", Json::Number(JsonNumber::PosInt(prompt_tokens)));
    push_member(&mut extra, "_completion_tokens", Json::Number(JsonNumber::PosInt(completion_tokens)));
    let ghost base_extra = members_view(extra@);
    assert(base_extra =~= (if duration > 0 {
        seq![("duration_ms"@, float_of(duration))]
    } else {
        seq![]
    }) + seq![
        ("_prompt_tokens"@, crate::trajectory::juint(prompt_tokens)),
        ("_completion_tokens"@, crate::trajectory::juint(completion_tokens)),
    ]);
    let ghost av = members_view(adds@);
    proof {
        lemma_members_view(adds@);
    }
    let mut k: usize = 0;
    while k < adds.len()
        invariant
            k <= adds@.len(),
            av == members_view(adds@),
            av.len() == adds@.len(),
            forall|q: int| 0 <= q < adds@.len() ==> #[trigger] av[q] == (adds@[q].0@, adds@[q].1@),
            members_view(extra@) == base_extra + av.take(k as int),
        decreases adds@.len() - k,
    {
        push_member(&mut extra, adds[k].0.as_str(), adds[k].1.duplicate());
        assert(base_extra + av.take(k + 1) =~= (base_extra + av.take(k as int)).push(av[k as int]));
        k += 1;
    }
    assert(av.take(k as int) =~= av);
    extra
}

/// Build turn `t` and add it, with its signal carrier, to the state.
#[verifier::spinoff_prover]
#[verifier::rlimit(50)]
pub fn build_turn(
    entries: &Vec<TreeEntry>,
    drafts: &Vec<TurnDraft>,
    t: usize,
    spans: &Vec<Json>,
    queues: &Vec<(String, Vec<usize>)>,
    boundary: &Vec<String>,
    timestamp_start: &str,
    session_id: &str,
    claimed: &mut Vec<bool>,
    budget: &mut crate::ots::InlineBudget,
    signal_budget: &mut crate::ots::TokenSignalBudget,
    carried: &mut bool,
    dropped: &mut bool,
    carriers: &mut Vec<Json>,
    turns: &mut Vec<TurnBuild>,
)
    requires
        t < drafts@.len(),
        all_drafts_in_range(drafts_view(drafts@), entries@.len() as int),
        queues_match(queues@, items_view(spans@), spans@.len() as int),
        old(claimed)@.len() == spans@.len(),
    ensures
        state_view(
            final(claimed)@,
            final(budget).remaining,
            final(signal_budget).remaining,
            *final(carried),
            *final(dropped),
            final(carriers)@,
            final(turns)@,
        ) == spec_turn_step(
            entries@,
            drafts_view(drafts@),
            items_view(spans@),
            strings_view(boundary@),
            timestamp_start@,
            session_id@,
            state_view(
                old(claimed)@,
                old(budget).remaining,
                old(signal_budget).remaining,
                *old(carried),
                *old(dropped),
                old(carriers)@,
                old(turns)@,
            ),
            t as int,
        ),
        final(claimed)@.len() == spans@.len(),
{
    let ghost dv = drafts_view(drafts@);
    let ghost s0 = state_view(
        claimed@,
        budget.remaining,
        signal_budget.remaining,
        *carried,
        *dropped,
        carriers@,
        turns@,
    );
    let draft = &drafts[t];
    proof {
        assert(dv[t as int] == turn_view(*draft));
        assert(drafts_in_range(dv[t as int], entries@.len() as int));
        assert forall|p: int| 0 <= p < draft.prompt@.len() implies (#[trigger] draft.prompt@[p] as int)
            < entries@.len() by {
            assert(dv[t as int].0[p] == draft.prompt@[p]);
        }
    }
    let assistant: Option<&TreeEntry> = match draft.assistant {
        Some(a) => Some(&entries[a]),
        None => None,
    };
    let ghost asst = turn_assistant(entries@, draft.assistant);
    assert(asst == match assistant {
        Some(e) => Some(*e),
        None => None::<TreeEntry>,
    });
    let recorded = match assistant {
        Some(e) => e.recorded_at(),
        None => None,
    };
    let timestamp: String = match recorded {
        Some(ts) => ts,
        None => {
            if t < boundary.len() {
                boundary[t].clone()
            } else {
                timestamp_start.to_string()
            }
        },
    };
    let ghost ts_spec = match asst {
        Some(e) => match e.spec_recorded_at() {
            Some(ts) => ts,
            None => fallback_timestamp(strings_view(boundary@), t as int, timestamp_start@),
        },
        None => fallback_timestamp(strings_view(boundary@), t as int, timestamp_start@),
    };
    assert(timestamp@ == ts_spec);
    let messages = turn_messages(entries, &draft.prompt, draft.assistant, timestamp.as_str(), budget);
    let obs: Vec<(String, crate::trajectory::Observation)> = if t < drafts.len() - 1 {
        proof {
            assert(dv[t + 1] == turn_view(drafts@[t + 1]));
            assert(drafts_in_range(dv[t + 1], entries@.len() as int));
            assert forall|p: int| 0 <= p < drafts@[t + 1].prompt@.len() implies (#[trigger] drafts@[t
                + 1].prompt@[p] as int) < entries@.len() by {
                assert(dv[t + 1].0[p] == drafts@[t + 1].prompt@[p]);
            }
        }
        gather_observations(entries, &drafts[t + 1].prompt)
    } else {
        let v: Vec<(String, crate::trajectory::Observation)> = Vec::new();
        assert(obs_view(v@) =~= Seq::<(Seq<char>, bool, Seq<char>)>::empty());
        v
    };
    let own: Vec<crate::trajectory::ToolCall> = match assistant {
        Some(e) => crate::trajectory::tool_calls_from_entry(e),
        None => {
            let v: Vec<crate::trajectory::ToolCall> = Vec::new();
            assert(calls_view(v@) =~= Seq::<(Seq<char>, Seq<char>, Option<JsonV>)>::empty());
            v
        },
    };
    assert(obs_view(obs@) == turn_observations(entries@, dv, t as int));
    assert(calls_view(own@) == match asst {
        Some(e) => crate::trajectory::entry_tool_calls(e),
        None => Seq::<(Seq<char>, Seq<char>, Option<JsonV>)>::empty(),
    });
    let calls = turn_call_list(own, &obs);
    let (decisions, error, duration) = decide_turn(&calls, &obs, spans, queues, claimed, budget);
    let span_id = span_id_for(session_id, assistant, t);
    assert(span_id@ == turn_span_id(session_id@, asst, t as int));
    let prompt_tokens: u64 = match assistant {
        Some(e) => match crate::session::get_u64(&e.raw, "input_tokens") {
            Some(p) => p,
            None => prompt_token_sum(entries, &draft.prompt),
        },
        None => prompt_token_sum(entries, &draft.prompt),
    };
    let completion_tokens: u64 = match assistant {
        Some(e) => match crate::session::get_u64(&e.raw, "output_tokens") {
            Some(c) => c,
            None => e.tokens,
        },
        None => 0,
    };
    assert(prompt_tokens == turn_prompt_tokens(entries@, draft.prompt@, asst));
    assert(completion_tokens == turn_completion_tokens(asst));
    let adds: Vec<(String, Json)> = match assistant {
        Some(e) => turn_signals(&e.raw, &span_id, t, signal_budget, carried, dropped, carriers),
        None => {
            let v: Vec<(String, Json)> = Vec::new();
            proof {
                lemma_members_view_empty(v@);
            }
            v
        },
    };
    let extra = turn_extra(duration, prompt_tokens, completion_tokens, adds);
    let ghost before = turns@;
    let turn = TurnBuild {
        turn_id: (t + 1) as i64,
        span_id,
        timestamp,
        error,
        messages,
        decisions,
        extra,
    };
    turns.push(turn);
    proof {
        assert(turns@.map_values(|x: TurnBuild| turn_parts(x)) =~= before.map_values(|x: TurnBuild| turn_parts(x)).push(
            turn_parts(turn),
        ));
        let step = spec_turn_step(
            entries@,
            dv,
            items_view(spans@),
            strings_view(boundary@),
            timestamp_start@,
            session_id@,
            s0,
            t as int,
        );
        let now = state_view(claimed@, budget.remaining, signal_budget.remaining, *carried, *dropped, carriers@, turns@);
        assert(now.claimed == step.claimed);
        assert(now.remaining == step.remaining);
        assert(now.signal_remaining == step.signal_remaining);
        assert(now.carried == step.carried);
        assert(now.dropped == step.dropped);
        assert(now.carriers == step.carriers);
        assert(now.turns.last() == step.turns.last());
        assert(now.turns == step.turns);
    }
}

/// The state before any turn: nothing claimed, both budgets whole.
pub open spec fn initial_state(n_spans: nat) -> TurnsState {
    TurnsState {
        claimed: Seq::new(n_spans, |i: int| false),
        remaining: crate::ots::MAX_TRAJECTORY_INLINE_CHARS as int,
        signal_remaining: crate::ots::MAX_TOKEN_SIGNAL_BYTES as int,
        carried: false,
        dropped: false,
        carriers: seq![],
        turns: seq![],
    }
}

/// The state after the first `n` turns.
pub open spec fn spec_turns(
    entries: Seq<TreeEntry>,
    drafts: Seq<(Seq<usize>, Option<usize>)>,
    spans: Seq<JsonV>,
    boundary: Seq<Seq<char>>,
    timestamp_start: Seq<char>,
    session_id: Seq<char>,
    n: int,
) -> TurnsState
    decreases n,
{
    if n <= 0 {
        initial_state(spans.len())
    } else {
        spec_turn_step(
            entries,
            drafts,
            spans,
            boundary,
            timestamp_start,
            session_id,
            spec_turns(entries, drafts, spans, boundary, timestamp_start, session_id, n - 1),
            n - 1,
        )
    }
}

/// Build every turn in order, threading the span claims and both budgets.
pub fn build_turns(
    entries: &Vec<TreeEntry>,
    drafts: &Vec<TurnDraft>,
    spans: &Vec<Json>,
    queues: &Vec<(String, Vec<usize>)>,
    boundary: &Vec<String>,
    timestamp_start: &str,
    session_id: &str,
) -> (res: (Vec<TurnBuild>, Vec<Json>, bool, bool, Vec<bool>, crate::ots::InlineBudget))
    requires
        all_drafts_in_range(drafts_view(drafts@), entries@.len() as int),
        queues_match(queues@, items_view(spans@), spans@.len() as int),
    ensures
        ({
            let st = spec_turns(
                entries@,
                drafts_view(drafts@),
                items_view(spans@),
                strings_view(boundary@),
                timestamp_start@,
                session_id@,
                drafts@.len() as int,
            );
            &&& res.0@.map_values(|t: TurnBuild| turn_parts(t)) == st.turns
            &&& items_view(res.1@) == st.carriers
            &&& res.2 == st.carried
            &&& res.3 == st.dropped
            &&& res.4@ == st.claimed
            &&& res.5.remaining == st.remaining
            &&& res.4@.len() == spans@.len()
        }),
{
    let mut claimed: Vec<bool> = Vec::new();
    let mut c: usize = 0;
    while c < spans.len()
        invariant
            c <= spans@.len(),
            claimed@ == Seq::new(c as nat, |i: int| false),
        decreases spans@.len() - c,
    {
        claimed.push(false);
        c += 1;
        assert(claimed@ =~= Seq::new(c as nat, |i: int| false));
    }
    let mut budget = crate::ots::InlineBudget::new(crate::ots::MAX_TRAJECTORY_INLINE_CHARS);
    let mut signal_budget = crate::ots::TokenSignalBudget::new(crate::ots::MAX_TOKEN_SIGNAL_BYTES);
    let mut carried = false;
    let mut dropped = false;
    let mut carriers: Vec<Json> = Vec::new();
    let mut turns: Vec<TurnBuild> = Vec::new();
    proof {
        lemma_items_view_empty(carriers@);
        lemma_items_view(spans@);
        assert(turns@.map_values(|t: TurnBuild| turn_parts(t)) =~= Seq::<TurnParts>::empty());
        assert(state_view(claimed@, budget.remaining, signal_budget.remaining, carried, dropped, carriers@, turns@)
            == initial_state(items_view(spans@).len()));
    }
    let mut t: usize = 0;
    while t < drafts.len()
        invariant
            t <= drafts@.len(),
            all_drafts_in_range(drafts_view(drafts@), entries@.len() as int),
            queues_match(queues@, items_view(spans@), spans@.len() as int),
            claimed@.len() == spans@.len(),
            state_view(claimed@, budget.remaining, signal_budget.remaining, carried, dropped, carriers@, turns@)
                == spec_turns(
                entries@,
                drafts_view(drafts@),
                items_view(spans@),
                strings_view(boundary@),
                timestamp_start@,
                session_id@,
                t as int,
            ),
        decreases drafts@.len() - t,
    {
        build_turn(
            entries,
            drafts,
            t,
            spans,
            queues,
            boundary,
            timestamp_start,
            session_id,
            &mut claimed,
            &mut budget,
            &mut signal_budget,
            &mut carried,
            &mut dropped,
            &mut carriers,
            &mut turns,
        );
        t += 1;
    }
    (turns, carriers, carried, dropped, claimed, budget)
}

/// The decisions of the spans no call claimed, in execution order, from a
/// budget with `remaining` characters: the decisions, whether any failed,
/// and the budget left after.
pub open spec fn orphan_decisions(spans: Seq<JsonV>, claimed: Seq<bool>, remaining: int, n: int) -> (Seq<JsonV>, bool, int)
    decreases n,
{
    if n <= 0 {
        (seq![], false, remaining)
    } else {
        let (ds, failed, r) = orphan_decisions(spans, claimed, remaining, n - 1);
        if !claimed[n - 1] {
            let span = spans[n - 1];
            let (d, r2) = crate::trajectory::spec_build_decision(
                crate::trajectory::span_call(span),
                None,
                Some(span),
                r,
            );
            (ds.push(d), failed || crate::trajectory::decision_outcome(None, Some(span)).0, r2)
        } else {
            (ds, failed, r)
        }
    }
}

/// Decisions for the spans no call claimed.
pub fn orphan_spans(spans: &Vec<Json>, claimed: &Vec<bool>, budget: &mut crate::ots::InlineBudget) -> (res: (
    Vec<Json>,
    bool,
))
    requires
        claimed@.len() == spans@.len(),
    ensures
        ({
            let (ds, failed, r) = orphan_decisions(
                items_view(spans@),
                claimed@,
                old(budget).remaining as int,
                spans@.len() as int,
            );
            &&& items_view(res.0@) == ds
            &&& res.1 == failed
            &&& final(budget).remaining == r
        }),
{
    let ghost sv = items_view(spans@);
    let ghost start = budget.remaining as int;
    proof {
        lemma_items_view(spans@);
    }
    let mut out: Vec<Json> = Vec::new();
    let mut failed = false;
    proof {
        lemma_items_view_empty(out@);
    }
    let mut k: usize = 0;
    while k < spans.len()
        invariant
            k <= spans@.len(),
            claimed@.len() == spans@.len(),
            sv == items_view(spans@),
            sv.len() == spans@.len(),
            forall|q: int| 0 <= q < spans@.len() ==> #[trigger] sv[q] == spans@[q]@,
            ({
                let (ds, f, r) = orphan_decisions(sv, claimed@, start, k as int);
                &&& items_view(out@) == ds
                &&& failed == f
                &&& budget.remaining == r
            }),
        decreases spans@.len() - k,
    {
        if !claimed[k] {
            let span = &spans[k];
            let d = crate::trajectory::span_to_decision(span, budget);
            let f = match span.get_bool("is_error") {
                Some(b) => b,
                None => false,
            };
            push_item(&mut out, d);
            failed = failed || f;
        }
        k += 1;
    }
    (out, failed)
}

/// A turn made for decisions that no reconstructed turn holds.
pub open spec fn synthetic_turn(session_id: Seq<char>, timestamp: Seq<char>, error: bool, decisions: Seq<JsonV>) -> TurnParts {
    TurnParts {
        turn_id: 1,
        span_id: session_id + ":turn-1"@,
        timestamp,
        error,
        messages: seq![],
        decisions,
        extra: seq![],
    }
}

/// The turns after the unclaimed spans' decisions join the last turn (or a
/// turn of their own), with one empty turn when there is none at all.
pub open spec fn final_turns(
    turns: Seq<TurnParts>,
    orphans: Seq<JsonV>,
    orphan_failed: bool,
    session_id: Seq<char>,
    timestamp_start: Seq<char>,
    failed_status: bool,
) -> Seq<TurnParts> {
    let with_orphans = if orphans.len() > 0 {
        if turns.len() == 0 {
            seq![synthetic_turn(session_id, timestamp_start, orphan_failed, orphans)]
        } else {
            let last = turns.last();
            turns.update(
                turns.len() - 1,
                TurnParts { error: last.error || orphan_failed, decisions: last.decisions + orphans, ..last },
            )
        }
    } else {
        turns
    };
    if with_orphans.len() == 0 {
        seq![synthetic_turn(session_id, timestamp_start, failed_status, seq![])]
    } else {
        with_orphans
    }
}

/// A synthetic turn under construction.
fn synthetic(session_id: &str, timestamp: &str, error: bool, decisions: Vec<Json>) -> (res: TurnBuild)
    ensures
        turn_parts(res) == synthetic_turn(session_id@, timestamp@, error, items_view(decisions@)),
{
    let mut span_id = String::from_str(session_id);
    span_id.append(":turn-1");
    let messages: Vec<Json> = Vec::new();
    let extra: Vec<(String, Json)> = Vec::new();
    proof {
        lemma_items_view_empty(messages@);
        lemma_members_view_empty(extra@);
    }
    TurnBuild { turn_id: 1, span_id, timestamp: timestamp.to_string(), error, messages, decisions, extra }
}

/// Fold the unclaimed spans' decisions into the turns.
pub fn finish_turns(
    turns: Vec<TurnBuild>,
    orphans: Vec<Json>,
    orphan_failed: bool,
    session_id: &str,
    timestamp_start: &str,
    failed_status: bool,
) -> (res: Vec<TurnBuild>)
    ensures
        res@.map_values(|t: TurnBuild| turn_parts(t)) == final_turns(
            turns@.map_values(|t: TurnBuild| turn_parts(t)),
            items_view(orphans@),
            orphan_failed,
            session_id@,
            timestamp_start@,
            failed_status,
        ),
{
    let ghost tv = turns@.map_values(|t: TurnBuild| turn_parts(t));
    let ghost ov = items_view(orphans@);
    proof {
        lemma_items_view(orphans@);
    }
    let mut turns = turns;
    if orphans.len() > 0 {
        if turns.len() == 0 {
            turns.push(synthetic(session_id, timestamp_start, orphan_failed, orphans));
            assert(turns@.map_values(|t: TurnBuild| turn_parts(t)) =~= seq![
                synthetic_turn(session_id@, timestamp_start@, orphan_failed, ov),
            ]);
        } else {
            let ghost full = turns@;
            let mut last = turns.pop().unwrap();
            assert(turns@ =~= full.drop_last());
            assert(turn_parts(last) == tv.last());
            let ghost lv0 = turn_parts(last);
            let TurnBuild { turn_id, span_id, timestamp, error, messages, decisions, extra } = last;
            let mut decisions = decisions;
            let ghost before = items_view(decisions@);
            let mut k: usize = 0;
            while k < orphans.len()
                invariant
                    k <= orphans@.len(),
                    ov == items_view(orphans@),
                    ov.len() == orphans@.len(),
                    forall|q: int| 0 <= q < orphans@.len() ==> #[trigger] ov[q] == orphans@[q]@,
                    items_view(decisions@) == before + ov.take(k as int),
                decreases orphans@.len() - k,
            {
                push_item(&mut decisions, orphans[k].duplicate());
                assert(before + ov.take(k + 1) =~= (before + ov.take(k as int)).push(ov[k as int]));
                k += 1;
            }
            assert(ov.take(k as int) =~= ov);
            let last = TurnBuild {
                turn_id,
                span_id,
                timestamp,
                error: error || orphan_failed,
                messages,
                decisions,
                extra,
            };
            let ghost popped = turns@;
            turns.push(last);
            proof {
                let lv = tv.last();
                assert(turn_parts(last) == TurnParts { error: lv.error || orphan_failed, decisions: lv.decisions + ov, ..lv });
                assert(turns@ =~= full.drop_last().push(last));
                assert(turns@.map_values(|t: TurnBuild| turn_parts(t)) =~= tv.update(
                    tv.len() - 1,
                    TurnParts { error: lv.error || orphan_failed, decisions: lv.decisions + ov, ..lv },
                ));
            }
        }
    }
    let ghost mid = turns@.map_values(|t: TurnBuild| turn_parts(t));
    if turns.len() == 0 {
        let none: Vec<Json> = Vec::new();
        proof {
            lemma_items_view_empty(none@);
        }
        turns.push(synthetic(session_id, timestamp_start, failed_status, none));
        assert(turns@.map_values(|t: TurnBuild| turn_parts(t)) =~= seq![
            synthetic_turn(session_id@, timestamp_start@, failed_status, seq![]),
        ]);
    }
    turns
}

/// A turn as JSON.
pub fn turn_to_json(t: TurnBuild) -> (res: Json)
    ensures
        res@ == turn_json(turn_parts(t)),
{
    let ghost parts = turn_parts(t);
    let mut members: Vec<(String, Json)> = Vec::new();
    proof {
        lemma_members_view_empty(members@);
    }
    push_member(&mut members, "turn_id", crate::signals::json_int(t.turn_id));
    push_member(&mut members, "span_id", Json::String(t.span_id));
    push_member(&mut members, "timestamp", Json::String(t.timestamp));
    push_member(&mut members, "error", Json::Bool(t.error));
    push_member(&mut members, "messages", Json::Array(t.messages));
    push_member(&mut members, "decisions", Json::Array(t.decisions));
    let ghost head = members_view(members@);
    let extra = t.extra;
    let ghost ev = members_view(extra@);
    proof {
        lemma_members_view(extra@);
    }
    let mut k: usize = 0;
    while k < extra.len()
        invariant
            k <= extra@.len(),
            ev == members_view(extra@),
            ev.len() == extra@.len(),
            forall|q: int| 0 <= q < extra@.len() ==> #[trigger] ev[q] == (extra@[q].0@, extra@[q].1@),
            members_view(members@) == head + ev.take(k as int),
        decreases extra@.len() - k,
    {
        push_member(&mut members, extra[k].0.as_str(), extra[k].1.duplicate());
        assert(head + ev.take(k + 1) =~= (head + ev.take(k as int)).push(ev[k as int]));
        k += 1;
    }
    assert(ev.take(k as int) =~= ev);
    assert(members_view(members@) =~= seq![
        ("turn_id"@, crate::signals::jint(parts.turn_id)),
        ("span_id"@, crate::trajectory::jstr(parts.span_id)),
        ("timestamp"@, crate::trajectory::jstr(parts.timestamp)),
        ("error"@, JsonV::Bool(parts.error)),
        ("messages"@, JsonV::Array(parts.messages)),
        ("decisions"@, JsonV::Array(parts.decisions)),
    ] + parts.extra);
    Json::Object(members)
}

/// How many lines of `text` are not blank.
pub open spec fn nonblank_count(text: Seq<char>) -> nat {
    crate::session::line_values(text).len()
}

/// Count the lines of `text` that are not blank.
fn count_nonblank(text: &str) -> (res: usize)
    ensures
        res == nonblank_count(text@),
{
    let chars = crate::text::chars_of(text);
    let all = crate::text::lines_of(&chars);
    let ghost ls = crate::text::lines(text@);
    let ghost f = |l: Seq<char>| crate::text::trim(l).len() > 0;
    let mut n: usize = 0;
    let mut i: usize = 0;
    proof {
        assert(ls.take(0).filter(f) =~= Seq::<Seq<char>>::empty());
    }
    while i < all.len()
        invariant
            i <= all@.len(),
            all@.map_values(|l: Vec<char>| l@) == ls,
            f == (|l: Seq<char>| crate::text::trim(l).len() > 0),
            n == ls.take(i as int).filter(f).len(),
            n <= i,
        decreases all@.len() - i,
    {
        let line = crate::text::trim_chars(&all[i]);
        proof {
            assert(all@[i as int]@ == ls[i as int]);
            ls.take(i as int).lemma_filter_push(ls[i as int], f);
            assert(ls.take(i + 1) =~= ls.take(i as int).push(ls[i as int]));
        }
        if line.len() > 0 {
            n = n + 1;
        }
        i += 1;
    }
    proof {
        assert(ls.take(i as int) =~= ls);
    }
    n
}

/// What `has_result` says: a boolean as it is, a string when it reads
/// `true`, false otherwise.
pub open spec fn spec_has_result(fields: JsonV) -> bool {
    match spec_get(fields, "has_result"@) {
        Some(v) => match crate::json::spec_as_bool(v) {
            Some(b) => b,
            None => crate::json::spec_as_str(v) == Some("true"@),
        },
        None => false,
    }
}

/// Read `has_result`.
fn has_result_flag(fields: &Json) -> (res: bool)
    ensures
        res == spec_has_result(fields@),
{
    match fields.get("has_result") {
        Some(v) => match v.as_bool() {
            Some(b) => b,
            None => match v.as_str() {
                Some(s) => str_eq(s, "true"),
                None => false,
            },
        },
        None => false,
    }
}

/// The non-empty string field `key`, as a one-element list.
pub open spec fn field_tag(fields: JsonV, key: Seq<char>) -> Seq<Seq<char>> {
    let v = str_or(fields, key, ""@);
    if v.len() > 0 {
        seq![v]
    } else {
        seq![]
    }
}

/// The run-provenance tags: model, provider and session mode when set, the
/// harness, and the spec version when set.
pub open spec fn head_tags(fields: JsonV, spec_version: Seq<char>) -> Seq<Seq<char>> {
    field_tag(fields, "model"@) + field_tag(fields, "provider"@) + field_tag(fields, "session_mode"@) + seq![
        crate::ots::HARNESS_TAG_PREFIX@ + crate::ots::HARNESS@,
    ] + if spec_version.len() > 0 {
        seq![crate::ots::SPEC_VERSION_TAG_PREFIX@ + spec_version]
    } else {
        seq![]
    }
}

/// Why the transcript falls short: its absence, or, when it was read, lines
/// that did not parse, a recorded leaf that did not resolve, and no turns.
pub open spec fn spec_transcript_reasons(
    transcript: TranscriptPresence,
    unparsed: nat,
    from_recorded_leaf: bool,
    no_turns: bool,
) -> Seq<Seq<char>> {
    if !transcript.spec_is_present() {
        seq![transcript.spec_as_str()]
    } else {
        (if unparsed > 0 {
            seq!["unparseable"@]
        } else {
            seq![]
        }) + (if !from_recorded_leaf {
            seq!["leaf_unresolved"@]
        } else {
            seq![]
        }) + if no_turns {
            seq!["no_turns"@]
        } else {
            seq![]
        }
    }
}

/// The degradation tag for a reason.
pub open spec fn degraded_tag(reason: Seq<char>) -> Seq<char> {
    crate::ots::DEGRADED_TAG_PREFIX@ + reason
}

/// The degradation tags of the transcript reasons.
pub open spec fn transcript_tags(reasons: Seq<Seq<char>>) -> Seq<Seq<char>> {
    reasons.map_values(|r: Seq<char>| degraded_tag("transcript_"@ + r))
}

/// The degradation tags of the span document.
pub open spec fn span_tags(truncated: bool, unparsed: nat, missing: bool) -> Seq<Seq<char>> {
    (if truncated {
        seq![degraded_tag("tool_spans_truncated"@)]
    } else {
        seq![]
    }) + (if unparsed > 0 {
        seq![degraded_tag("tool_spans_unparseable"@)]
    } else {
        seq![]
    }) + if missing {
        seq![degraded_tag("tool_spans_missing_file"@)]
    } else {
        seq![]
    }
}

/// The token-signal tags.
pub open spec fn signal_tags(carried: bool, dropped: bool) -> Seq<Seq<char>> {
    (if carried {
        seq![crate::ots::TOKEN_SIGNALS_TAG@]
    } else {
        seq![]
    }) + if dropped {
        seq![degraded_tag("token_signals_dropped"@)]
    } else {
        seq![]
    }
}

/// The first recording time among the chain's entries.
pub open spec fn first_recorded(entries: Seq<TreeEntry>, chain: Seq<usize>) -> Option<Seq<char>>
    decreases chain.len(),
{
    if chain.len() == 0 {
        None
    } else {
        match entries[chain[0] as int].spec_recorded_at() {
            Some(t) => Some(t),
            None => first_recorded(entries, chain.drop_first()),
        }
    }
}

/// The resource entry of a file, when it has an id.
pub open spec fn resource_if(kind: Seq<char>, file_id: Seq<char>) -> Seq<JsonV> {
    if file_id.len() > 0 {
        seq![crate::trajectory::resource_value(kind, file_id)]
    } else {
        seq![]
    }
}

/// The files the session recorded, as resources.
pub open spec fn spec_resources(fields: JsonV) -> Seq<JsonV> {
    resource_if("session_tree"@, str_or(fields, "session_file_id"@, ""@)) + resource_if(
        "tool_spans"@,
        str_or(fields, "tool_spans_file_id"@, ""@),
    ) + resource_if("prepared_context"@, str_or(fields, "prepared_context_file_id"@, ""@)) + resource_if(
        "provider_response"@,
        str_or(fields, "provider_response_file_id"@, ""@),
    ) + resource_if("system_prompt"@, str_or(fields, "system_prompt_file_id"@, ""@))
}

/// A field read as a lenient unsigned integer, zero when absent.
pub open spec fn usage(fields: JsonV, key: Seq<char>) -> JsonV {
    crate::trajectory::juint(
        match crate::session::opt_u64(spec_get(fields, key)) {
            Some(n) => n,
            None => 0,
        },
    )
}

/// Strings as JSON strings.
pub open spec fn jstrs(v: Seq<Seq<char>>) -> Seq<JsonV> {
    v.map_values(|x: Seq<char>| crate::trajectory::jstr(x))
}

/// The `metadata` object.
pub open spec fn spec_metadata(
    inputs: TrajectoryInputs,
    task: Seq<char>,
    timestamp_start: Seq<char>,
    timestamp_end: Seq<char>,
    outcome: Seq<char>,
    tags: Seq<Seq<char>>,
) -> JsonV {
    JsonV::Object(
        seq![
            ("trajectory_id"@, crate::trajectory::jstr(inputs.trajectory_id@)),
            ("task_description"@, crate::trajectory::jstr(task)),
            ("domain"@, crate::trajectory::jstr("temperpaw-agent"@)),
            ("timestamp_start"@, crate::trajectory::jstr(timestamp_start)),
            ("timestamp_end"@, crate::trajectory::jstr(timestamp_end)),
            ("agent_id"@, crate::trajectory::jstr(inputs.agent_id@)),
            ("framework"@, crate::trajectory::jstr("temperpaw"@)),
            ("harness"@, crate::trajectory::jstr(crate::ots::HARNESS@)),
            ("environment"@, crate::trajectory::jstr("production"@)),
            ("outcome"@, crate::trajectory::jstr(outcome)),
            ("tags"@, JsonV::Array(jstrs(tags))),
        ] + if inputs.spec_version@.len() > 0 {
            seq![("spec_version"@, crate::trajectory::jstr(inputs.spec_version@))]
        } else {
            seq![]
        },
    )
}

/// The `_transcript` marker.
pub open spec fn transcript_marker(present: bool, reasons: Seq<Seq<char>>, unparsed: nat) -> JsonV {
    JsonV::Object(
        seq![("present"@, JsonV::Bool(present)), ("reasons"@, JsonV::Array(jstrs(reasons)))] + if unparsed > 0 {
            seq![("unparsed_lines"@, crate::trajectory::juint(unparsed as u64))]
        } else {
            seq![]
        },
    )
}

/// The members that mark what the document was built without.
pub open spec fn gap_members(
    truncated: bool,
    span_unparsed: nat,
    reasons: Seq<Seq<char>>,
    present: bool,
    unparsed: nat,
    missing: bool,
) -> Seq<(Seq<char>, JsonV)> {
    (if truncated {
        seq![("_tool_spans_truncated"@, JsonV::Bool(true))]
    } else {
        seq![]
    }) + (if span_unparsed > 0 {
        seq![("_tool_spans_unparsed_lines"@, crate::trajectory::juint(span_unparsed as u64))]
    } else {
        seq![]
    }) + (if reasons.len() > 0 {
        seq![("_transcript"@, transcript_marker(present, reasons, unparsed))]
    } else {
        seq![]
    }) + if missing {
        seq![("_tool_spans_missing"@, JsonV::Bool(true))]
    } else {
        seq![]
    }
}

/// The `context` member, when there are resources or signal carriers.
pub open spec fn context_members(resources: Seq<JsonV>, carriers: Seq<JsonV>) -> Seq<(Seq<char>, JsonV)> {
    if resources.len() > 0 || carriers.len() > 0 {
        seq![
            (
                "context"@,
                JsonV::Object(
                    (if resources.len() > 0 {
                        seq![("resources"@, JsonV::Array(resources))]
                    } else {
                        seq![]
                    }) + if carriers.len() > 0 {
                        seq![("entities"@, JsonV::Array(carriers))]
                    } else {
                        seq![]
                    },
                ),
            ),
        ]
    } else {
        seq![]
    }
}

/// The `system_message` member, when there is a system prompt.
pub open spec fn system_members(system_prompt: Seq<char>, timestamp_start: Seq<char>) -> Seq<(Seq<char>, JsonV)> {
    if system_prompt.len() > 0 {
        seq![
            (
                "system_message"@,
                JsonV::Object(
                    seq![
                        (
                            "content"@,
                            crate::trajectory::jstr(
                                crate::text::spec_truncate(system_prompt, crate::ots::MAX_SYSTEM_PROMPT_CHARS as int),
                            ),
                        ),
                        ("timestamp"@, crate::trajectory::jstr(timestamp_start)),
                    ],
                ),
            ),
        ]
    } else {
        seq![]
    }
}

/// The members that mark what the document was built without, and its
/// context and system message.
pub open spec fn spec_document_tail(
    inputs: TrajectoryInputs,
    truncated: bool,
    span_unparsed: nat,
    reasons: Seq<Seq<char>>,
    unparsed: nat,
    carriers: Seq<JsonV>,
    timestamp_start: Seq<char>,
) -> Seq<(Seq<char>, JsonV)> {
    gap_members(
        truncated,
        span_unparsed,
        reasons,
        inputs.transcript.spec_is_present(),
        unparsed,
        inputs.tool_spans_missing,
    ) + context_members(spec_resources(inputs.fields@), carriers) + system_members(
        str_or(inputs.fields@, "system_prompt"@, ""@),
        timestamp_start,
    )
}

/// The turns of the document, the signal carriers, and whether a signal was
/// carried or dropped.
pub open spec fn spec_core(
    entries: Seq<TreeEntry>,
    drafts: Seq<(Seq<usize>, Option<usize>)>,
    spans: Seq<JsonV>,
    boundary: Seq<Seq<char>>,
    timestamp_start: Seq<char>,
    session_id: Seq<char>,
    failed_status: bool,
) -> (Seq<TurnParts>, Seq<JsonV>, bool, bool) {
    let st = spec_turns(entries, drafts, spans, boundary, timestamp_start, session_id, drafts.len() as int);
    let (orphans, orphan_failed, _) = orphan_decisions(spans, st.claimed, st.remaining, spans.len() as int);
    (
        final_turns(st.turns, orphans, orphan_failed, session_id, timestamp_start, failed_status),
        st.carriers,
        st.carried,
        st.dropped,
    )
}

/// The document from its metadata, its turns, and what its tail records.
pub open spec fn spec_document(
    inputs: TrajectoryInputs,
    metadata: JsonV,
    turns: Seq<TurnParts>,
    truncated: bool,
    span_unparsed: nat,
    reasons: Seq<Seq<char>>,
    unparsed: nat,
    carriers: Seq<JsonV>,
    timestamp_start: Seq<char>,
) -> JsonV {
    let fields = inputs.fields@;
    JsonV::Object(
        seq![
            ("trajectory_id"@, crate::trajectory::jstr(inputs.trajectory_id@)),
            ("version"@, crate::trajectory::jstr(crate::ots::OTS_VERSION@)),
            ("metadata"@, metadata),
            ("turns"@, JsonV::Array(turns.map_values(|t: TurnParts| turn_json(t)))),
            (
                "_token_usage"@,
                JsonV::Object(
                    seq![
                        ("input_tokens"@, usage(fields, "input_tokens"@)),
                        ("output_tokens"@, usage(fields, "output_tokens"@)),
                        ("context_tokens"@, usage(fields, "context_tokens"@)),
                    ],
                ),
            ),
            ("_session_turn_count"@, usage(fields, "turn_count"@)),
        ] + spec_document_tail(inputs, truncated, span_unparsed, reasons, unparsed, carriers, timestamp_start),
    )
}

/// The complete trajectory document for a finished session whose tree holds
/// `entries`.
///
/// Turns come from the resolved root-to-leaf chain, one per assistant entry.
/// Each turn's decisions are its assistant's tool calls plus the calls only
/// its answering observations name; each claims the earliest unclaimed span
/// carrying its id. Spans no call claims become decisions of the last turn
/// (or of a turn of their own), and a document always has at least one turn.
/// Inline text is charged to one budget, token signals to another, in the
/// order the document is written. What the document was built without is
/// recorded in `metadata.tags` and in the members that mark it.
pub open spec fn spec_assemble_trajectory(inputs: TrajectoryInputs, entries: Seq<TreeEntry>) -> JsonV {
    let fields = inputs.fields@;
    let (event_start, timestamp_end) = crate::trajectory::spec_event_bookends(inputs.entity_state@);
    let nonblank = nonblank_count(inputs.session_jsonl@);
    let unparsed: nat = if nonblank > entries.len() {
        (nonblank - entries.len()) as nat
    } else {
        0
    };
    let (chain, from_recorded_leaf) = spec_resolve_chain(entries, str_or(fields, "session_leaf_id"@, ""@));
    let drafts = group_from(entries, chain, seq![]);
    let timestamp_start = match first_recorded(entries, chain) {
        Some(t) => t,
        None => event_start,
    };
    let outcome = crate::ots::spec_derive_outcome(inputs.status@, spec_has_result(fields));
    let task = crate::text::spec_truncate(
        str_or(fields, "user_message"@, ""@),
        crate::ots::MAX_TASK_DESCRIPTION_CHARS as int,
    );
    let reasons = spec_transcript_reasons(inputs.transcript, unparsed, from_recorded_leaf, drafts.len() == 0);
    let (spans, truncated, span_unparsed) = crate::trajectory::span_document(
        crate::session::line_values(inputs.tool_spans_jsonl@),
    );
    let boundary = match crate::trajectory::state_events(inputs.entity_state@) {
        Some(events) => crate::trajectory::boundary_stamps(events),
        None => seq![],
    };
    let (turns, carriers, carried, dropped) = spec_core(
        entries,
        drafts,
        spans,
        boundary,
        timestamp_start,
        inputs.session_id@,
        inputs.status@ == "Failed"@,
    );
    let tags = head_tags(fields, inputs.spec_version@) + transcript_tags(reasons) + span_tags(
        truncated,
        span_unparsed,
        inputs.tool_spans_missing,
    ) + signal_tags(carried, dropped);
    spec_document(
        inputs,
        spec_metadata(inputs, task, timestamp_start, timestamp_end, outcome, tags),
        turns,
        truncated,
        span_unparsed,
        reasons,
        unparsed,
        carriers,
        timestamp_start,
    )
}

/// Append a string, keeping the views in step.
fn push_string(v: &mut Vec<String>, s: String)
    ensures
        strings_view(final(v)@) == strings_view(old(v)@).push(s@),
{
    let ghost before = v@;
    v.push(s);
    assert(strings_view(v@) =~= strings_view(before).push(s@));
}

/// `prefix` followed by `rest`.
fn concat(prefix: &str, rest: &str) -> (res: String)
    ensures
        res@ == prefix@ + rest@,
{
    let mut out = String::from_str(prefix);
    out.append(rest);
    out
}

/// The run-provenance tags.
fn build_head_tags(fields: &Json, spec_version: &str) -> (res: Vec<String>)
    ensures
        strings_view(res@) == head_tags(fields@, spec_version@),
{
    let mut tags: Vec<String> = Vec::new();
    assert(strings_view(tags@) =~= Seq::<Seq<char>>::empty());
    let model = crate::trajectory::field_str(fields, "model");
    if model.unicode_len() > 0 {
        push_string(&mut tags, model.to_string());
    }
    let provider = crate::trajectory::field_str(fields, "provider");
    if provider.unicode_len() > 0 {
        push_string(&mut tags, provider.to_string());
    }
    let mode = crate::trajectory::field_str(fields, "session_mode");
    if mode.unicode_len() > 0 {
        push_string(&mut tags, mode.to_string());
    }
    push_string(&mut tags, concat(crate::ots::HARNESS_TAG_PREFIX, crate::ots::HARNESS));
    if spec_version.unicode_len() > 0 {
        push_string(&mut tags, concat(crate::ots::SPEC_VERSION_TAG_PREFIX, spec_version));
    }
    assert(strings_view(tags@) =~= head_tags(fields@, spec_version@));
    tags
}

/// Why the transcript falls short.
fn transcript_reason_list(
    transcript: TranscriptPresence,
    unparsed: usize,
    from_recorded_leaf: bool,
    no_turns: bool,
) -> (res: Vec<String>)
    ensures
        strings_view(res@) == spec_transcript_reasons(transcript, unparsed as nat, from_recorded_leaf, no_turns),
{
    let mut reasons: Vec<String> = Vec::new();
    assert(strings_view(reasons@) =~= Seq::<Seq<char>>::empty());
    if !transcript.is_present() {
        push_string(&mut reasons, transcript.as_str().to_string());
    } else {
        if unparsed > 0 {
            push_string(&mut reasons, "unparseable".to_string());
        }
        if !from_recorded_leaf {
            push_string(&mut reasons, "leaf_unresolved".to_string());
        }
        if no_turns {
            push_string(&mut reasons, "no_turns".to_string());
        }
    }
    assert(strings_view(reasons@) =~= spec_transcript_reasons(
        transcript,
        unparsed as nat,
        from_recorded_leaf,
        no_turns,
    ));
    reasons
}

/// A degradation tag.
fn degraded(reason: &str) -> (res: String)
    ensures
        res@ == degraded_tag(reason@),
{
    concat(crate::ots::DEGRADED_TAG_PREFIX, reason)
}

/// Append the transcript, span-document and token-signal tags.
fn push_degradation_tags(tags: &mut Vec<String>, reasons: &Vec<String>, truncated: bool, span_unparsed: usize, missing: bool)
    ensures
        strings_view(final(tags)@) == strings_view(old(tags)@) + transcript_tags(strings_view(reasons@)) + span_tags(
            truncated,
            span_unparsed as nat,
            missing,
        ),
{
    let ghost start = strings_view(tags@);
    let ghost rv = strings_view(reasons@);
    let mut i: usize = 0;
    while i < reasons.len()
        invariant
            i <= reasons@.len(),
            rv == strings_view(reasons@),
            strings_view(tags@) == start + transcript_tags(rv.take(i as int)),
        decreases reasons@.len() - i,
    {
        let reason = concat("transcript_", reasons[i].as_str());
        push_string(tags, degraded(reason.as_str()));
        assert(transcript_tags(rv.take(i + 1)) =~= transcript_tags(rv.take(i as int)).push(
            degraded_tag("transcript_"@ + rv[i as int]),
        ));
        i += 1;
    }
    assert(rv.take(i as int) =~= rv);
    let ghost mid = strings_view(tags@);
    if truncated {
        push_string(tags, degraded("tool_spans_truncated"));
    }
    if span_unparsed > 0 {
        push_string(tags, degraded("tool_spans_unparseable"));
    }
    if missing {
        push_string(tags, degraded("tool_spans_missing_file"));
    }
    assert(strings_view(tags@) =~= mid + span_tags(truncated, span_unparsed as nat, missing));
}

/// Append the token-signal tags.
fn push_signal_tags(tags: &mut Vec<String>, carried: bool, dropped: bool)
    ensures
        strings_view(final(tags)@) == strings_view(old(tags)@) + signal_tags(carried, dropped),
{
    let ghost start = strings_view(tags@);
    if carried {
        push_string(tags, crate::ots::TOKEN_SIGNALS_TAG.to_string());
    }
    if dropped {
        push_string(tags, degraded("token_signals_dropped"));
    }
    assert(strings_view(tags@) =~= start + signal_tags(carried, dropped));
}

/// Strings as a JSON array.
fn strings_json(v: &Vec<String>) -> (res: Json)
    ensures
        res@ == JsonV::Array(jstrs(strings_view(v@))),
{
    let ghost sv = strings_view(v@);
    let mut items: Vec<Json> = Vec::new();
    proof {
        lemma_items_view_empty(items@);
    }
    let mut i: usize = 0;
    while i < v.len()
        invariant
            i <= v@.len(),
            sv == strings_view(v@),
            items_view(items@) == jstrs(sv.take(i as int)),
        decreases v@.len() - i,
    {
        push_item(&mut items, Json::String(v[i].clone()));
        assert(jstrs(sv.take(i + 1)) =~= jstrs(sv.take(i as int)).push(crate::trajectory::jstr(sv[i as int])));
        i += 1;
    }
    assert(sv.take(i as int) =~= sv);
    Json::Array(items)
}

/// The first recording time among the chain's entries.
fn first_recorded_time(entries: &Vec<TreeEntry>, chain: &Vec<usize>) -> (res: Option<String>)
    requires
        forall|k: int| 0 <= k < chain@.len() ==> (#[trigger] chain@[k] as int) < entries@.len(),
    ensures
        opt_string(res) == first_recorded(entries@, chain@),
{
    let mut i: usize = 0;
    assert(chain@.skip(0) =~= chain@);
    while i < chain.len()
        invariant
            i <= chain@.len(),
            forall|k: int| 0 <= k < chain@.len() ==> (#[trigger] chain@[k] as int) < entries@.len(),
            first_recorded(entries@, chain@) == first_recorded(entries@, chain@.skip(i as int)),
        decreases chain@.len() - i,
    {
        assert(chain@.skip(i as int).drop_first() =~= chain@.skip(i + 1));
        assert(chain@.skip(i as int)[0] == chain@[i as int]);
        match entries[chain[i]].recorded_at() {
            Some(t) => return Some(t),
            None => {},
        }
        i += 1;
    }
    None
}

/// The `metadata` object.
fn metadata_json(
    inputs: &TrajectoryInputs,
    task: String,
    timestamp_start: &str,
    timestamp_end: String,
    outcome: &str,
    tags: &Vec<String>,
) -> (res: Json)
    ensures
        res@ == spec_metadata(*inputs, task@, timestamp_start@, timestamp_end@, outcome@, strings_view(tags@)),
{
    let ghost task_v = task@;
    let ghost end_v = timestamp_end@;
    let mut m: Vec<(String, Json)> = Vec::new();
    proof {
        lemma_members_view_empty(m@);
    }
    push_member(&mut m, "trajectory_id", Json::String(inputs.trajectory_id.to_string()));
    push_member(&mut m, "task_description", Json::String(task));
    push_member(&mut m, "domain", Json::String("temperpaw-agent".to_string()));
    push_member(&mut m, "timestamp_start", Json::String(timestamp_start.to_string()));
    push_member(&mut m, "timestamp_end", Json::String(timestamp_end));
    push_member(&mut m, "agent_id", Json::String(inputs.agent_id.to_string()));
    push_member(&mut m, "framework", Json::String("temperpaw".to_string()));
    push_member(&mut m, "harness", Json::String(crate::ots::HARNESS.to_string()));
    push_member(&mut m, "environment", Json::String("production".to_string()));
    push_member(&mut m, "outcome", Json::String(outcome.to_string()));
    push_member(&mut m, "tags", strings_json(tags));
    if inputs.spec_version.unicode_len() > 0 {
        push_member(&mut m, "spec_version", Json::String(inputs.spec_version.to_string()));
    }
    assert(members_view(m@) =~= seq![
        ("trajectory_id"@, crate::trajectory::jstr(inputs.trajectory_id@)),
        ("task_description"@, crate::trajectory::jstr(task_v)),
        ("domain"@, crate::trajectory::jstr("temperpaw-agent"@)),
        ("timestamp_start"@, crate::trajectory::jstr(timestamp_start@)),
        ("timestamp_end"@, crate::trajectory::jstr(end_v)),
        ("agent_id"@, crate::trajectory::jstr(inputs.agent_id@)),
        ("framework"@, crate::trajectory::jstr("temperpaw"@)),
        ("harness"@, crate::trajectory::jstr(crate::ots::HARNESS@)),
        ("environment"@, crate::trajectory::jstr("production"@)),
        ("outcome"@, crate::trajectory::jstr(outcome@)),
        ("tags"@, JsonV::Array(jstrs(strings_view(tags@)))),
    ] + if inputs.spec_version@.len() > 0 {
        seq![("spec_version"@, crate::trajectory::jstr(inputs.spec_version@))]
    } else {
        seq![]
    });
    Json::Object(m)
}

/// The session's files as resources.
fn resources_of(fields: &Json) -> (res: Vec<Json>)
    ensures
        items_view(res@) == spec_resources(fields@),
{
    let mut resources: Vec<Json> = Vec::new();
    proof {
        lemma_items_view_empty(resources@);
    }
    crate::trajectory::file_resource(&mut resources, "session_tree", crate::trajectory::field_str(fields, "session_file_id"));
    crate::trajectory::file_resource(&mut resources, "tool_spans", crate::trajectory::field_str(fields, "tool_spans_file_id"));
    crate::trajectory::file_resource(
        &mut resources,
        "prepared_context",
        crate::trajectory::field_str(fields, "prepared_context_file_id"),
    );
    crate::trajectory::file_resource(
        &mut resources,
        "provider_response",
        crate::trajectory::field_str(fields, "provider_response_file_id"),
    );
    crate::trajectory::file_resource(
        &mut resources,
        "system_prompt",
        crate::trajectory::field_str(fields, "system_prompt_file_id"),
    );
    assert(items_view(resources@) =~= spec_resources(fields@));
    resources
}

/// A usage count as JSON.
fn usage_json(fields: &Json, key: &str) -> (res: Json)
    ensures
        res@ == usage(fields@, key@),
{
    let n: u64 = match crate::session::get_u64(fields, key) {
        Some(n) => n,
        None => 0,
    };
    Json::Number(JsonNumber::PosInt(n))
}

/// The `_transcript` marker.
fn transcript_marker_json(present: bool, reasons: &Vec<String>, unparsed: usize) -> (res: Json)
    ensures
        res@ == transcript_marker(present, strings_view(reasons@), unparsed as nat),
{
    let mut marker: Vec<(String, Json)> = Vec::new();
    proof {
        lemma_members_view_empty(marker@);
    }
    push_member(&mut marker, "present", Json::Bool(present));
    push_member(&mut marker, "reasons", strings_json(reasons));
    if unparsed > 0 {
        push_member(&mut marker, "unparsed_lines", Json::Number(JsonNumber::PosInt(unparsed as u64)));
    }
    assert(members_view(marker@) =~= seq![
        ("present"@, JsonV::Bool(present)),
        ("reasons"@, JsonV::Array(jstrs(strings_view(reasons@)))),
    ] + if unparsed > 0 {
        seq![("unparsed_lines"@, crate::trajectory::juint(unparsed as u64))]
    } else {
        seq![]
    });
    Json::Object(marker)
}

/// Append the members that mark what the document was built without.
fn push_gaps(
    doc: &mut Vec<(String, Json)>,
    truncated: bool,
    span_unparsed: usize,
    reasons: &Vec<String>,
    present: bool,
    unparsed: usize,
    missing: bool,
)
    ensures
        members_view(final(doc)@) == members_view(old(doc)@) + gap_members(
            truncated,
            span_unparsed as nat,
            strings_view(reasons@),
            present,
            unparsed as nat,
            missing,
        ),
{
    let ghost start = members_view(doc@);
    if truncated {
        push_member(doc, "_tool_spans_truncated", Json::Bool(true));
    }
    if span_unparsed > 0 {
        push_member(doc, "_tool_spans_unparsed_lines", Json::Number(JsonNumber::PosInt(span_unparsed as u64)));
    }
    if reasons.len() > 0 {
        push_member(doc, "_transcript", transcript_marker_json(present, reasons, unparsed));
    }
    if missing {
        push_member(doc, "_tool_spans_missing", Json::Bool(true));
    }
    assert(members_view(doc@) =~= start + gap_members(
        truncated,
        span_unparsed as nat,
        strings_view(reasons@),
        present,
        unparsed as nat,
        missing,
    ));
}

/// Append the `context` member, when there is anything to put in it.
fn push_context(doc: &mut Vec<(String, Json)>, resources: Vec<Json>, carriers: Vec<Json>)
    ensures
        members_view(final(doc)@) == members_view(old(doc)@) + context_members(
            items_view(resources@),
            items_view(carriers@),
        ),
{
    let ghost start = members_view(doc@);
    let ghost rv = items_view(resources@);
    let ghost cv = items_view(carriers@);
    proof {
        lemma_items_view(resources@);
        lemma_items_view(carriers@);
    }
    let has_resources = resources.len() > 0;
    let has_carriers = carriers.len() > 0;
    if has_resources || has_carriers {
        let mut context: Vec<(String, Json)> = Vec::new();
        proof {
            lemma_members_view_empty(context@);
        }
        if has_resources {
            push_member(&mut context, "resources", Json::Array(resources));
        }
        if has_carriers {
            push_member(&mut context, "entities", Json::Array(carriers));
        }
        let ghost ctx = members_view(context@);
        assert(ctx =~= (if rv.len() > 0 {
            seq![("resources"@, JsonV::Array(rv))]
        } else {
            seq![]
        }) + if cv.len() > 0 {
            seq![("entities"@, JsonV::Array(cv))]
        } else {
            seq![]
        });
        push_member(doc, "context", Json::Object(context));
        assert(members_view(doc@) =~= start + context_members(rv, cv));
    } else {
        assert(members_view(doc@) =~= start + context_members(rv, cv));
    }
}

/// Append the `system_message` member, when there is a system prompt.
fn push_system_message(doc: &mut Vec<(String, Json)>, system_prompt: &str, timestamp_start: &str)
    ensures
        members_view(final(doc)@) == members_view(old(doc)@) + system_members(system_prompt@, timestamp_start@),
{
    let ghost start = members_view(doc@);
    if system_prompt.unicode_len() > 0 {
        let mut message: Vec<(String, Json)> = Vec::new();
        proof {
            lemma_members_view_empty(message@);
        }
        push_member(
            &mut message,
            "content",
            Json::String(crate::ots::truncate_chars(system_prompt, crate::ots::MAX_SYSTEM_PROMPT_CHARS)),
        );
        push_member(&mut message, "timestamp", Json::String(timestamp_start.to_string()));
        let ghost mv = members_view(message@);
        assert(mv =~= seq![
            (
                "content"@,
                crate::trajectory::jstr(
                    crate::text::spec_truncate(system_prompt@, crate::ots::MAX_SYSTEM_PROMPT_CHARS as int),
                ),
            ),
            ("timestamp"@, crate::trajectory::jstr(timestamp_start@)),
        ]);
        push_member(doc, "system_message", Json::Object(message));
        assert(members_view(doc@) =~= start + system_members(system_prompt@, timestamp_start@));
    } else {
        assert(members_view(doc@) =~= start + system_members(system_prompt@, timestamp_start@));
    }
}

/// A copy of some JSON values.
fn dup_items(v: &Vec<Json>) -> (res: Vec<Json>)
    ensures
        items_view(res@) == items_view(v@),
{
    let ghost iv = items_view(v@);
    proof {
        lemma_items_view(v@);
    }
    let mut out: Vec<Json> = Vec::new();
    proof {
        lemma_items_view_empty(out@);
    }
    let mut i: usize = 0;
    while i < v.len()
        invariant
            i <= v@.len(),
            iv == items_view(v@),
            iv.len() == v@.len(),
            forall|q: int| 0 <= q < v@.len() ==> #[trigger] iv[q] == v@[q]@,
            items_view(out@) == iv.take(i as int),
        decreases v@.len() - i,
    {
        push_item(&mut out, v[i].duplicate());
        assert(iv.take(i + 1) =~= iv.take(i as int).push(iv[i as int]));
        i += 1;
    }
    assert(iv.take(i as int) =~= iv);
    out
}

/// A copy of a turn under construction.
fn dup_turn(t: &TurnBuild) -> (res: TurnBuild)
    ensures
        turn_parts(res) == turn_parts(*t),
{
    let ghost ev = members_view(t.extra@);
    proof {
        lemma_members_view(t.extra@);
    }
    let mut extra: Vec<(String, Json)> = Vec::new();
    proof {
        lemma_members_view_empty(extra@);
    }
    let mut k: usize = 0;
    while k < t.extra.len()
        invariant
            k <= t.extra@.len(),
            ev == members_view(t.extra@),
            ev.len() == t.extra@.len(),
            forall|q: int| 0 <= q < t.extra@.len() ==> #[trigger] ev[q] == (t.extra@[q].0@, t.extra@[q].1@),
            members_view(extra@) == ev.take(k as int),
        decreases t.extra@.len() - k,
    {
        push_member(&mut extra, t.extra[k].0.as_str(), t.extra[k].1.duplicate());
        assert(ev.take(k + 1) =~= ev.take(k as int).push(ev[k as int]));
        k += 1;
    }
    assert(ev.take(k as int) =~= ev);
    TurnBuild {
        turn_id: t.turn_id,
        span_id: t.span_id.clone(),
        timestamp: t.timestamp.clone(),
        error: t.error,
        messages: dup_items(&t.messages),
        decisions: dup_items(&t.decisions),
        extra,
    }
}

/// The turns as JSON, in order.
fn turns_json(turns: &Vec<TurnBuild>) -> (res: Json)
    ensures
        res@ == JsonV::Array(turns@.map_values(|t: TurnBuild| turn_parts(t)).map_values(|t: TurnParts| turn_json(t))),
{
    let ghost tv = turns@.map_values(|t: TurnBuild| turn_parts(t)).map_values(|t: TurnParts| turn_json(t));
    let mut items: Vec<Json> = Vec::new();
    proof {
        lemma_items_view_empty(items@);
    }
    let mut i: usize = 0;
    while i < turns.len()
        invariant
            i <= turns@.len(),
            tv == turns@.map_values(|t: TurnBuild| turn_parts(t)).map_values(|t: TurnParts| turn_json(t)),
            items_view(items@) == tv.take(i as int),
        decreases turns@.len() - i,
    {
        push_item(&mut items, turn_to_json(dup_turn(&turns[i])));
        assert(tv.take(i + 1) =~= tv.take(i as int).push(tv[i as int]));
        i += 1;
    }
    assert(tv.take(i as int) =~= tv);
    Json::Array(items)
}

/// Build the turns, fold in the unclaimed spans' decisions, and report the
/// signal carriers and whether a signal was carried or dropped.
fn core_turns(
    entries: &Vec<TreeEntry>,
    drafts: &Vec<TurnDraft>,
    spans: &Vec<Json>,
    boundary: &Vec<String>,
    timestamp_start: &str,
    session_id: &str,
    failed_status: bool,
) -> (res: (Vec<TurnBuild>, Vec<Json>, bool, bool))
    requires
        all_drafts_in_range(drafts_view(drafts@), entries@.len() as int),
    ensures
        (res.0@.map_values(|t: TurnBuild| turn_parts(t)), items_view(res.1@), res.2, res.3) == spec_core(
            entries@,
            drafts_view(drafts@),
            items_view(spans@),
            strings_view(boundary@),
            timestamp_start@,
            session_id@,
            failed_status,
        ),
{
    let queues = span_queues(spans);
    let (turns, carriers, carried, dropped, claimed, budget) = build_turns(
        entries,
        drafts,
        spans,
        &queues,
        boundary,
        timestamp_start,
        session_id,
    );
    let mut budget = budget;
    let (orphans, orphan_failed) = orphan_spans(spans, &claimed, &mut budget);
    let turns = finish_turns(turns, orphans, orphan_failed, session_id, timestamp_start, failed_status);
    proof {
        let st = spec_turns(
            entries@,
            drafts_view(drafts@),
            items_view(spans@),
            strings_view(boundary@),
            timestamp_start@,
            session_id@,
            drafts@.len() as int,
        );
        assert(drafts_view(drafts@).len() == drafts@.len());
        let (o, of, _) = orphan_decisions(items_view(spans@), st.claimed, st.remaining, items_view(spans@).len() as int);
        assert(items_view(spans@).len() == spans@.len()) by {
            lemma_items_view(spans@);
        }
        assert(turns@.map_values(|t: TurnBuild| turn_parts(t)) == final_turns(
            st.turns,
            o,
            of,
            session_id@,
            timestamp_start@,
            failed_status,
        ));
    }
    (turns, carriers, carried, dropped)
}

/// The document from its metadata, its turns, and what its tail records.
#[verifier::spinoff_prover]
#[verifier::rlimit(40)]
fn document_json(
    inputs: &TrajectoryInputs,
    metadata: Json,
    turns: &Vec<TurnBuild>,
    truncated: bool,
    span_unparsed: usize,
    reasons: &Vec<String>,
    unparsed: usize,
    carriers: Vec<Json>,
    timestamp_start: &str,
) -> (res: Json)
    ensures
        res@ == spec_document(
            *inputs,
            metadata@,
            turns@.map_values(|t: TurnBuild| turn_parts(t)),
            truncated,
            span_unparsed as nat,
            strings_view(reasons@),
            unparsed as nat,
            items_view(carriers@),
            timestamp_start@,
        ),
{
    let fields = inputs.fields;
    let ghost mv = metadata@;
    let mut doc: Vec<(String, Json)> = Vec::new();
    proof {
        lemma_members_view_empty(doc@);
    }
    push_member(&mut doc, "trajectory_id", Json::String(inputs.trajectory_id.to_string()));
    push_member(&mut doc, "version", Json::String(crate::ots::OTS_VERSION.to_string()));
    push_member(&mut doc, "metadata", metadata);
    push_member(&mut doc, "turns", turns_json(turns));
    let mut token_usage: Vec<(String, Json)> = Vec::new();
    proof {
        lemma_members_view_empty(token_usage@);
    }
    push_member(&mut token_usage, "input_tokens", usage_json(fields, "input_tokens"));
    push_member(&mut token_usage, "output_tokens", usage_json(fields, "output_tokens"));
    push_member(&mut token_usage, "context_tokens", usage_json(fields, "context_tokens"));
    let ghost uv = members_view(token_usage@);
    assert(uv =~= seq![
        ("input_tokens"@, usage(fields@, "input_tokens"@)),
        ("output_tokens"@, usage(fields@, "output_tokens"@)),
        ("context_tokens"@, usage(fields@, "context_tokens"@)),
    ]);
    push_member(&mut doc, "_token_usage", Json::Object(token_usage));
    push_member(&mut doc, "_session_turn_count", usage_json(fields, "turn_count"));
    let ghost head = members_view(doc@);
    let ghost carriers_v = items_view(carriers@);
    push_gaps(
        &mut doc,
        truncated,
        span_unparsed,
        reasons,
        inputs.transcript.is_present(),
        unparsed,
        inputs.tool_spans_missing,
    );
    push_context(&mut doc, resources_of(fields), carriers);
    push_system_message(&mut doc, crate::trajectory::field_str(fields, "system_prompt"), timestamp_start);
    assert(members_view(doc@) =~= spec_document(
        *inputs,
        mv,
        turns@.map_values(|t: TurnBuild| turn_parts(t)),
        truncated,
        span_unparsed as nat,
        strings_view(reasons@),
        unparsed as nat,
        carriers_v,
        timestamp_start@,
    )->Object_0);
    Json::Object(doc)
}

/// Assemble the complete trajectory document from a session's entries.
#[verifier::spinoff_prover]
#[verifier::rlimit(60)]
pub fn assemble_trajectory(inputs: &TrajectoryInputs, entries: &Vec<TreeEntry>) -> (res: Json)
    ensures
        res@ == spec_assemble_trajectory(*inputs, entries@),
{
    let fields = inputs.fields;
    let n_entries = entries.len();
    let (event_start, timestamp_end) = crate::trajectory::extract_event_bookends(inputs.entity_state);
    let nonblank = count_nonblank(inputs.session_jsonl);
    let unparsed: usize = if nonblank > n_entries { nonblank - n_entries } else { 0 };
    let leaf = crate::trajectory::field_str(fields, "session_leaf_id");
    let resolved = resolve_chain(entries, leaf);
    proof {
        lemma_turns_in_range(entries@, leaf@);
    }
    let chain = resolved.chain;
    let from_recorded_leaf = resolved.from_recorded_leaf;
    let drafts = group_turns(entries, &chain);
    proof {
        assert forall|t: int| 0 <= t < drafts_view(drafts@).len() implies drafts_in_range(
            #[trigger] drafts_view(drafts@)[t],
            entries@.len() as int,
        ) by {
            assert(drafts_view(drafts@) == group_from(entries@, chain@, seq![]));
        }
    }
    let timestamp_start: String = match first_recorded_time(entries, &chain) {
        Some(t) => t,
        None => event_start,
    };
    let outcome = crate::ots::derive_outcome(inputs.status, has_result_flag(fields));
    let task = crate::ots::truncate_chars(
        crate::trajectory::field_str(fields, "user_message"),
        crate::ots::MAX_TASK_DESCRIPTION_CHARS,
    );
    let reasons = transcript_reason_list(inputs.transcript, unparsed, from_recorded_leaf, drafts.len() == 0);
    let span_document = crate::trajectory::parse_tool_span_document(inputs.tool_spans_jsonl);
    let mut tags = build_head_tags(fields, inputs.spec_version);
    push_degradation_tags(
        &mut tags,
        &reasons,
        span_document.truncated,
        span_document.unparsed_lines,
        inputs.tool_spans_missing,
    );
    let spans = span_document.spans;
    let boundary = crate::trajectory::turn_boundary_event_timestamps(inputs.entity_state);
    let ghost boundary_v = strings_view(boundary@);
    let (turns, carriers, carried, dropped) = core_turns(
        entries,
        &drafts,
        &spans,
        &boundary,
        timestamp_start.as_str(),
        inputs.session_id,
        str_eq(inputs.status, "Failed"),
    );
    push_signal_tags(&mut tags, carried, dropped);
    let ghost carriers_v = items_view(carriers@);
    let ghost task_v = task@;
    let ghost end_v = timestamp_end@;
    let metadata = metadata_json(inputs, task, timestamp_start.as_str(), timestamp_end, outcome, &tags);
    let res = document_json(
        inputs,
        metadata,
        &turns,
        span_document.truncated,
        span_document.unparsed_lines,
        &reasons,
        unparsed,
        carriers,
        timestamp_start.as_str(),
    );
    proof {
        let fv = fields@;
        let (es, te) = crate::trajectory::spec_event_bookends(inputs.entity_state@);
        assert(timestamp_end@ == te);
        let (c, fl) = spec_resolve_chain(entries@, str_or(fv, "session_leaf_id"@, ""@));
        assert(chain@ == c);
        let dr = group_from(entries@, c, seq![]);
        assert(drafts_view(drafts@) == dr);
        let tss = match first_recorded(entries@, c) {
            Some(t) => t,
            None => es,
        };
        assert(timestamp_start@ == tss);
        let (sp, tr, su) = crate::trajectory::span_document(crate::session::line_values(inputs.tool_spans_jsonl@));
        assert(items_view(spans@) == sp);
        let bd = match crate::trajectory::state_events(inputs.entity_state@) {
            Some(events) => crate::trajectory::boundary_stamps(events),
            None => seq![],
        };
        assert(strings_view(boundary@) =~= bd);
        let (tsv, cv, ca, dd) = spec_core(entries@, dr, sp, bd, tss, inputs.session_id@, inputs.status@ == "Failed"@);
        assert(turns@.map_values(|t: TurnBuild| turn_parts(t)) == tsv);
        assert(carriers_v == cv);
        let nb = nonblank_count(inputs.session_jsonl@);
        let up: nat = if nb > entries@.len() { (nb - entries@.len()) as nat } else { 0 };
        assert(unparsed as nat == up);
        let rs = spec_transcript_reasons(inputs.transcript, up, fl, dr.len() == 0);
        assert(strings_view(reasons@) == rs);
        let tg = head_tags(fv, inputs.spec_version@) + transcript_tags(rs) + span_tags(tr, su, inputs.tool_spans_missing)
            + signal_tags(ca, dd);
        assert(strings_view(tags@) == tg);
    }
    res
}

/// `entries` are the entries read from the JSONL `text`, in order.
pub open spec fn parsed_entries(entries: Seq<TreeEntry>, text: Seq<char>) -> bool {
    let values = crate::session::entry_values(crate::session::line_values(text));
    &&& entries.len() == values.len()
    &&& forall|i: int| 0 <= i < entries.len() ==> crate::session::entry_of(#[trigger] entries[i], values[i])
}

/// Assemble a complete OTS trajectory document: the entries of the session
/// JSONL, read as `parse_session_entries` reads them, assembled as
/// `spec_assemble_trajectory` describes.
pub fn build_trajectory(inputs: &TrajectoryInputs) -> (res: Json)
    ensures
        exists|entries: Seq<TreeEntry>|
            parsed_entries(entries, inputs.session_jsonl@) && res@ == spec_assemble_trajectory(*inputs, entries),
{
    let entries = crate::session::parse_session_entries(inputs.session_jsonl);
    let res = assemble_trajectory(inputs, &entries);
    assert(parsed_entries(entries@, inputs.session_jsonl@));
    res
}

/// The member `key` of some members, when one carries it.
pub open spec fn member(members: Seq<(Seq<char>, JsonV)>, key: Seq<char>) -> Option<JsonV> {
    crate::json::members_get(members, key)
}

/// Every decision names its cause by its own id: `cause_id` mirrors
/// `decision_id`, so the decision-to-observation join never depends on a
/// field a consumer may drop.
pub proof fn law_cause_id_mirrors_decision_id(
    call: (Seq<char>, Seq<char>, Option<JsonV>),
    observation: Option<(bool, Seq<char>)>,
    span: Option<JsonV>,
    remaining: int,
)
    ensures
        ({
            let d = crate::trajectory::spec_build_decision(call, observation, span, remaining).0;
            &&& d is Object
            &&& member(d->Object_0, "decision_id"@) == Some(crate::trajectory::jstr(call.0))
            &&& member(d->Object_0, "cause_id"@) == Some(crate::trajectory::jstr(call.0))
        }),
{
    let d = crate::trajectory::spec_build_decision(call, observation, span, remaining).0;
    let ms = d->Object_0;
    reveal_strlit("decision_id");
    reveal_strlit("decision_type");
    reveal_strlit("cause_id");
    assert(ms[0].0 == "decision_id"@);
    assert(ms[1].0 == "decision_type"@);
    assert(ms[2].0 == "cause_id"@);
    assert(ms.len() >= 5);
    assert(ms.drop_first()[0] == ms[1]);
    assert(ms.drop_first().drop_first()[0] == ms[2]);
    assert("decision_type"@ != "cause_id"@) by {
        assert("decision_type"@.len() != "cause_id"@.len());
    }
    assert("decision_id"@ != "cause_id"@) by {
        assert("decision_id"@[2] != "cause_id"@[2]);
    }
    assert(crate::json::members_get(ms, "decision_id"@) == Some(ms[0].1));
    let rest2 = ms.drop_first().drop_first();
    assert(crate::json::members_get(rest2, "cause_id"@) == Some(ms[2].1));
    assert(crate::json::members_get(ms.drop_first(), "cause_id"@) == crate::json::members_get(rest2, "cause_id"@));
    assert(crate::json::members_get(ms, "cause_id"@) == crate::json::members_get(ms.drop_first(), "cause_id"@));
}

/// A trajectory document always has at least one turn, even for a session
/// with no transcript and no spans.
pub proof fn law_document_has_a_turn(
    turns: Seq<TurnParts>,
    orphans: Seq<JsonV>,
    orphan_failed: bool,
    session_id: Seq<char>,
    timestamp_start: Seq<char>,
    failed_status: bool,
)
    ensures
        final_turns(turns, orphans, orphan_failed, session_id, timestamp_start, failed_status).len() >= 1,
{
}

/// No decision is lost or made up for a span: every span a turn did not
/// claim becomes exactly one decision, in execution order.
pub proof fn law_unclaimed_spans_become_decisions(spans: Seq<JsonV>, claimed: Seq<bool>, remaining: int, n: int)
    requires
        0 <= n <= spans.len(),
        claimed.len() == spans.len(),
    ensures
        orphan_decisions(spans, claimed, remaining, n).0.len() == Seq::new(n as nat, |k: int| k).filter(
            |k: int| !claimed[k],
        ).len(),
    decreases n,
{
    if n > 0 {
        law_unclaimed_spans_become_decisions(spans, claimed, remaining, n - 1);
        let f = |k: int| !claimed[k];
        Seq::new((n - 1) as nat, |k: int| k).lemma_filter_push(n - 1, f);
        assert(Seq::new(n as nat, |k: int| k) =~= Seq::new((n - 1) as nat, |k: int| k).push(n - 1));
    }
}

/// What a sequence of takes keeps in all, from a budget with `remaining`
/// characters, each take capped at `cap`.
pub open spec fn kept_in_all(texts: Seq<Seq<char>>, remaining: int, cap: int) -> (int, int)
    decreases texts.len(),
{
    if texts.len() == 0 {
        (0, remaining)
    } else {
        let (kept, left) = kept_in_all(texts.drop_last(), remaining, cap);
        let (k, _, l) = crate::ots::spec_take(left, texts.last(), cap);
        (kept + k.len(), l)
    }
}

/// The inline budget bounds the whole document: however many texts are
/// taken from it, and however long, what is kept in all never exceeds the
/// budget it started with, and the budget never goes below zero.
pub proof fn law_inline_budget_bounds_total(texts: Seq<Seq<char>>, remaining: int, cap: int)
    requires
        remaining >= 0,
        cap >= 0,
    ensures
        kept_in_all(texts, remaining, cap).0 + kept_in_all(texts, remaining, cap).1 == remaining,
        0 <= kept_in_all(texts, remaining, cap).1,
        kept_in_all(texts, remaining, cap).0 <= remaining,
    decreases texts.len(),
{
    if texts.len() > 0 {
        law_inline_budget_bounds_total(texts.drop_last(), remaining, cap);
    }
}

/// Each turn step adds exactly one turn, numbered after the turns before it.
proof fn lemma_turn_step_numbers(
    entries: Seq<TreeEntry>,
    drafts: Seq<(Seq<usize>, Option<usize>)>,
    spans: Seq<JsonV>,
    boundary: Seq<Seq<char>>,
    timestamp_start: Seq<char>,
    session_id: Seq<char>,
    s: TurnsState,
    t: int,
)
    ensures
        ({
            let next = spec_turn_step(entries, drafts, spans, boundary, timestamp_start, session_id, s, t);
            &&& next.turns.len() == s.turns.len() + 1
            &&& next.turns.drop_last() == s.turns
            &&& next.turns.last().turn_id == (t + 1) as i64
        }),
{
    let next = spec_turn_step(entries, drafts, spans, boundary, timestamp_start, session_id, s, t);
    assert(next.turns.drop_last() =~= s.turns);
}

/// After `n` turn steps there are `n` turns, numbered 1 to `n`.
proof fn lemma_turns_numbered(
    entries: Seq<TreeEntry>,
    drafts: Seq<(Seq<usize>, Option<usize>)>,
    spans: Seq<JsonV>,
    boundary: Seq<Seq<char>>,
    timestamp_start: Seq<char>,
    session_id: Seq<char>,
    n: int,
)
    requires
        0 <= n < i64::MAX,
    ensures
        ({
            let turns = spec_turns(entries, drafts, spans, boundary, timestamp_start, session_id, n).turns;
            &&& turns.len() == n
            &&& forall|k: int| 0 <= k < n ==> #[trigger] turns[k].turn_id == k + 1
        }),
    decreases n,
{
    if n > 0 {
        lemma_turns_numbered(entries, drafts, spans, boundary, timestamp_start, session_id, n - 1);
        let prev = spec_turns(entries, drafts, spans, boundary, timestamp_start, session_id, n - 1);
        lemma_turn_step_numbers(entries, drafts, spans, boundary, timestamp_start, session_id, prev, n - 1);
        let turns = spec_turns(entries, drafts, spans, boundary, timestamp_start, session_id, n).turns;
        assert forall|k: int| 0 <= k < n implies #[trigger] turns[k].turn_id == k + 1 by {
            if k < n - 1 {
                assert(turns[k] == turns.drop_last()[k]);
            }
        }
    }
}

/// The turns of every document are numbered 1, 2, ... in order, and there
/// is at least one: unclaimed decisions join the last turn without changing
/// its number, and a session without turns gets the single turn 1.
pub proof fn law_turns_are_numbered_from_one(
    entries: Seq<TreeEntry>,
    drafts: Seq<(Seq<usize>, Option<usize>)>,
    spans: Seq<JsonV>,
    boundary: Seq<Seq<char>>,
    timestamp_start: Seq<char>,
    session_id: Seq<char>,
    failed_status: bool,
)
    requires
        drafts.len() < i64::MAX,
    ensures
        ({
            let turns = spec_core(entries, drafts, spans, boundary, timestamp_start, session_id, failed_status).0;
            &&& turns.len() >= 1
            &&& forall|k: int| 0 <= k < turns.len() ==> #[trigger] turns[k].turn_id == k + 1
        }),
{
    let n = drafts.len() as int;
    lemma_turns_numbered(entries, drafts, spans, boundary, timestamp_start, session_id, n);
    let st = spec_turns(entries, drafts, spans, boundary, timestamp_start, session_id, n);
    let (orphans, orphan_failed, _) = orphan_decisions(spans, st.claimed, st.remaining, spans.len() as int);
    let turns = final_turns(st.turns, orphans, orphan_failed, session_id, timestamp_start, failed_status);
    assert forall|k: int| 0 <= k < turns.len() implies #[trigger] turns[k].turn_id == k + 1 by {
        if orphans.len() > 0 && st.turns.len() > 0 {
            if k < st.turns.len() - 1 {
                assert(turns[k] == st.turns[k]);
            }
        }
    }
}

/// Every document carries the run's identity: its trajectory id (also in
/// its metadata) and the format version come first; the metadata gives the
/// outcome the status and result make, the user message cut to the task
/// length, the harness tag always and the spec version tag when there is a
/// spec version, and the `spec_version` member exactly then.
pub proof fn law_document_identity(inputs: TrajectoryInputs, entries: Seq<TreeEntry>)
    ensures
        ({
            let doc = spec_assemble_trajectory(inputs, entries);
            let fields = inputs.fields@;
            let ms = doc->Object_0;
            let md = ms[2].1->Object_0;
            let tags = md[10].1->Array_0;
            &&& doc is Object
            &&& ms[0] == ("trajectory_id"@, crate::trajectory::jstr(inputs.trajectory_id@))
            &&& ms[1] == ("version"@, crate::trajectory::jstr(crate::ots::OTS_VERSION@))
            &&& ms[2].0 == "metadata"@ && ms[2].1 is Object
            &&& md[0] == ("trajectory_id"@, crate::trajectory::jstr(inputs.trajectory_id@))
            &&& md[1] == ("task_description"@, crate::trajectory::jstr(
                crate::text::spec_truncate(str_or(fields, "user_message"@, ""@), crate::ots::MAX_TASK_DESCRIPTION_CHARS as int),
            ))
            &&& md[9] == ("outcome"@, crate::trajectory::jstr(
                crate::ots::spec_derive_outcome(inputs.status@, spec_has_result(fields)),
            ))
            &&& md[10].0 == "tags"@ && md[10].1 is Array
            &&& tags.contains(crate::trajectory::jstr(crate::ots::HARNESS_TAG_PREFIX@ + crate::ots::HARNESS@))
            &&& inputs.spec_version@.len() > 0 ==> tags.contains(
                crate::trajectory::jstr(crate::ots::SPEC_VERSION_TAG_PREFIX@ + inputs.spec_version@),
            )
            &&& md.len() == if inputs.spec_version@.len() > 0 { 12int } else { 11int }
        }),
{
    let fields = inputs.fields@;
    let doc = spec_assemble_trajectory(inputs, entries);
    let ms = doc->Object_0;
    let md = ms[2].1->Object_0;
    let ht = head_tags(fields, inputs.spec_version@);
    let pre = field_tag(fields, "model"@) + field_tag(fields, "provider"@) + field_tag(fields, "session_mode"@);
    let harness = crate::ots::HARNESS_TAG_PREFIX@ + crate::ots::HARNESS@;
    assert(ht[pre.len() as int] == harness);
    let tags = md[10].1->Array_0;
    assert(md[10].1 == JsonV::Array(jstrs(md_tags(inputs, entries))));
    assert(tags[pre.len() as int] == crate::trajectory::jstr(harness));
    if inputs.spec_version@.len() > 0 {
        let svt = crate::ots::SPEC_VERSION_TAG_PREFIX@ + inputs.spec_version@;
        assert(ht[pre.len() as int + 1] == svt);
        assert(tags[pre.len() as int + 1] == crate::trajectory::jstr(svt));
    }
}

/// The tags a document's metadata lists.
pub open spec fn md_tags(inputs: TrajectoryInputs, entries: Seq<TreeEntry>) -> Seq<Seq<char>> {
    let fields = inputs.fields@;
    let nonblank = nonblank_count(inputs.session_jsonl@);
    let unparsed: nat = if nonblank > entries.len() {
        (nonblank - entries.len()) as nat
    } else {
        0
    };
    let (chain, from_recorded_leaf) = spec_resolve_chain(entries, str_or(fields, "session_leaf_id"@, ""@));
    let drafts = group_from(entries, chain, seq![]);
    let (event_start, timestamp_end) = crate::trajectory::spec_event_bookends(inputs.entity_state@);
    let timestamp_start = match first_recorded(entries, chain) {
        Some(t) => t,
        None => event_start,
    };
    let reasons = spec_transcript_reasons(inputs.transcript, unparsed, from_recorded_leaf, drafts.len() == 0);
    let (spans, truncated, span_unparsed) = crate::trajectory::span_document(
        crate::session::line_values(inputs.tool_spans_jsonl@),
    );
    let boundary = match crate::trajectory::state_events(inputs.entity_state@) {
        Some(events) => crate::trajectory::boundary_stamps(events),
        None => seq![],
    };
    let (turns, carriers, carried, dropped) = spec_core(
        entries,
        drafts,
        spans,
        boundary,
        timestamp_start,
        inputs.session_id@,
        inputs.status@ == "Failed"@,
    );
    head_tags(fields, inputs.spec_version@) + transcript_tags(reasons) + span_tags(
        truncated,
        span_unparsed,
        inputs.tool_spans_missing,
    ) + signal_tags(carried, dropped)
}

/// The turn drafts a document is built from.
pub open spec fn turn_drafts(inputs: TrajectoryInputs, entries: Seq<TreeEntry>) -> Seq<(Seq<usize>, Option<usize>)> {
    let fields = inputs.fields@;
    let (chain, _) = spec_resolve_chain(entries, str_or(fields, "session_leaf_id"@, ""@));
    group_from(entries, chain, seq![])
}

/// The `turns` member of every document holds at least one turn, and its
/// `k`-th turn (from 0) has `turn_id` `k + 1`; turn ids are 64-bit, so the
/// session may have fewer turn drafts than the largest one.
pub proof fn law_document_turns_numbered(inputs: TrajectoryInputs, entries: Seq<TreeEntry>)
    requires
        turn_drafts(inputs, entries).len() < i64::MAX,
    ensures
        ({
            let doc = spec_assemble_trajectory(inputs, entries);
            let turns = doc->Object_0[3].1->Array_0;
            &&& doc->Object_0[3].0 == "turns"@
            &&& doc->Object_0[3].1 is Array
            &&& turns.len() >= 1
            &&& forall|k: int| 0 <= k < turns.len() ==> (#[trigger] turns[k]) is Object && turns[k]->Object_0[0] == (
                "turn_id"@,
                crate::signals::jint((k + 1) as i64),
            )
        }),
{
    let fields = inputs.fields@;
    let (event_start, timestamp_end) = crate::trajectory::spec_event_bookends(inputs.entity_state@);
    let (chain, from_recorded_leaf) = spec_resolve_chain(entries, str_or(fields, "session_leaf_id"@, ""@));
    let drafts = group_from(entries, chain, seq![]);
    let timestamp_start = match first_recorded(entries, chain) {
        Some(t) => t,
        None => event_start,
    };
    let (spans, truncated, span_unparsed) = crate::trajectory::span_document(
        crate::session::line_values(inputs.tool_spans_jsonl@),
    );
    let boundary = match crate::trajectory::state_events(inputs.entity_state@) {
        Some(events) => crate::trajectory::boundary_stamps(events),
        None => seq![],
    };
    law_turns_are_numbered_from_one(
        entries,
        drafts,
        spans,
        boundary,
        timestamp_start,
        inputs.session_id@,
        inputs.status@ == "Failed"@,
    );
    let core = spec_core(entries, drafts, spans, boundary, timestamp_start, inputs.session_id@, inputs.status@ == "Failed"@).0;
    let doc = spec_assemble_trajectory(inputs, entries);
    let turns = doc->Object_0[3].1->Array_0;
    assert(turns == core.map_values(|t: TurnParts| turn_json(t)));
    assert forall|k: int| 0 <= k < turns.len() implies (#[trigger] turns[k]) is Object && turns[k]->Object_0[0] == (
        "turn_id"@,
        crate::signals::jint((k + 1) as i64),
    ) by {
        assert(turns[k] == turn_json(core[k]));
        assert(core[k].turn_id == k + 1);
        assert((core[k].turn_id as int) == k + 1);
    }
}

/// A tag that starts like a spec-version tag.
pub open spec fn spec_version_like(tag: Seq<char>) -> bool {
    crate::text::has_prefix(tag, crate::ots::SPEC_VERSION_TAG_PREFIX@)
}

/// A text whose first character is `c`.
proof fn lemma_first_char_not_prefix(t: Seq<char>, p: Seq<char>)
    requires
        t.len() > 0,
        p.len() > 0,
        t[0] != p[0],
    ensures
        !crate::text::has_prefix(t, p),
{
    if p.len() <= t.len() {
        assert(t.subrange(0, p.len() as int)[0] == t[0]);
    }
}

/// Without a spec version a document carries no spec-version tag and no
/// `spec_version` member, provided its model, provider and session mode do
/// not themselves start like such a tag (they are listed as tags as given).
pub proof fn law_no_spec_version_tag_without_version(inputs: TrajectoryInputs, entries: Seq<TreeEntry>)
    requires
        inputs.spec_version@.len() == 0,
        !spec_version_like(str_or(inputs.fields@, "model"@, ""@)),
        !spec_version_like(str_or(inputs.fields@, "provider"@, ""@)),
        !spec_version_like(str_or(inputs.fields@, "session_mode"@, ""@)),
    ensures
        ({
            let doc = spec_assemble_trajectory(inputs, entries);
            let md = doc->Object_0[2].1->Object_0;
            let tags = md_tags(inputs, entries);
            &&& md[10].1 == JsonV::Array(jstrs(tags))
            &&& md.len() == 11
            &&& forall|k: int| 0 <= k < tags.len() ==> !spec_version_like(#[trigger] tags[k])
        }),
{
    let fields = inputs.fields@;
    let tags = md_tags(inputs, entries);
    let p = crate::ots::SPEC_VERSION_TAG_PREFIX@;
    reveal_strlit("spec_version:");
    reveal_strlit("harness:");
    reveal_strlit("degraded:");
    reveal_strlit("token_signals:present");
    assert(p[0] == 's');
    let pre = field_tag(fields, "model"@) + field_tag(fields, "provider"@) + field_tag(fields, "session_mode"@);
    let harness = crate::ots::HARNESS_TAG_PREFIX@ + crate::ots::HARNESS@;
    assert(harness[0] == 'h');
    lemma_first_char_not_prefix(harness, p);
    let ts = crate::ots::TOKEN_SIGNALS_TAG@;
    assert(ts[0] == 't');
    lemma_first_char_not_prefix(ts, p);
    assert forall|r: Seq<char>| !spec_version_like(#[trigger] degraded_tag(r)) by {
        assert(degraded_tag(r)[0] == 'd');
        lemma_first_char_not_prefix(degraded_tag(r), p);
    }
    assert forall|k: int| 0 <= k < tags.len() implies !spec_version_like(#[trigger] tags[k]) by {
        let ht = head_tags(fields, inputs.spec_version@);
        assert(ht =~= pre + seq![harness]);
        if k < pre.len() {
            let a = field_tag(fields, "model"@);
            let b = field_tag(fields, "provider"@);
            if k < a.len() {
                assert(tags[k] == a[k]);
            } else if k < a.len() + b.len() {
                assert(tags[k] == b[k - a.len()]);
            } else {
                assert(tags[k] == field_tag(fields, "session_mode"@)[k - a.len() - b.len()]);
            }
        } else if k == pre.len() {
            assert(tags[k] == harness);
        }
    }
}

/// Turn `t` carries a token signal among its members.
pub open spec fn turn_carries_signal(t: TurnParts) -> bool {
    exists|k: int| 0 <= k < t.extra.len() && crate::signals::is_signal_name((#[trigger] t.extra[k]).0)
}

/// Turn `t` records a dropped token signal among its members.
pub open spec fn turn_records_drop(t: TurnParts) -> bool {
    exists|k: int| 0 <= k < t.extra.len() && (#[trigger] t.extra[k]).0 == "_token_signals_dropped"@
}

/// Some turn of `turns` carries a token signal.
pub open spec fn some_turn_carries_signal(turns: Seq<TurnParts>) -> bool {
    exists|i: int| 0 <= i < turns.len() && turn_carries_signal(#[trigger] turns[i])
}

/// Some turn of `turns` records a dropped token signal.
pub open spec fn some_turn_records_drop(turns: Seq<TurnParts>) -> bool {
    exists|i: int| 0 <= i < turns.len() && turn_records_drop(#[trigger] turns[i])
}

/// The members every turn has before its signals name no signal and no drop.
proof fn lemma_base_extra_names(base: Seq<(Seq<char>, JsonV)>, duration: u64, p: JsonV, c: JsonV)
    requires
        base == (if duration > 0 {
            seq![("duration_ms"@, float_of(duration))]
        } else {
            seq![]
        }) + seq![("_prompt_tokens"@, p), ("_completion_tokens"@, c)],
    ensures
        forall|k: int| 0 <= k < base.len() ==> !crate::signals::is_signal_name((#[trigger] base[k]).0) && base[k].0
            != "_token_signals_dropped"@,
{
    reveal_strlit("duration_ms");
    reveal_strlit("_prompt_tokens");
    reveal_strlit("_completion_tokens");
    reveal_strlit("_token_signals_dropped");
    assert forall|k: int| 0 <= k < base.len() implies !crate::signals::is_signal_name((#[trigger] base[k]).0) && base[k].0
        != "_token_signals_dropped"@ by {
        let n = base[k].0;
        assert(n.len() > 1);
        if crate::signals::is_signal_name(n) {
            crate::signals::lemma_signal_name_initial(n);
        }
        if n == "_token_signals_dropped"@ {
            assert(n[0] == '_' && n[1] == 't');
        }
    }
}

/// One turn step adds one turn and records a carried or dropped signal
/// exactly when that turn carries one or records a drop.
#[verifier::spinoff_prover]
#[verifier::rlimit(40)]
proof fn lemma_step_signals(
    entries: Seq<TreeEntry>,
    drafts: Seq<(Seq<usize>, Option<usize>)>,
    spans: Seq<JsonV>,
    boundary: Seq<Seq<char>>,
    timestamp_start: Seq<char>,
    session_id: Seq<char>,
    s: TurnsState,
    t: int,
)
    ensures
        ({
            let s2 = spec_turn_step(entries, drafts, spans, boundary, timestamp_start, session_id, s, t);
            &&& s2.turns == s.turns.push(s2.turns.last())
            &&& s2.carried == (s.carried || turn_carries_signal(s2.turns.last()))
            &&& s2.dropped == (s.dropped || turn_records_drop(s2.turns.last()))
        }),
{
    let s2 = spec_turn_step(entries, drafts, spans, boundary, timestamp_start, session_id, s, t);
    let draft = drafts[t];
    let assistant = turn_assistant(entries, draft.1);
    let timestamp = match assistant {
        Some(e) => match e.spec_recorded_at() {
            Some(ts) => ts,
            None => fallback_timestamp(boundary, t, timestamp_start),
        },
        None => fallback_timestamp(boundary, t, timestamp_start),
    };
    let (pm, r1) = spec_messages(entries, draft.0, timestamp, s.remaining);
    let (messages, r2) = match assistant {
        Some(e) => {
            let (m, r) = crate::message::spec_build_message(e, timestamp, r1);
            (pm.push(m), r)
        },
        None => (pm, r1),
    };
    let obs = turn_observations(entries, drafts, t);
    let own_calls = match assistant {
        Some(e) => crate::trajectory::entry_tool_calls(e),
        None => seq![],
    };
    let (decisions, error, duration, claimed, r3) = decide_calls(
        turn_calls(own_calls, obs),
        obs,
        spans,
        s.claimed,
        r2,
    );
    let base_extra = (if duration > 0 {
        seq![("duration_ms"@, float_of(duration))]
    } else {
        seq![]
    }) + seq![
        ("_prompt_tokens"@, crate::trajectory::juint(turn_prompt_tokens(entries, draft.0, assistant))),
        ("_completion_tokens"@, crate::trajectory::juint(turn_completion_tokens(assistant))),
    ];
    lemma_base_extra_names(
        base_extra,
        duration,
        crate::trajectory::juint(turn_prompt_tokens(entries, draft.0, assistant)),
        crate::trajectory::juint(turn_completion_tokens(assistant)),
    );
    let last = s2.turns.last();
    assert(s2.turns == s.turns.push(last));
    match assistant {
        Some(e) => {
            let (adds, inventory, sr) = crate::signals::spec_attach_token_signals(e.raw@, s.signal_remaining);
            crate::signals::lemma_attach_names(e.raw@, s.signal_remaining);
            assert(last.extra == base_extra + adds);
            let b = base_extra.len() as int;
            if carries_signal(inventory) {
                let k = choose|k: int| 0 <= k < inventory.len() && !crate::signals::is_marker(#[trigger] inventory[k]);
                assert(last.extra[b + k] == adds[k]);
                assert(crate::signals::is_signal_name(last.extra[b + k].0));
            }
            if turn_carries_signal(last) {
                let k = choose|k: int| 0 <= k < last.extra.len() && crate::signals::is_signal_name((#[trigger] last.extra[k]).0);
                if k < b {
                    assert(last.extra[k] == base_extra[k]);
                } else {
                    assert(last.extra[k] == adds[k - b]);
                    assert(!crate::signals::is_marker(inventory[k - b]));
                }
            }
            if records_drop(inventory) {
                let k = choose|k: int| 0 <= k < inventory.len() && (#[trigger] inventory[k]).0 == "_token_signals_dropped"@;
                assert(last.extra[b + k] == adds[k]);
            }
            if turn_records_drop(last) {
                let k = choose|k: int| 0 <= k < last.extra.len() && (#[trigger] last.extra[k]).0 == "_token_signals_dropped"@;
                if k < b {
                    assert(last.extra[k] == base_extra[k]);
                } else {
                    assert(last.extra[k] == adds[k - b]);
                    assert(inventory[k - b].0 == "_token_signals_dropped"@);
                }
            }
        },
        None => {
            assert(last.extra == base_extra);
        },
    }
}

/// One more turn carries a signal (or records a drop) exactly when it does
/// or an earlier one did.
proof fn lemma_push_signals(turns: Seq<TurnParts>, x: TurnParts)
    ensures
        some_turn_carries_signal(turns.push(x)) == (some_turn_carries_signal(turns) || turn_carries_signal(x)),
        some_turn_records_drop(turns.push(x)) == (some_turn_records_drop(turns) || turn_records_drop(x)),
{
    let p = turns.push(x);
    assert(p[turns.len() as int] == x);
    if some_turn_carries_signal(turns) {
        let i = choose|i: int| 0 <= i < turns.len() && turn_carries_signal(#[trigger] turns[i]);
        assert(p[i] == turns[i]);
    }
    if some_turn_carries_signal(p) {
        let i = choose|i: int| 0 <= i < p.len() && turn_carries_signal(#[trigger] p[i]);
        if i < turns.len() {
            assert(p[i] == turns[i]);
        }
    }
    if some_turn_records_drop(turns) {
        let i = choose|i: int| 0 <= i < turns.len() && turn_records_drop(#[trigger] turns[i]);
        assert(p[i] == turns[i]);
    }
    if some_turn_records_drop(p) {
        let i = choose|i: int| 0 <= i < p.len() && turn_records_drop(#[trigger] p[i]);
        if i < turns.len() {
            assert(p[i] == turns[i]);
        }
    }
}

/// After the first `n` turns, a signal was carried (or dropped) exactly
/// when one of those turns carries one (or records a drop).
proof fn lemma_turns_signals(
    entries: Seq<TreeEntry>,
    drafts: Seq<(Seq<usize>, Option<usize>)>,
    spans: Seq<JsonV>,
    boundary: Seq<Seq<char>>,
    timestamp_start: Seq<char>,
    session_id: Seq<char>,
    n: int,
)
    ensures
        ({
            let st = spec_turns(entries, drafts, spans, boundary, timestamp_start, session_id, n);
            &&& st.carried == some_turn_carries_signal(st.turns)
            &&& st.dropped == some_turn_records_drop(st.turns)
        }),
    decreases n,
{
    if n > 0 {
        lemma_turns_signals(entries, drafts, spans, boundary, timestamp_start, session_id, n - 1);
        let s = spec_turns(entries, drafts, spans, boundary, timestamp_start, session_id, n - 1);
        lemma_step_signals(entries, drafts, spans, boundary, timestamp_start, session_id, s, n - 1);
        let st = spec_turns(entries, drafts, spans, boundary, timestamp_start, session_id, n);
        assert(st == spec_turn_step(entries, drafts, spans, boundary, timestamp_start, session_id, s, n - 1));
        lemma_push_signals(s.turns, st.turns.last());
    } else {
        let st = spec_turns(entries, drafts, spans, boundary, timestamp_start, session_id, n);
        assert(st.turns.len() == 0);
    }
}

/// Folding in the unclaimed spans changes no turn's signals.
proof fn lemma_final_turns_signals(
    turns: Seq<TurnParts>,
    orphans: Seq<JsonV>,
    orphan_failed: bool,
    session_id: Seq<char>,
    timestamp_start: Seq<char>,
    failed_status: bool,
)
    ensures
        ({
            let f = final_turns(turns, orphans, orphan_failed, session_id, timestamp_start, failed_status);
            &&& some_turn_carries_signal(f) == some_turn_carries_signal(turns)
            &&& some_turn_records_drop(f) == some_turn_records_drop(turns)
        }),
{
    let f = final_turns(turns, orphans, orphan_failed, session_id, timestamp_start, failed_status);
    if turns.len() == 0 {
        assert(f.len() == 1 && f[0].extra.len() == 0);
        assert(!turn_carries_signal(f[0]));
        assert(!turn_records_drop(f[0]));
    } else {
        assert(f.len() == turns.len());
        assert forall|i: int| 0 <= i < f.len() implies (#[trigger] f[i]).extra == turns[i].extra by {}
        if some_turn_carries_signal(turns) {
            let i = choose|i: int| 0 <= i < turns.len() && turn_carries_signal(#[trigger] turns[i]);
            assert(f[i].extra == turns[i].extra);
            assert(turn_carries_signal(f[i]));
        }
        if some_turn_carries_signal(f) {
            let i = choose|i: int| 0 <= i < f.len() && turn_carries_signal(#[trigger] f[i]);
            assert(f[i].extra == turns[i].extra);
            assert(turn_carries_signal(turns[i]));
        }
        if some_turn_records_drop(turns) {
            let i = choose|i: int| 0 <= i < turns.len() && turn_records_drop(#[trigger] turns[i]);
            assert(f[i].extra == turns[i].extra);
            assert(turn_records_drop(f[i]));
        }
        if some_turn_records_drop(f) {
            let i = choose|i: int| 0 <= i < f.len() && turn_records_drop(#[trigger] f[i]);
            assert(f[i].extra == turns[i].extra);
            assert(turn_records_drop(turns[i]));
        }
    }
}

/// A document turn carries a token signal among its members.
pub open spec fn json_turn_carries_signal(v: JsonV) -> bool {
    &&& v is Object
    &&& exists|k: int| 0 <= k < v->Object_0.len() && crate::signals::is_signal_name((#[trigger] v->Object_0[k]).0)
}

/// A document turn records a dropped token signal among its members.
pub open spec fn json_turn_records_drop(v: JsonV) -> bool {
    &&& v is Object
    &&& exists|k: int| 0 <= k < v->Object_0.len() && (#[trigger] v->Object_0[k]).0 == "_token_signals_dropped"@
}

/// A turn's fixed members name no signal and no drop.
proof fn lemma_turn_json_signals(t: TurnParts)
    ensures
        json_turn_carries_signal(turn_json(t)) == turn_carries_signal(t),
        json_turn_records_drop(turn_json(t)) == turn_records_drop(t),
{
    let m = turn_json(t)->Object_0;
    reveal_strlit("turn_id");
    reveal_strlit("span_id");
    reveal_strlit("timestamp");
    reveal_strlit("error");
    reveal_strlit("messages");
    reveal_strlit("decisions");
    reveal_strlit("_token_signals_dropped");
    assert forall|k: int| 0 <= k < 6 implies !crate::signals::is_signal_name(#[trigger] m[k].0) && m[k].0
        != "_token_signals_dropped"@ by {
        assert(m[k].0.len() > 0 && m[k].0[0] != '_');
        if crate::signals::is_signal_name(m[k].0) {
            crate::signals::lemma_signal_name_initial(m[k].0);
        }
    }
    if turn_carries_signal(t) {
        let k = choose|k: int| 0 <= k < t.extra.len() && crate::signals::is_signal_name((#[trigger] t.extra[k]).0);
        assert(m[6 + k] == t.extra[k]);
    }
    if json_turn_carries_signal(turn_json(t)) {
        let k = choose|k: int| 0 <= k < m.len() && crate::signals::is_signal_name((#[trigger] m[k]).0);
        if k >= 6 {
            assert(m[k] == t.extra[k - 6]);
        }
    }
    if turn_records_drop(t) {
        let k = choose|k: int| 0 <= k < t.extra.len() && (#[trigger] t.extra[k]).0 == "_token_signals_dropped"@;
        assert(m[6 + k] == t.extra[k]);
    }
    if json_turn_records_drop(turn_json(t)) {
        let k = choose|k: int| 0 <= k < m.len() && (#[trigger] m[k]).0 == "_token_signals_dropped"@;
        if k >= 6 {
            assert(m[k] == t.extra[k - 6]);
        }
    }
}

/// The metadata tags of every document end with `token_signals:present`
/// exactly when one of its turns carries a token signal, followed by
/// `degraded:token_signals_dropped` exactly when one of its turns records a
/// dropped signal.
#[verifier::spinoff_prover]
#[verifier::rlimit(40)]
pub proof fn law_signal_tags_follow_turns(inputs: TrajectoryInputs, entries: Seq<TreeEntry>)
    ensures
        ({
            let doc = spec_assemble_trajectory(inputs, entries);
            let md = doc->Object_0[2].1->Object_0;
            let turns = doc->Object_0[3].1->Array_0;
            let carried = exists|k: int| 0 <= k < turns.len() && json_turn_carries_signal(#[trigger] turns[k]);
            let dropped = exists|k: int| 0 <= k < turns.len() && json_turn_records_drop(#[trigger] turns[k]);
            &&& md[10].1 == JsonV::Array(jstrs(md_tags(inputs, entries)))
            &&& signal_tags(carried, dropped).is_suffix_of(md_tags(inputs, entries))
        }),
{
    let fields = inputs.fields@;
    let (event_start, timestamp_end) = crate::trajectory::spec_event_bookends(inputs.entity_state@);
    let (chain, from_recorded_leaf) = spec_resolve_chain(entries, str_or(fields, "session_leaf_id"@, ""@));
    let drafts = group_from(entries, chain, seq![]);
    let timestamp_start = match first_recorded(entries, chain) {
        Some(t) => t,
        None => event_start,
    };
    let (spans, truncated, span_unparsed) = crate::trajectory::span_document(
        crate::session::line_values(inputs.tool_spans_jsonl@),
    );
    let boundary = match crate::trajectory::state_events(inputs.entity_state@) {
        Some(events) => crate::trajectory::boundary_stamps(events),
        None => seq![],
    };
    let failed = inputs.status@ == "Failed"@;
    let n = drafts.len() as int;
    lemma_turns_signals(entries, drafts, spans, boundary, timestamp_start, inputs.session_id@, n);
    let st = spec_turns(entries, drafts, spans, boundary, timestamp_start, inputs.session_id@, n);
    let (orphans, orphan_failed, _) = orphan_decisions(spans, st.claimed, st.remaining, spans.len() as int);
    lemma_final_turns_signals(st.turns, orphans, orphan_failed, inputs.session_id@, timestamp_start, failed);
    let core = spec_core(entries, drafts, spans, boundary, timestamp_start, inputs.session_id@, failed);
    let doc = spec_assemble_trajectory(inputs, entries);
    let turns = doc->Object_0[3].1->Array_0;
    assert(turns == core.0.map_values(|t: TurnParts| turn_json(t)));
    let carried = exists|k: int| 0 <= k < turns.len() && json_turn_carries_signal(#[trigger] turns[k]);
    let dropped = exists|k: int| 0 <= k < turns.len() && json_turn_records_drop(#[trigger] turns[k]);
    if carried {
        let k = choose|k: int| 0 <= k < turns.len() && json_turn_carries_signal(#[trigger] turns[k]);
        lemma_turn_json_signals(core.0[k]);
        assert(turn_carries_signal(core.0[k]));
    }
    if some_turn_carries_signal(core.0) {
        let i = choose|i: int| 0 <= i < core.0.len() && turn_carries_signal(#[trigger] core.0[i]);
        lemma_turn_json_signals(core.0[i]);
        assert(json_turn_carries_signal(turns[i]));
    }
    if dropped {
        let k = choose|k: int| 0 <= k < turns.len() && json_turn_records_drop(#[trigger] turns[k]);
        lemma_turn_json_signals(core.0[k]);
        assert(turn_records_drop(core.0[k]));
    }
    if some_turn_records_drop(core.0) {
        let i = choose|i: int| 0 <= i < core.0.len() && turn_records_drop(#[trigger] core.0[i]);
        lemma_turn_json_signals(core.0[i]);
        assert(json_turn_records_drop(turns[i]));
    }
    assert(carried == core.2 && dropped == core.3);
    let tags = md_tags(inputs, entries);
    let tail = signal_tags(core.2, core.3);
    assert(tail =~= tags.subrange(tags.len() - tail.len(), tags.len() as int));
}

/// The characters of text the messages keep inline, summed.
pub open spec fn text_total(messages: Seq<JsonV>) -> int
    decreases messages.len(),
{
    if messages.len() == 0 {
        0
    } else {
        text_total(messages.drop_last()) + crate::message::message_text(messages.last()).len()
    }
}

/// Every message keeps at most `MAX_MESSAGE_INLINE_CHARS` characters inline.
pub open spec fn messages_capped(messages: Seq<JsonV>) -> bool {
    forall|j: int|
        0 <= j < messages.len() ==> crate::message::message_text(#[trigger] messages[j]).len()
            <= crate::ots::MAX_MESSAGE_INLINE_CHARS
}

/// The characters of text the turns' messages keep inline, summed.
pub open spec fn turns_text_total(turns: Seq<TurnParts>) -> int
    decreases turns.len(),
{
    if turns.len() == 0 {
        0
    } else {
        turns_text_total(turns.drop_last()) + text_total(turns.last().messages)
    }
}

/// The messages of a document turn.
pub open spec fn json_turn_messages(turn: JsonV) -> Seq<JsonV> {
    match spec_get(turn, "messages"@) {
        Some(JsonV::Array(ms)) => ms,
        _ => seq![],
    }
}

/// The characters of text a document's turns keep inline in their
/// messages, summed.
pub open spec fn document_text_total(turns: Seq<JsonV>) -> int
    decreases turns.len(),
{
    if turns.len() == 0 {
        0
    } else {
        document_text_total(turns.drop_last()) + text_total(json_turn_messages(turns.last()))
    }
}

/// A decision charges the inline budget at most what is left.
proof fn lemma_decision_budget(
    call: (Seq<char>, Seq<char>, Option<JsonV>),
    observation: Option<(bool, Seq<char>)>,
    span: Option<JsonV>,
    remaining: int,
)
    requires
        remaining >= 0,
    ensures
        0 <= crate::trajectory::spec_build_decision(call, observation, span, remaining).1 <= remaining,
{
    let args = crate::trajectory::decision_arguments(call.2, span);
    match args {
        Some(a) => {
            if !(a is Null) {
                crate::ots::law_take_bounds(
                    remaining,
                    crate::json_text::serialized_json(a),
                    crate::ots::MAX_ARGUMENTS_CHARS as int,
                );
            }
        },
        None => {},
    }
}

/// A turn's decisions charge the inline budget at most what is left.
proof fn lemma_decide_budget(
    calls: Seq<(Seq<char>, Seq<char>, Option<JsonV>)>,
    obs: Seq<(Seq<char>, bool, Seq<char>)>,
    spans: Seq<JsonV>,
    claimed: Seq<bool>,
    remaining: int,
)
    requires
        remaining >= 0,
    ensures
        0 <= decide_calls(calls, obs, spans, claimed, remaining).4 <= remaining,
    decreases calls.len(),
{
    if calls.len() > 0 {
        lemma_decide_budget(calls.drop_last(), obs, spans, claimed, remaining);
        let (ds, err, dur, cl, rem) = decide_calls(calls.drop_last(), obs, spans, claimed, remaining);
        let c = calls.last();
        let idx = claimable(spans, cl, c.0);
        lemma_decision_budget(c, first_observation(obs, c.0), claimed_span(spans, idx), rem);
    }
}

/// The prompt messages keep inline at most what the budget spends on them.
proof fn lemma_messages_budget(entries: Seq<TreeEntry>, prompt: Seq<usize>, timestamp: Seq<char>, remaining: int)
    requires
        remaining >= 0,
    ensures
        ({
            let (ms, left) = spec_messages(entries, prompt, timestamp, remaining);
            &&& 0 <= left <= remaining - text_total(ms)
            &&& messages_capped(ms)
        }),
    decreases prompt.len(),
{
    if prompt.len() > 0 {
        lemma_messages_budget(entries, prompt.drop_last(), timestamp, remaining);
        let (ms, r) = spec_messages(entries, prompt.drop_last(), timestamp, remaining);
        let (m, r2) = crate::message::spec_build_message(entries[prompt.last() as int], timestamp, r);
        crate::message::law_message_text_bounded(entries[prompt.last() as int], timestamp, r);
        assert(ms.push(m).drop_last() =~= ms);
        assert forall|j: int| 0 <= j < ms.push(m).len() implies crate::message::message_text(
            #[trigger] ms.push(m)[j],
        ).len() <= crate::ots::MAX_MESSAGE_INLINE_CHARS by {
            if j < ms.len() {
                assert(ms.push(m)[j] == ms[j]);
            }
        }
    }
}

/// One turn step charges the inline budget at least the text its messages
/// keep.
#[verifier::spinoff_prover]
#[verifier::rlimit(40)]
proof fn lemma_step_text(
    entries: Seq<TreeEntry>,
    drafts: Seq<(Seq<usize>, Option<usize>)>,
    spans: Seq<JsonV>,
    boundary: Seq<Seq<char>>,
    timestamp_start: Seq<char>,
    session_id: Seq<char>,
    s: TurnsState,
    t: int,
)
    requires
        s.remaining >= 0,
    ensures
        ({
            let s2 = spec_turn_step(entries, drafts, spans, boundary, timestamp_start, session_id, s, t);
            &&& s2.turns == s.turns.push(s2.turns.last())
            &&& 0 <= s2.remaining <= s.remaining - text_total(s2.turns.last().messages)
            &&& messages_capped(s2.turns.last().messages)
        }),
{
    let s2 = spec_turn_step(entries, drafts, spans, boundary, timestamp_start, session_id, s, t);
    let draft = drafts[t];
    let assistant = turn_assistant(entries, draft.1);
    let timestamp = match assistant {
        Some(e) => match e.spec_recorded_at() {
            Some(ts) => ts,
            None => fallback_timestamp(boundary, t, timestamp_start),
        },
        None => fallback_timestamp(boundary, t, timestamp_start),
    };
    lemma_messages_budget(entries, draft.0, timestamp, s.remaining);
    let (pm, r1) = spec_messages(entries, draft.0, timestamp, s.remaining);
    let (messages, r2) = match assistant {
        Some(e) => {
            let (m, r) = crate::message::spec_build_message(e, timestamp, r1);
            (pm.push(m), r)
        },
        None => (pm, r1),
    };
    match assistant {
        Some(e) => {
            crate::message::law_message_text_bounded(e, timestamp, r1);
            let (m, r) = crate::message::spec_build_message(e, timestamp, r1);
            assert(pm.push(m).drop_last() =~= pm);
            assert forall|j: int| 0 <= j < pm.push(m).len() implies crate::message::message_text(
                #[trigger] pm.push(m)[j],
            ).len() <= crate::ots::MAX_MESSAGE_INLINE_CHARS by {
                if j < pm.len() {
                    assert(pm.push(m)[j] == pm[j]);
                }
            }
        },
        None => {},
    }
    let obs = turn_observations(entries, drafts, t);
    let own_calls = match assistant {
        Some(e) => crate::trajectory::entry_tool_calls(e),
        None => seq![],
    };
    lemma_decide_budget(turn_calls(own_calls, obs), obs, spans, s.claimed, r2);
    let last = s2.turns.last();
    assert(s2.turns == s.turns.push(last));
    assert(last.messages == messages);
}

/// After the first `n` turns the inline budget has spent at least the text
/// their messages keep.
proof fn lemma_turns_text(
    entries: Seq<TreeEntry>,
    drafts: Seq<(Seq<usize>, Option<usize>)>,
    spans: Seq<JsonV>,
    boundary: Seq<Seq<char>>,
    timestamp_start: Seq<char>,
    session_id: Seq<char>,
    n: int,
)
    ensures
        ({
            let st = spec_turns(entries, drafts, spans, boundary, timestamp_start, session_id, n);
            &&& 0 <= st.remaining <= crate::ots::MAX_TRAJECTORY_INLINE_CHARS - turns_text_total(st.turns)
            &&& forall|i: int| 0 <= i < st.turns.len() ==> messages_capped(#[trigger] st.turns[i].messages)
        }),
    decreases n,
{
    if n > 0 {
        lemma_turns_text(entries, drafts, spans, boundary, timestamp_start, session_id, n - 1);
        let s = spec_turns(entries, drafts, spans, boundary, timestamp_start, session_id, n - 1);
        lemma_step_text(entries, drafts, spans, boundary, timestamp_start, session_id, s, n - 1);
        let st = spec_turns(entries, drafts, spans, boundary, timestamp_start, session_id, n);
        assert(st == spec_turn_step(entries, drafts, spans, boundary, timestamp_start, session_id, s, n - 1));
        assert(st.turns.drop_last() =~= s.turns);
        assert forall|i: int| 0 <= i < st.turns.len() implies messages_capped(#[trigger] st.turns[i].messages) by {
            if i < s.turns.len() {
                assert(st.turns[i] == s.turns[i]);
            }
        }
    } else {
        let st = spec_turns(entries, drafts, spans, boundary, timestamp_start, session_id, n);
        assert(st.turns.len() == 0);
    }
}

/// Two turn lists whose turns hold the same messages keep the same text.
proof fn lemma_same_messages_text(a: Seq<TurnParts>, b: Seq<TurnParts>)
    requires
        a.len() == b.len(),
        forall|i: int| 0 <= i < a.len() ==> (#[trigger] a[i]).messages == b[i].messages,
    ensures
        turns_text_total(a) == turns_text_total(b),
    decreases a.len(),
{
    if a.len() > 0 {
        assert forall|i: int| 0 <= i < a.drop_last().len() implies (#[trigger] a.drop_last()[i]).messages
            == b.drop_last()[i].messages by {
            assert(a.drop_last()[i] == a[i] && b.drop_last()[i] == b[i]);
        }
        lemma_same_messages_text(a.drop_last(), b.drop_last());
        assert(a.last().messages == b.last().messages);
    }
}

/// Folding in the unclaimed spans keeps every message.
proof fn lemma_final_turns_text(
    turns: Seq<TurnParts>,
    orphans: Seq<JsonV>,
    orphan_failed: bool,
    session_id: Seq<char>,
    timestamp_start: Seq<char>,
    failed_status: bool,
)
    ensures
        turns_text_total(final_turns(turns, orphans, orphan_failed, session_id, timestamp_start, failed_status))
            == turns_text_total(turns),
        (forall|i: int| 0 <= i < turns.len() ==> messages_capped(#[trigger] turns[i].messages)) ==> forall|i: int|
            0 <= i < final_turns(turns, orphans, orphan_failed, session_id, timestamp_start, failed_status).len()
                ==> messages_capped(
                #[trigger] final_turns(turns, orphans, orphan_failed, session_id, timestamp_start, failed_status)[i].messages,
            ),
{
    let f = final_turns(turns, orphans, orphan_failed, session_id, timestamp_start, failed_status);
    if turns.len() == 0 {
        assert(f.len() == 1 && f[0].messages.len() == 0);
        assert(f.drop_last().len() == 0);
        assert(turns_text_total(f.drop_last()) == 0);
        assert(f.last() == f[0]);
        assert(text_total(f[0].messages) == 0);
        assert(turns_text_total(f) == 0);
        assert(turns_text_total(turns) == 0);
        assert(messages_capped(f[0].messages));
    } else {
        assert(f.len() == turns.len());
        assert forall|i: int| 0 <= i < f.len() implies (#[trigger] f[i]).messages == turns[i].messages by {}
        lemma_same_messages_text(f, turns);
        if forall|i: int| 0 <= i < turns.len() ==> messages_capped(#[trigger] turns[i].messages) {
            assert forall|i: int| 0 <= i < f.len() implies messages_capped(#[trigger] f[i].messages) by {
                assert(f[i].messages == turns[i].messages);
            }
        }
    }
}

/// A document turn's messages are the turn's.
proof fn lemma_turn_json_messages(t: TurnParts)
    ensures
        json_turn_messages(turn_json(t)) == t.messages,
{
    let m = turn_json(t)->Object_0;
    reveal_strlit("turn_id");
    reveal_strlit("span_id");
    reveal_strlit("timestamp");
    reveal_strlit("error");
    reveal_strlit("messages");
    let first = m.take(4);
    assert forall|k: int| 0 <= k < first.len() implies (#[trigger] first[k]).0 != "messages"@ by {
        assert(first[k] == m[k]);
        if k == 2 {
            assert(first[k].0[0] != "messages"@[0]);
        } else {
            assert(first[k].0[0] != "messages"@[0]);
        }
    }
    assert(m =~= first + m.skip(4));
    crate::message::lemma_members_get_skip(first, m.skip(4), "messages"@);
    assert(m.skip(4)[0] == ("messages"@, JsonV::Array(t.messages)));
}

/// A document's text total is its turns'.
proof fn lemma_document_text_total(turns: Seq<TurnParts>)
    ensures
        document_text_total(turns.map_values(|t: TurnParts| turn_json(t))) == turns_text_total(turns),
    decreases turns.len(),
{
    if turns.len() > 0 {
        let js = turns.map_values(|t: TurnParts| turn_json(t));
        assert(js.drop_last() =~= turns.drop_last().map_values(|t: TurnParts| turn_json(t)));
        lemma_document_text_total(turns.drop_last());
        lemma_turn_json_messages(turns.last());
        assert(js.last() == turn_json(turns.last()));
    }
}

/// Across a whole document, every message keeps at most
/// `MAX_MESSAGE_INLINE_CHARS` characters of text inline, and all of them
/// together at most `MAX_TRAJECTORY_INLINE_CHARS`: every message's text is
/// charged to one budget of that size, shared with the tool arguments.
#[verifier::spinoff_prover]
#[verifier::rlimit(40)]
pub proof fn law_document_inline_text_bounded(inputs: TrajectoryInputs, entries: Seq<TreeEntry>)
    ensures
        ({
            let doc = spec_assemble_trajectory(inputs, entries);
            let turns = doc->Object_0[3].1->Array_0;
            &&& document_text_total(turns) <= crate::ots::MAX_TRAJECTORY_INLINE_CHARS
            &&& forall|k: int| 0 <= k < turns.len() ==> messages_capped(json_turn_messages(#[trigger] turns[k]))
        }),
{
    let fields = inputs.fields@;
    let (event_start, timestamp_end) = crate::trajectory::spec_event_bookends(inputs.entity_state@);
    let (chain, from_recorded_leaf) = spec_resolve_chain(entries, str_or(fields, "session_leaf_id"@, ""@));
    let drafts = group_from(entries, chain, seq![]);
    let timestamp_start = match first_recorded(entries, chain) {
        Some(t) => t,
        None => event_start,
    };
    let (spans, truncated, span_unparsed) = crate::trajectory::span_document(
        crate::session::line_values(inputs.tool_spans_jsonl@),
    );
    let boundary = match crate::trajectory::state_events(inputs.entity_state@) {
        Some(events) => crate::trajectory::boundary_stamps(events),
        None => seq![],
    };
    let failed = inputs.status@ == "Failed"@;
    let n = drafts.len() as int;
    lemma_turns_text(entries, drafts, spans, boundary, timestamp_start, inputs.session_id@, n);
    let st = spec_turns(entries, drafts, spans, boundary, timestamp_start, inputs.session_id@, n);
    let (orphans, orphan_failed, _) = orphan_decisions(spans, st.claimed, st.remaining, spans.len() as int);
    lemma_final_turns_text(st.turns, orphans, orphan_failed, inputs.session_id@, timestamp_start, failed);
    let core = spec_core(entries, drafts, spans, boundary, timestamp_start, inputs.session_id@, failed);
    let doc = spec_assemble_trajectory(inputs, entries);
    let turns = doc->Object_0[3].1->Array_0;
    assert(turns == core.0.map_values(|t: TurnParts| turn_json(t)));
    lemma_document_text_total(core.0);
    assert forall|k: int| 0 <= k < turns.len() implies messages_capped(json_turn_messages(#[trigger] turns[k])) by {
        lemma_turn_json_messages(core.0[k]);
        assert(turns[k] == turn_json(core.0[k]));
        assert(messages_capped(core.0[k].messages));
    }
}

/// What the token-signal budget was charged for the turns' signals, summed.
pub open spec fn turns_signal_charge(turns: Seq<TurnParts>) -> int
    decreases turns.len(),
{
    if turns.len() == 0 {
        0
    } else {
        turns_signal_charge(turns.drop_last()) + crate::signals::signal_charge(turns.last().extra)
    }
}

/// What the token-signal budget was charged for a document's turns'
/// signals, summed.
pub open spec fn document_signal_charge(turns: Seq<JsonV>) -> int
    decreases turns.len(),
{
    if turns.len() == 0 {
        0
    } else {
        document_signal_charge(turns.drop_last()) + match turns.last() {
            JsonV::Object(m) => crate::signals::signal_charge(m),
            _ => 0,
        }
    }
}

/// One turn step charges the token-signal budget exactly what the new
/// turn's signals are charged.
#[verifier::spinoff_prover]
#[verifier::rlimit(40)]
proof fn lemma_step_charge(
    entries: Seq<TreeEntry>,
    drafts: Seq<(Seq<usize>, Option<usize>)>,
    spans: Seq<JsonV>,
    boundary: Seq<Seq<char>>,
    timestamp_start: Seq<char>,
    session_id: Seq<char>,
    s: TurnsState,
    t: int,
)
    requires
        s.signal_remaining >= 0,
    ensures
        ({
            let s2 = spec_turn_step(entries, drafts, spans, boundary, timestamp_start, session_id, s, t);
            &&& s2.turns == s.turns.push(s2.turns.last())
            &&& 0 <= s2.signal_remaining
            &&& crate::signals::signal_charge(s2.turns.last().extra) == s.signal_remaining - s2.signal_remaining
        }),
{
    let s2 = spec_turn_step(entries, drafts, spans, boundary, timestamp_start, session_id, s, t);
    let draft = drafts[t];
    let assistant = turn_assistant(entries, draft.1);
    let timestamp = match assistant {
        Some(e) => match e.spec_recorded_at() {
            Some(ts) => ts,
            None => fallback_timestamp(boundary, t, timestamp_start),
        },
        None => fallback_timestamp(boundary, t, timestamp_start),
    };
    let (pm, r1) = spec_messages(entries, draft.0, timestamp, s.remaining);
    let (messages, r2) = match assistant {
        Some(e) => {
            let (m, r) = crate::message::spec_build_message(e, timestamp, r1);
            (pm.push(m), r)
        },
        None => (pm, r1),
    };
    let obs = turn_observations(entries, drafts, t);
    let own_calls = match assistant {
        Some(e) => crate::trajectory::entry_tool_calls(e),
        None => seq![],
    };
    let (decisions, error, duration, claimed, r3) = decide_calls(
        turn_calls(own_calls, obs),
        obs,
        spans,
        s.claimed,
        r2,
    );
    let base_extra = (if duration > 0 {
        seq![("duration_ms"@, float_of(duration))]
    } else {
        seq![]
    }) + seq![
        ("_prompt_tokens"@, crate::trajectory::juint(turn_prompt_tokens(entries, draft.0, assistant))),
        ("_completion_tokens"@, crate::trajectory::juint(turn_completion_tokens(assistant))),
    ];
    lemma_base_extra_names(
        base_extra,
        duration,
        crate::trajectory::juint(turn_prompt_tokens(entries, draft.0, assistant)),
        crate::trajectory::juint(turn_completion_tokens(assistant)),
    );
    let last = s2.turns.last();
    assert(s2.turns == s.turns.push(last));
    match assistant {
        Some(e) => {
            crate::signals::lemma_attach_charge(base_extra, e.raw@, s.signal_remaining);
            let (adds, inventory, sr) = crate::signals::spec_attach_token_signals(e.raw@, s.signal_remaining);
            assert(last.extra == base_extra + adds);
        },
        None => {
            assert(last.extra == base_extra);
            crate::signals::lemma_no_signal_charge(base_extra);
        },
    }
}

/// After the first `n` turns, the token-signal budget has spent exactly
/// what their signals were charged.
proof fn lemma_turns_charge(
    entries: Seq<TreeEntry>,
    drafts: Seq<(Seq<usize>, Option<usize>)>,
    spans: Seq<JsonV>,
    boundary: Seq<Seq<char>>,
    timestamp_start: Seq<char>,
    session_id: Seq<char>,
    n: int,
)
    ensures
        ({
            let st = spec_turns(entries, drafts, spans, boundary, timestamp_start, session_id, n);
            &&& 0 <= st.signal_remaining
            &&& turns_signal_charge(st.turns) == crate::ots::MAX_TOKEN_SIGNAL_BYTES - st.signal_remaining
        }),
    decreases n,
{
    if n > 0 {
        lemma_turns_charge(entries, drafts, spans, boundary, timestamp_start, session_id, n - 1);
        let s = spec_turns(entries, drafts, spans, boundary, timestamp_start, session_id, n - 1);
        lemma_step_charge(entries, drafts, spans, boundary, timestamp_start, session_id, s, n - 1);
        let st = spec_turns(entries, drafts, spans, boundary, timestamp_start, session_id, n);
        assert(st == spec_turn_step(entries, drafts, spans, boundary, timestamp_start, session_id, s, n - 1));
        assert(st.turns.drop_last() =~= s.turns);
    } else {
        let st = spec_turns(entries, drafts, spans, boundary, timestamp_start, session_id, n);
        assert(st.turns.len() == 0);
    }
}

/// Two turn lists whose turns hold the same members after the fixed ones
/// are charged the same.
proof fn lemma_same_extra_charge(a: Seq<TurnParts>, b: Seq<TurnParts>)
    requires
        a.len() == b.len(),
        forall|i: int| 0 <= i < a.len() ==> (#[trigger] a[i]).extra == b[i].extra,
    ensures
        turns_signal_charge(a) == turns_signal_charge(b),
    decreases a.len(),
{
    if a.len() > 0 {
        assert forall|i: int| 0 <= i < a.drop_last().len() implies (#[trigger] a.drop_last()[i]).extra
            == b.drop_last()[i].extra by {
            assert(a.drop_last()[i] == a[i] && b.drop_last()[i] == b[i]);
        }
        lemma_same_extra_charge(a.drop_last(), b.drop_last());
        assert(a.last().extra == b.last().extra);
    }
}

/// Folding in the unclaimed spans changes no turn's signals.
proof fn lemma_final_turns_charge(
    turns: Seq<TurnParts>,
    orphans: Seq<JsonV>,
    orphan_failed: bool,
    session_id: Seq<char>,
    timestamp_start: Seq<char>,
    failed_status: bool,
)
    ensures
        turns_signal_charge(final_turns(turns, orphans, orphan_failed, session_id, timestamp_start, failed_status))
            == turns_signal_charge(turns),
{
    let f = final_turns(turns, orphans, orphan_failed, session_id, timestamp_start, failed_status);
    if turns.len() == 0 {
        assert(f.len() == 1 && f[0].extra.len() == 0);
        assert(turns_signal_charge(f.drop_last()) == 0);
        assert(f.last() == f[0]);
        crate::signals::lemma_no_signal_charge(f[0].extra);
        assert(turns_signal_charge(f) == 0);
    } else {
        assert(f.len() == turns.len());
        assert forall|i: int| 0 <= i < f.len() implies (#[trigger] f[i]).extra == turns[i].extra by {}
        lemma_same_extra_charge(f, turns);
    }
}

/// A document's turns are charged what the turns are.
proof fn lemma_document_signal_charge(turns: Seq<TurnParts>)
    ensures
        document_signal_charge(turns.map_values(|t: TurnParts| turn_json(t))) == turns_signal_charge(turns),
    decreases turns.len(),
{
    if turns.len() > 0 {
        let js = turns.map_values(|t: TurnParts| turn_json(t));
        assert(js.drop_last() =~= turns.drop_last().map_values(|t: TurnParts| turn_json(t)));
        lemma_document_signal_charge(turns.drop_last());
        let t = turns.last();
        assert(js.last() == turn_json(t));
        let fixed = seq![
            ("turn_id"@, crate::signals::jint(t.turn_id)),
            ("span_id"@, crate::trajectory::jstr(t.span_id)),
            ("timestamp"@, crate::trajectory::jstr(t.timestamp)),
            ("error"@, JsonV::Bool(t.error)),
            ("messages"@, JsonV::Array(t.messages)),
            ("decisions"@, JsonV::Array(t.decisions)),
        ];
        assert(turn_json(t)->Object_0 == fixed + t.extra);
        reveal_strlit("turn_id");
        reveal_strlit("span_id");
        reveal_strlit("timestamp");
        reveal_strlit("error");
        reveal_strlit("messages");
        reveal_strlit("decisions");
        assert forall|k: int| 0 <= k < fixed.len() implies !crate::signals::is_signal_name(#[trigger] fixed[k].0) by {
            assert(fixed[k].0.len() > 0);
            if crate::signals::is_signal_name(fixed[k].0) {
                crate::signals::lemma_signal_name_initial(fixed[k].0);
            }
        }
        crate::signals::lemma_charge_skip(fixed, t.extra);
    }
}

/// The token signals a document's turns carry were all charged to one budget
/// of `MAX_TOKEN_SIGNAL_BYTES` bytes (each turn's prompt ids by their
/// serialized size, its completion signals together by the serialized size
/// of the array of them), so together they stay within that ceiling.
#[verifier::spinoff_prover]
pub proof fn law_document_signal_bytes_bounded(inputs: TrajectoryInputs, entries: Seq<TreeEntry>)
    ensures
        ({
            let doc = spec_assemble_trajectory(inputs, entries);
            document_signal_charge(doc->Object_0[3].1->Array_0) <= crate::ots::MAX_TOKEN_SIGNAL_BYTES
        }),
{
    let fields = inputs.fields@;
    let (event_start, timestamp_end) = crate::trajectory::spec_event_bookends(inputs.entity_state@);
    let (chain, from_recorded_leaf) = spec_resolve_chain(entries, str_or(fields, "session_leaf_id"@, ""@));
    let drafts = group_from(entries, chain, seq![]);
    let timestamp_start = match first_recorded(entries, chain) {
        Some(t) => t,
        None => event_start,
    };
    let (spans, truncated, span_unparsed) = crate::trajectory::span_document(
        crate::session::line_values(inputs.tool_spans_jsonl@),
    );
    let boundary = match crate::trajectory::state_events(inputs.entity_state@) {
        Some(events) => crate::trajectory::boundary_stamps(events),
        None => seq![],
    };
    let failed = inputs.status@ == "Failed"@;
    let n = drafts.len() as int;
    lemma_turns_charge(entries, drafts, spans, boundary, timestamp_start, inputs.session_id@, n);
    let st = spec_turns(entries, drafts, spans, boundary, timestamp_start, inputs.session_id@, n);
    let (orphans, orphan_failed, _) = orphan_decisions(spans, st.claimed, st.remaining, spans.len() as int);
    lemma_final_turns_charge(st.turns, orphans, orphan_failed, inputs.session_id@, timestamp_start, failed);
    let core = spec_core(entries, drafts, spans, boundary, timestamp_start, inputs.session_id@, failed);
    let doc = spec_assemble_trajectory(inputs, entries);
    assert(doc->Object_0[3].1->Array_0 == core.0.map_values(|t: TurnParts| turn_json(t)));
    lemma_document_signal_charge(core.0);
}

} // verus!
