//! Trajectory assembly from a session's tree and tool spans.

use vstd::prelude::*;
use vstd::string::StrSliceExecFns;
pub use crate::dates::{rfc3339_from_millis, civil_from_days};
use crate::json::{Json, JsonV};
use crate::json_text::{serialized_json, to_json_text};
use crate::text::{str_eq, chars_of, ascii_lowercase, ascii_lower_seq, contains_chars, contains_seq, take_chars, spec_truncate, min_int};

verus! {

/// The OTS outcome for a terminal session status and its `has_result` flag.
pub open spec fn spec_derive_outcome(status: Seq<char>, has_result: bool) -> Seq<char> {
    if status == "Completed"@ {
        if has_result { "success"@ } else { "partial_success"@ }
    } else if status == "Cancelled"@ {
        "partial_success"@
    } else {
        "failure"@
    }
}

/// Map the Session's terminal state and `has_result` flag to an OTS outcome.
pub fn derive_outcome(status: &str, has_result: bool) -> (res: &'static str)
    ensures
        res@ == spec_derive_outcome(status@, has_result),
{
    proof {
        reveal_strlit("Completed");
        reveal_strlit("Cancelled");
        reveal_strlit("Failed");
        reveal_strlit("success");
        reveal_strlit("partial_success");
        reveal_strlit("failure");
    }
    if str_eq(status, "Completed") {
        if has_result { "success" } else { "partial_success" }
    } else if str_eq(status, "Failed") {
        assert(status@.len() != "Cancelled"@.len());
        "failure"
    } else if str_eq(status, "Cancelled") {
        "partial_success"
    } else {
        "failure"
    }
}


/// Value of `metadata.harness`: identifies the runtime that produced the run.
pub const HARNESS: &'static str = "temperpaw";
/// Tag prefix mirroring `metadata.harness` into `metadata.tags`.
pub const HARNESS_TAG_PREFIX: &'static str = "harness:";
/// Tag prefix mirroring `metadata.spec_version` into `metadata.tags`.
pub const SPEC_VERSION_TAG_PREFIX: &'static str = "spec_version:";
/// Tag prefix naming evidence this trajectory was built without.
pub const DEGRADED_TAG_PREFIX: &'static str = "degraded:";
/// OTS schema version emitted by this module.
pub const OTS_VERSION: &'static str = "0.1.0";
/// Largest inline text body attached to a single OTS message.
pub const MAX_MESSAGE_INLINE_CHARS: usize = 4000;
/// Largest total inline text across the whole trajectory document.
pub const MAX_TRAJECTORY_INLINE_CHARS: usize = 64000;
/// Largest `consequence.result_summary`.
pub const MAX_RESULT_SUMMARY_CHARS: usize = 500;
/// Largest serialized `choice.arguments` payload.
pub const MAX_ARGUMENTS_CHARS: usize = 4000;
/// Largest inlined system prompt.
pub const MAX_SYSTEM_PROMPT_CHARS: usize = 2000;
/// Largest task description taken from the user message.
pub const MAX_TASK_DESCRIPTION_CHARS: usize = 500;
/// Largest total serialized size of token-level signals in one trajectory.
pub const MAX_TOKEN_SIGNAL_BYTES: usize = 1048576;
/// `context.entities[].type` under which a turn's token-signal inventory is recorded.
pub const TOKEN_SIGNAL_CARRIER_TYPE: &'static str = "turn_token_signals";
/// Tag announcing that the stored row carries token-level signals.
pub const TOKEN_SIGNALS_TAG: &'static str = "token_signals:present";
/// Reserved tool name written when the span document hits its size ceiling.
pub const TOOL_SPANS_TRUNCATED_MARKER: &'static str = "_tool_spans_truncated";

/// Every token-level signal name, in the shape OTS turns use. The prompt-side
/// ids stand alone; the rest are the positionally aligned completion set.
pub const TOKEN_SIGNAL_FIELDS: [&'static str; 4] = [
    "prompt_token_ids",
    "completion_token_ids",
    "response_mask",
    "logprobs",
];

/// The element shape a token-signal array must have.
#[derive(Clone, Copy, Debug, PartialEq, Eq)]
pub enum SignalShape {
    /// Integers that fit in `u32`.
    U32,
    /// Integers that fit in `u8`.
    U8,
    /// Any numbers.
    F64,
}

/// Completion-side token signals, in the order they are emitted, with the
/// element shape each must have.
pub const COMPLETION_TOKEN_SIGNALS: [(&'static str, SignalShape); 3] = [
    ("completion_token_ids", SignalShape::U32),
    ("response_mask", SignalShape::U8),
    ("logprobs", SignalShape::F64),
];

/// The error category of a tool-call error message, from its lower-cased text.
pub open spec fn spec_classify_error(error_text: Seq<char>) -> Seq<char> {
    let lowered = ascii_lower_seq(error_text);
    if lowered.len() == 0 {
        "unknown_error"@
    } else if contains_seq(lowered, "timeout"@) || contains_seq(lowered, "timed out"@) {
        "tool_timeout"@
    } else if contains_seq(lowered, "cedar"@) || contains_seq(lowered, "denied"@) {
        "cedar_denied"@
    } else {
        "tool_error"@
    }
}

/// Classify a tool-call error message into an OTS `consequence.error_type`.
pub fn classify_error(error_text: &str) -> (res: &'static str)
    ensures
        res@ == spec_classify_error(error_text@),
{
    proof {
        reveal_strlit("unknown_error");
        reveal_strlit("tool_timeout");
        reveal_strlit("cedar_denied");
        reveal_strlit("tool_error");
    }
    let lowered = ascii_lowercase(&chars_of(error_text));
    if lowered.len() == 0 {
        "unknown_error"
    } else if contains_chars(&lowered, &chars_of("timeout"))
        || contains_chars(&lowered, &chars_of("timed out")) {
        "tool_timeout"
    } else if contains_chars(&lowered, &chars_of("cedar"))
        || contains_chars(&lowered, &chars_of("denied")) {
        "cedar_denied"
    } else {
        "tool_error"
    }
}

/// Truncate a string to at most `max_chars` characters (not bytes).
pub fn truncate_chars(s: &str, max_chars: usize) -> (res: String)
    ensures
        res@ == spec_truncate(s@, max_chars as int),
{
    take_chars(s, max_chars)
}

/// The OTS content type for a message role.
pub open spec fn spec_content_type_for_role(role: Seq<char>) -> Seq<char> {
    if role == "tool"@ { "tool_response"@ } else { "text"@ }
}

/// The OTS content type for a message role.
pub fn content_type_for_role(role: &str) -> (res: &'static str)
    ensures
        res@ == spec_content_type_for_role(role@),
{
    if str_eq(role, "tool") { "tool_response" } else { "text" }
}

/// Bounded inline-text accounting shared across the whole trajectory.
pub struct InlineBudget {
    /// Characters still available to the whole document.
    pub remaining: usize,
}

impl InlineBudget {
    /// A budget of `total` characters.
    pub fn new(total: usize) -> (res: Self)
        ensures
            res.remaining == total,
    {
        InlineBudget { remaining: total }
    }

    /// Take up to `per_message_max` characters of `text`, within what the
    /// budget has left. Returns the kept text and the number of characters
    /// dropped; the budget shrinks by the characters kept.
    pub fn take(&mut self, text: &str, per_message_max: usize) -> (res: (String, usize))
        ensures
            (res.0@, res.1 as int, final(self).remaining as int) == spec_take(
                old(self).remaining as int,
                text@,
                per_message_max as int,
            ),
    {
        let cap = if per_message_max < self.remaining { per_message_max } else { self.remaining };
        let total = text.unicode_len();
        if cap >= total {
            self.remaining = self.remaining - total;
            return (text.to_string(), 0);
        }
        let taken = take_chars(text, cap);
        self.remaining = self.remaining - cap;
        (taken, total - cap)
    }
}

/// What taking `text` from a budget with `remaining` characters left under a
/// per-message cap gives: the kept text, the characters dropped, and what the
/// budget has left after.
pub open spec fn spec_take(remaining: int, text: Seq<char>, per_message_max: int) -> (Seq<char>, int, int) {
    let cap = min_int(per_message_max, remaining);
    let total = text.len() as int;
    if cap >= total {
        (text, 0, remaining - total)
    } else {
        (text.take(cap), total - cap, remaining - cap)
    }
}

/// One take from the inline budget keeps at most the per-message limit and
/// at most what is left, records exactly the characters it cut, keeps a
/// prefix of the text, and spends what it kept.
pub proof fn law_take_bounds(remaining: int, text: Seq<char>, per_message_max: int)
    requires
        remaining >= 0,
        per_message_max >= 0,
    ensures
        ({
            let (kept, dropped, left) = spec_take(remaining, text, per_message_max);
            &&& kept.len() <= per_message_max
            &&& kept.len() <= remaining
            &&& kept.len() + dropped == text.len()
            &&& kept == text.take(kept.len() as int)
            &&& left == remaining - kept.len()
            &&& 0 <= left
        }),
{
    let (kept, dropped, left) = spec_take(remaining, text, per_message_max);
    if min_int(per_message_max, remaining) >= text.len() {
        assert(text.take(text.len() as int) =~= text);
    }
}

/// Whole-trajectory ceiling on token-signal bytes, spent in write order.
pub struct TokenSignalBudget {
    /// Bytes still available.
    pub remaining: usize,
}

impl TokenSignalBudget {
    /// A budget of `total` bytes.
    pub fn new(total: usize) -> (res: Self)
        ensures
            res.remaining == total,
    {
        TokenSignalBudget { remaining: total }
    }

    /// Spend the serialized size of a signal: `Some(size)` and a smaller
    /// budget when it fits what is left, `None` and an unchanged budget when
    /// it does not.
    pub fn take(&mut self, value: &Json) -> (res: Option<usize>)
        ensures
            ({
                let size = serialized_size(value@);
                if size <= old(self).remaining {
                    &&& res == Some(size)
                    &&& final(self).remaining == old(self).remaining - size
                } else {
                    &&& res is None
                    &&& final(self).remaining == old(self).remaining
                }
            }),
    {
        let serialized = to_json_text(value);
        let size = serialized.as_str().len();
        if size > self.remaining {
            return None;
        }
        self.remaining = self.remaining - size;
        Some(size)
    }
}

/// The byte length of a value's serialized text.
pub open spec fn serialized_size(value: JsonV) -> usize {
    vstd::utf8::encode_utf8(serialized_json(value)).len() as usize
}

} // verus!
