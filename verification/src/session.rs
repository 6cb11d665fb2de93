//! Reading the session tree: JSONL lines into `TreeEntry` values, and the
//! numbers and timestamps the entries carry.

use vstd::prelude::*;
use crate::chain::TreeEntry;
use crate::dates::{rfc3339_from_millis, spec_rfc3339_from_millis};
use crate::json::{
    Json, JsonNumber, JsonV, NumberV, items_view, opt_json_owned, opt_str, spec_as_array,
    spec_as_u64, spec_get,
};
use crate::json_text::{parse_json, parsed_json};
use crate::text::{
    chars_of, lines, lines_of, opt_string, parse_i64, parse_i64_chars, parse_u64, parse_u64_chars,
    string_from_chars, trim, trim_chars,
};
use vstd::string::StrSliceExecFns;

verus! {

/// What `json_i64` reads from a value: an integer (saturated to `i64`), a
/// non-integer truncated toward zero, or a string holding a signed integer.
pub open spec fn spec_json_i64(v: JsonV) -> Option<i64> {
    match v {
        JsonV::Number(NumberV::PosInt(u)) => Some(
            if u <= i64::MAX as u64 {
                u as i64
            } else {
                i64::MAX
            },
        ),
        JsonV::Number(NumberV::NegInt(i)) => Some(i),
        JsonV::Number(NumberV::Float { as_i64, .. }) => Some(as_i64),
        JsonV::String(s) => parse_i64(trim(s)),
        _ => None,
    }
}

/// What `json_u64` reads from a value: a non-negative integer, a non-integer
/// whose rendering shows no value below zero, truncated toward zero, or a string holding an unsigned integer.
pub open spec fn spec_json_u64(v: JsonV) -> Option<u64> {
    match v {
        JsonV::Number(NumberV::PosInt(u)) => Some(u),
        JsonV::Number(NumberV::Float { text, as_u64, .. }) => if crate::json::shows_negative(text) {
            None
        } else {
            Some(as_u64)
        },
        JsonV::String(s) => parse_u64(trim(s)),
        _ => None,
    }
}

/// An integer read leniently from a JSON value.
pub fn json_i64(value: &Json) -> (res: Option<i64>)
    ensures
        res == spec_json_i64(value@),
{
    match value {
        Json::Number(JsonNumber::PosInt(u)) => {
            if *u <= i64::MAX as u64 {
                Some(*u as i64)
            } else {
                Some(i64::MAX)
            }
        },
        Json::Number(JsonNumber::NegInt(i)) => Some(*i),
        Json::Number(JsonNumber::Float { as_i64, .. }) => Some(*as_i64),
        Json::String(s) => {
            let t = trim_chars(&chars_of(s.as_str()));
            parse_i64_chars(&t)
        },
        _ => None,
    }
}

/// An unsigned integer read leniently from a JSON value.
pub fn json_u64(value: &Json) -> (res: Option<u64>)
    ensures
        res == spec_json_u64(value@),
{
    match value {
        Json::Number(JsonNumber::PosInt(u)) => Some(*u),
        Json::Number(JsonNumber::NegInt(_)) => None,
        Json::Number(JsonNumber::Float { text, as_u64, .. }) => if crate::json::renders_negative(text.as_str()) {
            None
        } else {
            Some(*as_u64)
        },
        Json::String(s) => {
            let t = trim_chars(&chars_of(s.as_str()));
            parse_u64_chars(&t)
        },
        _ => None,
    }
}

/// `json_u64` of an optional value.
pub open spec fn opt_u64(v: Option<JsonV>) -> Option<u64> {
    match v {
        Some(j) => spec_json_u64(j),
        None => None,
    }
}

/// `json_u64` of the member `key`.
pub fn get_u64(value: &Json, key: &str) -> (res: Option<u64>)
    ensures
        res == opt_u64(spec_get(value@, key@)),
{
    match value.get(key) {
        Some(v) => json_u64(v),
        None => None,
    }
}

/// A string that is not empty.
pub open spec fn nonempty(v: Option<Seq<char>>) -> Option<Seq<char>> {
    match v {
        Some(s) => if s.len() > 0 {
            Some(s)
        } else {
            None
        },
        None => None,
    }
}

/// The string under `key`, or `default` where there is none.
pub open spec fn str_or(v: JsonV, key: Seq<char>, default: Seq<char>) -> Seq<char> {
    match opt_str(spec_get(v, key)) {
        Some(s) => s,
        None => default,
    }
}

/// A JSON line that can be a session-tree entry: it names a non-empty `id`.
pub open spec fn is_entry_value(v: JsonV) -> bool {
    nonempty(opt_str(spec_get(v, "id"@))) is Some
}

/// `e` is the entry read from the line `v`.
pub open spec fn entry_of(e: TreeEntry, v: JsonV) -> bool {
    &&& Some(e.id@) == nonempty(opt_str(spec_get(v, "id"@)))
    &&& opt_string(e.parent_id) == nonempty(opt_str(spec_get(v, "parentId"@)))
    &&& e.entry_type@ == str_or(v, "type"@, "message"@)
    &&& e.role@ == str_or(v, "role"@, ""@)
    &&& opt_json_owned(e.content) == spec_get(v, "content"@)
    &&& opt_string(e.content_file_id) == nonempty(opt_str(spec_get(v, "content_file_id"@)))
    &&& opt_string(e.content_file_version_id) == nonempty(
        opt_str(spec_get(v, "content_file_version_id"@)),
    )
    &&& e.tokens == (match spec_get(v, "tokens"@) {
        Some(t) => match spec_as_u64(t) {
            Some(n) => n,
            None => 0,
        },
        None => 0,
    })
    &&& e.raw@ == v
}

/// The member `key` as a non-empty string.
fn nonempty_str_field(value: &Json, key: &str) -> (res: Option<String>)
    ensures
        opt_string(res) == nonempty(opt_str(spec_get(value@, key@))),
{
    match value.get_str(key) {
        Some(s) => {
            if s.unicode_len() > 0 {
                Some(s.to_string())
            } else {
                None
            }
        },
        None => None,
    }
}

/// The member `key` as a string, or `default`.
fn str_field_or(value: &Json, key: &str, default: &str) -> (res: String)
    ensures
        res@ == str_or(value@, key@, default@),
{
    match value.get_str(key) {
        Some(s) => s.to_string(),
        None => default.to_string(),
    }
}

impl TreeEntry {
    /// The entry a parsed JSONL line describes; `None` when it names no id.
    pub fn from_value(value: Json) -> (res: Option<TreeEntry>)
        ensures
            res is Some <==> is_entry_value(value@),
            res matches Some(e) ==> entry_of(e, value@),
    {
        let id = match nonempty_str_field(&value, "id") {
            Some(id) => id,
            None => return None,
        };
        let parent_id = nonempty_str_field(&value, "parentId");
        let entry_type = str_field_or(&value, "type", "message");
        let role = str_field_or(&value, "role", "");
        let content = match value.get("content") {
            Some(c) => Some(c.duplicate()),
            None => None,
        };
        let content_file_id = nonempty_str_field(&value, "content_file_id");
        let content_file_version_id = nonempty_str_field(&value, "content_file_version_id");
        let tokens: u64 = match value.get("tokens") {
            Some(t) => match t.as_u64() {
                Some(n) => n,
                None => 0,
            },
            None => 0,
        };
        Some(
            TreeEntry {
                id,
                parent_id,
                entry_type,
                role,
                content,
                content_file_id,
                content_file_version_id,
                tokens,
                raw: value,
            },
        )
    }

    /// When the entry was recorded: `ts_ms` as an RFC-3339 timestamp, else a
    /// non-empty `timestamp` string.
    pub open spec fn spec_recorded_at(&self) -> Option<Seq<char>> {
        match spec_get(self.raw@, "ts_ms"@) {
            Some(ts) => match spec_json_i64(ts) {
                Some(ms) => Some(spec_rfc3339_from_millis(ms as int)),
                None => nonempty(opt_str(spec_get(self.raw@, "timestamp"@))),
            },
            None => nonempty(opt_str(spec_get(self.raw@, "timestamp"@))),
        }
    }

    /// Wall-clock time the entry was recorded, when the writer stamped one.
    pub fn recorded_at(&self) -> (res: Option<String>)
        ensures
            opt_string(res) == self.spec_recorded_at(),
    {
        match self.raw.get("ts_ms") {
            Some(ts) => match json_i64(ts) {
                Some(ms) => return Some(rfc3339_from_millis(ms)),
                None => {},
            },
            None => {},
        }
        nonempty_str_field(&self.raw, "timestamp")
    }

    /// The content blocks, when the content is an array.
    pub open spec fn spec_blocks(&self) -> Option<Seq<JsonV>> {
        match self.content {
            Some(c) => spec_as_array(c@),
            None => None,
        }
    }

    /// Content blocks when the entry carries an Anthropic-style block array.
    pub fn blocks(&self) -> (res: Option<&Vec<Json>>)
        ensures
            match res {
                Some(items) => self.spec_blocks() == Some(items_view(items@)),
                None => self.spec_blocks() is None,
            },
    {
        match &self.content {
            Some(c) => c.as_array(),
            None => None,
        }
    }
}

/// The JSON values of the non-blank lines of `text`, in order: `None` for a
/// line that does not parse.
pub open spec fn line_values(text: Seq<char>) -> Seq<Option<JsonV>> {
    lines(text).filter(|l: Seq<char>| trim(l).len() > 0).map_values(|l: Seq<char>| parsed_json(trim(l)))
}

/// The values among `values` that parsed and name an entry id.
pub open spec fn entry_values(values: Seq<Option<JsonV>>) -> Seq<JsonV>
    decreases values.len(),
{
    if values.len() == 0 {
        seq![]
    } else {
        let rest = entry_values(values.drop_last());
        match values.last() {
            Some(v) => if is_entry_value(v) {
                rest.push(v)
            } else {
                rest
            },
            None => rest,
        }
    }
}

/// Parse session-tree JSONL into ordered entries. Lines that do not parse, or
/// that name no id, are skipped.
pub fn parse_session_entries(session_jsonl: &str) -> (res: Vec<TreeEntry>)
    ensures
        res@.len() == entry_values(line_values(session_jsonl@)).len(),
        forall|i: int|
            0 <= i < res@.len() ==> entry_of(#[trigger] res@[i], entry_values(line_values(session_jsonl@))[i]),
{
    let text = chars_of(session_jsonl);
    let all = lines_of(&text);
    let ghost ls = lines(session_jsonl@);
    let ghost kept = ls.filter(|l: Seq<char>| trim(l).len() > 0);
    let ghost vals: Seq<Option<JsonV>> = seq![];
    let mut out: Vec<TreeEntry> = Vec::new();
    let mut i: usize = 0;
    proof {
        assert(all@.map_values(|l: Vec<char>| l@) == ls);
        assert(ls.take(0).filter(|l: Seq<char>| trim(l).len() > 0) =~= seq![]);
    }
    while i < all.len()
        invariant
            i <= all@.len(),
            all@.map_values(|l: Vec<char>| l@) == ls,
            vals == ls.take(i as int).filter(|l: Seq<char>| trim(l).len() > 0).map_values(
                |l: Seq<char>| parsed_json(trim(l)),
            ),
            out@.len() == entry_values(vals).len(),
            forall|k: int| 0 <= k < out@.len() ==> entry_of(#[trigger] out@[k], entry_values(vals)[k]),
        decreases all@.len() - i,
    {
        let line = trim_chars(&all[i]);
        proof {
            assert(all@[i as int]@ == ls[i as int]);
            assert(ls.take(i + 1).drop_last() =~= ls.take(i as int));
            assert(ls.take(i + 1).last() == ls[i as int]);
        }
        if line.len() > 0 {
            let s = string_from_chars(&line);
            let parsed = parse_json(s.as_str());
            proof {
                let f = |l: Seq<char>| trim(l).len() > 0;
                let g = |l: Seq<char>| parsed_json(trim(l));
                ls.take(i as int).lemma_filter_push(ls[i as int], f);
                assert(ls.take(i + 1) =~= ls.take(i as int).push(ls[i as int]));
                let old_vals = vals;
                vals = vals.push(parsed_json(trim(ls[i as int])));
                assert(vals =~= ls.take(i + 1).filter(f).map_values(g));
                assert(vals.drop_last() =~= old_vals);
            }
            match parsed {
                Some(v) => {
                    let entry = TreeEntry::from_value(v);
                    match entry {
                        Some(e) => {
                            out.push(e);
                        },
                        None => {},
                    }
                },
                None => {},
            }
        } else {
            proof {
                let f = |l: Seq<char>| trim(l).len() > 0;
                let g = |l: Seq<char>| parsed_json(trim(l));
                ls.take(i as int).lemma_filter_push(ls[i as int], f);
                assert(ls.take(i + 1) =~= ls.take(i as int).push(ls[i as int]));
                assert(ls.take(i + 1).filter(f) =~= ls.take(i as int).filter(f));
            }
        }
        i += 1;
    }
    proof {
        assert(ls.take(i as int) =~= ls);
    }
    out
}

} // verus!
