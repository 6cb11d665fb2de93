//! Conversation history upkeep before a model call: tool-call ids and the
//! synthetic results that close interrupted calls, stale tool results
//! pruned, and the size estimates of a history.

use vstd::prelude::*;
use crate::json::{Json, JsonV, opt_str, spec_get, items_view};
use crate::text::{chars_of, str_eq};
use crate::tools::strings_view;

verus! {

/// Lexicographic order of texts by code point (the order of `String`,
/// whose bytes compare as the code points do).
pub open spec fn text_less(a: Seq<char>, b: Seq<char>) -> bool
    decreases a.len(),
{
    if a.len() == 0 {
        b.len() > 0
    } else if b.len() == 0 {
        false
    } else if a[0] != b[0] {
        (a[0] as u32) < (b[0] as u32)
    } else {
        text_less(a.drop_first(), b.drop_first())
    }
}

/// No text comes before itself.
pub proof fn lemma_text_less_irreflexive(a: Seq<char>)
    ensures
        !text_less(a, a),
    decreases a.len(),
{
    if a.len() > 0 {
        lemma_text_less_irreflexive(a.drop_first());
    }
}

/// Of two different texts, one comes before the other.
pub proof fn lemma_text_less_total(a: Seq<char>, b: Seq<char>)
    ensures
        a != b ==> (text_less(a, b) || text_less(b, a)),
    decreases a.len(),
{
    if a.len() > 0 && b.len() > 0 {
        lemma_text_less_total(a.drop_first(), b.drop_first());
        vstd::utf8::char_u32_cast(a[0], a[0] as u32);
        vstd::utf8::char_u32_cast(b[0], b[0] as u32);
        if a != b && a[0] == b[0] {
            assert(a =~= seq![a[0]] + a.drop_first());
            assert(b =~= seq![b[0]] + b.drop_first());
        }
    } else if a.len() == 0 && b.len() == 0 {
        assert(a =~= b);
    }
}

/// Two texts do not come before each other.
pub proof fn lemma_text_less_asymmetric(a: Seq<char>, b: Seq<char>)
    ensures
        text_less(a, b) ==> !text_less(b, a),
    decreases a.len(),
{
    if a.len() > 0 && b.len() > 0 {
        lemma_text_less_asymmetric(a.drop_first(), b.drop_first());
    }
}

/// The order is transitive.
pub proof fn lemma_text_less_transitive(a: Seq<char>, b: Seq<char>, c: Seq<char>)
    ensures
        text_less(a, b) && text_less(b, c) ==> text_less(a, c),
    decreases a.len(),
{
    if a.len() > 0 && b.len() > 0 && c.len() > 0 {
        lemma_text_less_transitive(a.drop_first(), b.drop_first(), c.drop_first());
    }
}

/// `text_less` is a strict total order.
pub proof fn lemma_text_less_order(a: Seq<char>, b: Seq<char>, c: Seq<char>)
    ensures
        !text_less(a, a),
        a != b ==> (text_less(a, b) || text_less(b, a)),
        text_less(a, b) ==> !text_less(b, a),
        text_less(a, b) && text_less(b, c) ==> text_less(a, c),
{
    lemma_text_less_irreflexive(a);
    lemma_text_less_total(a, b);
    lemma_text_less_asymmetric(a, b);
    lemma_text_less_transitive(a, b, c);
}

/// Whether `a` comes before `b`.
pub fn str_less(a: &str, b: &str) -> (res: bool)
    ensures
        res == text_less(a@, b@),
{
    let x = chars_of(a);
    let y = chars_of(b);
    let mut i: usize = 0;
    assert(x@.skip(0) =~= x@ && y@.skip(0) =~= y@);
    while i < x.len() && i < y.len()
        invariant
            x@ == a@,
            y@ == b@,
            i <= x@.len(),
            i <= y@.len(),
            x@.take(i as int) == y@.take(i as int),
            text_less(x@, y@) == text_less(x@.skip(i as int), y@.skip(i as int)),
        decreases x@.len() - i,
    {
        assert(x@.skip(i as int).drop_first() =~= x@.skip(i + 1));
        assert(y@.skip(i as int).drop_first() =~= y@.skip(i + 1));
        if x[i] != y[i] {
            let ghost xs = x@.skip(i as int);
            let ghost ys = y@.skip(i as int);
            assert(xs[0] == x@[i as int] && ys[0] == y@[i as int]);
            assert(xs.len() > 0 && ys.len() > 0 && xs[0] != ys[0]);
            assert(text_less(xs, ys) == ((xs[0] as u32) < (ys[0] as u32)));
            return (x[i] as u32) < (y[i] as u32);
        }
        assert(x@.take(i + 1) =~= x@.take(i as int).push(x@[i as int]));
        assert(y@.take(i + 1) =~= y@.take(i as int).push(y@[i as int]));
        i += 1;
    }
    i < y.len()
}

/// A strictly increasing sequence of texts: a sorted set.
pub open spec fn sorted_texts(s: Seq<Seq<char>>) -> bool {
    forall|i: int, j: int| 0 <= i < j < s.len() ==> text_less(#[trigger] s[i], #[trigger] s[j])
}

/// Strictly increasing texts hold none twice.
pub proof fn lemma_sorted_no_duplicates(s: Seq<Seq<char>>)
    requires
        sorted_texts(s),
    ensures
        s.no_duplicates(),
{
    assert forall|i: int, j: int| 0 <= i < s.len() && 0 <= j < s.len() && i != j implies s[i] != s[j] by {
        lemma_text_less_order(s[i], s[j], s[i]);
        if i < j {
            assert(text_less(s[i], s[j]));
        } else {
            assert(text_less(s[j], s[i]));
        }
    }
}

/// Adds `x` to a sorted set of texts, keeping it sorted.
pub fn insert_sorted(set: &mut Vec<String>, x: &str)
    requires
        sorted_texts(strings_view(old(set)@)),
    ensures
        sorted_texts(strings_view(final(set)@)),
        strings_view(final(set)@).to_set() == strings_view(old(set)@).to_set().insert(x@),
{
    let ghost before = strings_view(set@);
    let mut k: usize = 0;
    while k < set.len() && str_less(set[k].as_str(), x)
        invariant
            k <= set@.len(),
            before == strings_view(set@),
            sorted_texts(before),
            forall|i: int| 0 <= i < k ==> text_less(#[trigger] before[i], x@),
        decreases set@.len() - k,
    {
        k += 1;
    }
    if k < set.len() && str_eq(set[k].as_str(), x) {
        assert(before.to_set().insert(x@) =~= before.to_set()) by {
            assert(before[k as int] == x@);
        }
        return;
    }
    proof {
        if k < before.len() {
            lemma_text_less_order(before[k as int], x@, before[k as int]);
        }
    }
    set.insert(k, x.to_string());
    let ghost after = strings_view(set@);
    assert(after =~= before.insert(k as int, x@));
    assert forall|i: int, j: int| 0 <= i < j < after.len() implies text_less(
        #[trigger] after[i],
        #[trigger] after[j],
    ) by {
        if j < k {
            assert(after[i] == before[i] && after[j] == before[j]);
        } else if j == k {
            assert(after[i] == before[i]);
        } else if i == k {
            assert(after[j] == before[j - 1]);
            if j - 1 > k {
                assert(text_less(before[k as int], before[j - 1]));
                lemma_text_less_order(x@, before[k as int], before[j - 1]);
            }
        } else if i < k {
            assert(after[i] == before[i] && after[j] == before[j - 1]);
        } else {
            assert(after[i] == before[i - 1] && after[j] == before[j - 1]);
        }
    }
    assert(after.to_set() =~= before.to_set().insert(x@)) by {
        assert forall|y: Seq<char>| after.contains(y) implies before.contains(y) || y == x@ by {
            let n = choose|n: int| 0 <= n < after.len() && after[n] == y;
            if n < k {
                assert(before[n] == y);
            } else if n > k {
                assert(before[n - 1] == y);
            }
        }
        assert forall|y: Seq<char>| before.contains(y) implies after.contains(y) by {
            let n = choose|n: int| 0 <= n < before.len() && before[n] == y;
            if n < k {
                assert(after[n] == y);
            } else {
                assert(after[n + 1] == y);
            }
        }
        assert(after[k as int] == x@);
    }
}

/// The blocks of a message's `content` list; none where it is not a list.
pub open spec fn content_blocks(message: JsonV) -> Seq<JsonV> {
    match crate::json::opt_array(spec_get(message, "content"@)) {
        Some(blocks) => blocks,
        None => seq![],
    }
}

/// The ids named by the blocks of type `kind`, each under `key`.
pub open spec fn block_ids(blocks: Seq<JsonV>, kind: Seq<char>, key: Seq<char>) -> Set<Seq<char>>
    decreases blocks.len(),
{
    if blocks.len() == 0 {
        Set::empty()
    } else {
        let prior = block_ids(blocks.drop_last(), kind, key);
        let b = blocks.last();
        if opt_str(spec_get(b, "type"@)) == Some(kind) {
            match opt_str(spec_get(b, key)) {
                Some(id) => prior.insert(id),
                None => prior,
            }
        } else {
            prior
        }
    }
}

/// The ids of the tool calls a message makes.
pub open spec fn tool_use_ids(message: JsonV) -> Set<Seq<char>> {
    block_ids(content_blocks(message), "tool_use"@, "id"@)
}

/// The ids of the tool calls a message answers.
pub open spec fn tool_result_ids(message: JsonV) -> Set<Seq<char>> {
    block_ids(content_blocks(message), "tool_result"@, "tool_use_id"@)
}

/// The ids under `key` of the blocks of type `kind`, as a sorted set.
fn collect_block_ids(message: &Json, kind: &str, key: &str) -> (res: Vec<String>)
    ensures
        sorted_texts(strings_view(res@)),
        strings_view(res@).to_set() == block_ids(content_blocks(message@), kind@, key@),
{
    let mut ids: Vec<String> = Vec::new();
    proof {
        assert(strings_view(ids@).to_set() =~= Set::<Seq<char>>::empty());
    }
    let blocks = match message.get("content") {
        Some(c) => match c.as_array() {
            Some(b) => b,
            None => {
                return ids;
            },
        },
        None => {
            return ids;
        },
    };
    let ghost bv = items_view(blocks@);
    proof {
        crate::json::lemma_items_view(blocks@);
        assert(bv.take(0) =~= Seq::<JsonV>::empty());
    }
    let mut i: usize = 0;
    while i < blocks.len()
        invariant
            i <= blocks@.len(),
            bv == items_view(blocks@),
            bv == content_blocks(message@),
            bv.len() == blocks@.len(),
            forall|j: int| 0 <= j < blocks@.len() ==> #[trigger] bv[j] == blocks@[j]@,
            sorted_texts(strings_view(ids@)),
            strings_view(ids@).to_set() == block_ids(bv.take(i as int), kind@, key@),
        decreases blocks@.len() - i,
    {
        assert(bv.take(i + 1).drop_last() =~= bv.take(i as int));
        let b = &blocks[i];
        let matches = match b.get_str("type") {
            Some(t) => str_eq(t, kind),
            None => false,
        };
        if matches {
            if let Some(id) = b.get_str(key) {
                insert_sorted(&mut ids, id);
            }
        }
        i += 1;
    }
    assert(bv.take(i as int) =~= bv);
    ids
}

/// The ids of the tool calls a message makes, in order.
pub fn extract_tool_use_ids(message: &Json) -> (res: Vec<String>)
    ensures
        sorted_texts(strings_view(res@)),
        strings_view(res@).to_set() == tool_use_ids(message@),
{
    collect_block_ids(message, "tool_use", "id")
}

/// The ids of the tool calls a message answers, in order.
pub fn extract_tool_result_ids(message: &Json) -> (res: Vec<String>)
    ensures
        sorted_texts(strings_view(res@)),
        strings_view(res@).to_set() == tool_result_ids(message@),
{
    collect_block_ids(message, "tool_result", "tool_use_id")
}

/// Two sorted sequences with the same elements are the same sequence.
pub proof fn lemma_sorted_unique(s: Seq<Seq<char>>, t: Seq<Seq<char>>)
    requires
        sorted_texts(s),
        sorted_texts(t),
        s.to_set() == t.to_set(),
    ensures
        s == t,
    decreases s.len(),
{
    if s.len() == 0 {
        if t.len() > 0 {
            assert(t.to_set().contains(t[0]));
        }
        assert(s =~= t);
    } else if t.len() == 0 {
        assert(s.to_set().contains(s[0]));
    } else {
        assert(t.to_set().contains(s[0]));
        assert(s.to_set().contains(t[0]));
        let i = choose|i: int| 0 <= i < t.len() && t[i] == s[0];
        let j = choose|j: int| 0 <= j < s.len() && s[j] == t[0];
        if i > 0 && j > 0 {
            assert(text_less(t[0], t[i]));
            assert(text_less(s[0], s[j]));
            lemma_text_less_asymmetric(t[0], s[0]);
        }
        assert(s[0] == t[0]) by {
            if i > 0 && j == 0 {
                assert(text_less(t[0], t[i]));
                lemma_text_less_irreflexive(t[0]);
            }
            if j > 0 && i == 0 {
                assert(text_less(s[0], s[j]));
                lemma_text_less_irreflexive(s[0]);
            }
        }
        let s1 = s.drop_first();
        let t1 = t.drop_first();
        assert(sorted_texts(s1)) by {
            assert forall|a: int, b: int| 0 <= a < b < s1.len() implies text_less(#[trigger] s1[a], #[trigger] s1[b]) by {
                assert(s1[a] == s[a + 1] && s1[b] == s[b + 1]);
            }
        }
        assert(sorted_texts(t1)) by {
            assert forall|a: int, b: int| 0 <= a < b < t1.len() implies text_less(#[trigger] t1[a], #[trigger] t1[b]) by {
                assert(t1[a] == t[a + 1] && t1[b] == t[b + 1]);
            }
        }
        assert(s1.to_set() =~= t1.to_set()) by {
            assert forall|x: Seq<char>| s1.contains(x) implies t1.contains(x) by {
                let k = choose|k: int| 0 <= k < s1.len() && s1[k] == x;
                assert(s[k + 1] == x);
                assert(text_less(s[0], x));
                assert(s.contains(x));
                assert(s.to_set().contains(x));
                assert(t.to_set().contains(x));
                assert(t.contains(x));
                let m = choose|m: int| 0 <= m < t.len() && t[m] == x;
                if m == 0 {
                    lemma_text_less_irreflexive(x);
                }
                assert(t1[m - 1] == x);
            }
            assert forall|x: Seq<char>| t1.contains(x) implies s1.contains(x) by {
                let k = choose|k: int| 0 <= k < t1.len() && t1[k] == x;
                assert(t[k + 1] == x);
                assert(text_less(t[0], x));
                assert(t.contains(x));
                assert(t.to_set().contains(x));
                assert(s.to_set().contains(x));
                assert(s.contains(x));
                let m = choose|m: int| 0 <= m < s.len() && s[m] == x;
                if m == 0 {
                    lemma_text_less_irreflexive(x);
                }
                assert(s1[m - 1] == x);
            }
        }
        lemma_sorted_unique(s1, t1);
        assert(s =~= seq![s[0]] + s1);
        assert(t =~= seq![t[0]] + t1);
    }
}

/// The elements of a finite set of texts in increasing order.
pub open spec fn sorted_elements(set: Set<Seq<char>>) -> Seq<Seq<char>> {
    choose|s: Seq<Seq<char>>| sorted_texts(s) && s.to_set() == set
}

/// A sorted sequence is the sorted elements of its set.
pub proof fn lemma_sorted_elements(s: Seq<Seq<char>>)
    requires
        sorted_texts(s),
    ensures
        sorted_elements(s.to_set()) == s,
{
    let c = sorted_elements(s.to_set());
    assert(sorted_texts(c) && c.to_set() == s.to_set());
    lemma_sorted_unique(c, s);
}

/// Whether a message has the given role.
pub open spec fn has_role(message: JsonV, role: Seq<char>) -> bool {
    opt_str(spec_get(message, "role"@)) == Some(role)
}

/// The calls of message `i` that the next message does not answer (it
/// answers none unless it is a user message).
pub open spec fn unanswered_ids(msgs: Seq<JsonV>, i: int) -> Set<Seq<char>> {
    let answered = if i + 1 < msgs.len() && has_role(msgs[i + 1], "user"@) {
        tool_result_ids(msgs[i + 1])
    } else {
        Set::empty()
    };
    tool_use_ids(msgs[i]).difference(answered)
}

/// The text of the result that closes an interrupted call.
pub const INTERRUPTED_RESULT: &'static str = "Tool execution was interrupted because a prior agent run ended before returning results. Continue from the existing thread context.";

/// The error result that closes the call `id`.
pub open spec fn interrupted_result(id: Seq<char>) -> JsonV {
    JsonV::Object(
        seq![
            ("type"@, JsonV::String("tool_result"@)),
            ("tool_use_id"@, JsonV::String(id)),
            ("content"@, JsonV::String(INTERRUPTED_RESULT@)),
            ("is_error"@, JsonV::Bool(true)),
        ],
    )
}

/// The user message that closes the calls `ids`, in order.
pub open spec fn closing_message(ids: Seq<Seq<char>>) -> JsonV {
    JsonV::Object(
        seq![
            ("role"@, JsonV::String("user"@)),
            ("content"@, JsonV::Array(ids.map_values(|id: Seq<char>| interrupted_result(id)))),
        ],
    )
}

/// The first `n` messages with interrupted calls closed: after each
/// assistant message whose calls the next message leaves unanswered, a user
/// message answers each of them (in id order) with an error result.
pub open spec fn repaired_prefix(msgs: Seq<JsonV>, n: int) -> Seq<JsonV>
    decreases n,
{
    if n <= 0 {
        seq![]
    } else {
        let kept = repaired_prefix(msgs, n - 1).push(msgs[n - 1]);
        let ids = sorted_elements(unanswered_ids(msgs, n - 1));
        if has_role(msgs[n - 1], "assistant"@) && ids.len() > 0 {
            kept.push(closing_message(ids))
        } else {
            kept
        }
    }
}

/// The history with every interrupted tool call closed.
pub open spec fn repaired_history(msgs: Seq<JsonV>) -> Seq<JsonV> {
    repaired_prefix(msgs, msgs.len() as int)
}

/// The ids of `pending` that `answered` does not hold, in order.
fn without(pending: &Vec<String>, answered: &Vec<String>) -> (res: Vec<String>)
    requires
        sorted_texts(strings_view(pending@)),
    ensures
        sorted_texts(strings_view(res@)),
        strings_view(res@).to_set() == strings_view(pending@).to_set().difference(
            strings_view(answered@).to_set(),
        ),
{
    let ghost pv = strings_view(pending@);
    let ghost av = strings_view(answered@).to_set();
    let mut out: Vec<String> = Vec::new();
    let mut i: usize = 0;
    while i < pending.len()
        invariant
            i <= pending@.len(),
            pv == strings_view(pending@),
            av == strings_view(answered@).to_set(),
            sorted_texts(pv),
            sorted_texts(strings_view(out@)),
            strings_view(out@).to_set() == pv.take(i as int).to_set().difference(av),
            forall|k: int| 0 <= k < out@.len() ==> exists|j: int| 0 <= j < i && #[trigger] strings_view(out@)[k] == pv[j],
        decreases pending@.len() - i,
    {
        let ghost before = strings_view(out@);
        assert(pv.take(i + 1) =~= pv.take(i as int).push(pv[i as int]));
        proof {
            pv.take(i as int).lemma_push_to_set_commute(pv[i as int]);
        }
        if !crate::tools::contains_string(answered, pending[i].as_str()) {
            out.push(pending[i].clone());
            let ghost after = strings_view(out@);
            assert(after =~= before.push(pv[i as int]));
            proof {
                before.lemma_push_to_set_commute(pv[i as int]);
            }
            assert forall|a: int, b: int| 0 <= a < b < after.len() implies text_less(#[trigger] after[a], #[trigger] after[b]) by {
                if b == after.len() - 1 {
                    let j = choose|j: int| 0 <= j < i && before[a] == pv[j];
                    assert(text_less(pv[j], pv[i as int]));
                } else {
                    assert(after[a] == before[a] && after[b] == before[b]);
                }
            }
            assert forall|k: int| 0 <= k < out@.len() implies exists|j: int| 0 <= j < i + 1 && #[trigger] strings_view(out@)[k] == pv[j] by {
                if k == out@.len() - 1 {
                    assert(strings_view(out@)[k] == pv[i as int]);
                } else {
                    assert(strings_view(out@)[k] == before[k]);
                }
            }
            assert(after.to_set() =~= pv.take(i + 1).to_set().difference(av));
        } else {
            assert(strings_view(out@).to_set() =~= pv.take(i + 1).to_set().difference(av));
        }
        i += 1;
    }
    assert(pv.take(i as int) =~= pv);
    out
}

/// The user message that closes the calls `ids`.
fn make_closing_message(ids: &Vec<String>) -> (res: Json)
    ensures
        res@ == closing_message(strings_view(ids@)),
{
    let mut results: Vec<Json> = Vec::new();
    proof {
        crate::json::lemma_items_view_empty(results@);
    }
    let ghost iv = strings_view(ids@);
    let mut i: usize = 0;
    while i < ids.len()
        invariant
            i <= ids@.len(),
            iv == strings_view(ids@),
            items_view(results@) == iv.take(i as int).map_values(|id: Seq<char>| interrupted_result(id)),
        decreases ids@.len() - i,
    {
        let mut m: Vec<(String, Json)> = Vec::new();
        proof {
            crate::json::lemma_members_view_empty(m@);
        }
        crate::json::push_member(&mut m, "type", Json::String("tool_result".to_string()));
        crate::json::push_member(&mut m, "tool_use_id", Json::String(ids[i].clone()));
        crate::json::push_member(&mut m, "content", Json::String(INTERRUPTED_RESULT.to_string()));
        crate::json::push_member(&mut m, "is_error", Json::Bool(true));
        assert(crate::json::members_view(m@) =~= seq![
            ("type"@, JsonV::String("tool_result"@)),
            ("tool_use_id"@, JsonV::String(iv[i as int])),
            ("content"@, JsonV::String(INTERRUPTED_RESULT@)),
            ("is_error"@, JsonV::Bool(true)),
        ]);
        crate::json::push_item(&mut results, Json::Object(m));
        assert(iv.take(i + 1).map_values(|id: Seq<char>| interrupted_result(id)) =~= iv.take(
            i as int,
        ).map_values(|id: Seq<char>| interrupted_result(id)).push(interrupted_result(iv[i as int])));
        i += 1;
    }
    assert(iv.take(i as int) =~= iv);
    let mut m: Vec<(String, Json)> = Vec::new();
    proof {
        crate::json::lemma_members_view_empty(m@);
    }
    let ghost rv = items_view(results@);
    crate::json::push_member(&mut m, "role", Json::String("user".to_string()));
    crate::json::push_member(&mut m, "content", Json::Array(results));
    assert(crate::json::members_view(m@) =~= seq![
        ("role"@, JsonV::String("user"@)),
        ("content"@, JsonV::Array(rv)),
    ]);
    Json::Object(m)
}

/// Whether a message has the given role.
fn role_is(message: &Json, role: &str) -> (res: bool)
    ensures
        res == has_role(message@, role@),
{
    match message.get_str("role") {
        Some(r) => str_eq(r, role),
        None => false,
    }
}

/// Closes every interrupted tool call of a history: after an assistant
/// message whose calls the next message does not answer, a user message
/// with an error result for each of them.
pub fn repair_interrupted_tool_use_messages(messages: &Vec<Json>) -> (res: Vec<Json>)
    ensures
        items_view(res@) == repaired_history(items_view(messages@)),
{
    let ghost mv = items_view(messages@);
    proof {
        crate::json::lemma_items_view(messages@);
    }
    let mut repaired: Vec<Json> = Vec::new();
    proof {
        crate::json::lemma_items_view_empty(repaired@);
    }
    let mut idx: usize = 0;
    while idx < messages.len()
        invariant
            idx <= messages@.len(),
            mv == items_view(messages@),
            mv.len() == messages@.len(),
            forall|j: int| 0 <= j < messages@.len() ==> #[trigger] mv[j] == messages@[j]@,
            items_view(repaired@) == repaired_prefix(mv, idx as int),
        decreases messages@.len() - idx,
    {
        let message = &messages[idx];
        crate::json::push_item(&mut repaired, message.duplicate());
        let ghost kept = items_view(repaired@);
        if role_is(message, "assistant") {
            let pending = extract_tool_use_ids(message);
            let answered = if idx + 1 < messages.len() && role_is(&messages[idx + 1], "user") {
                extract_tool_result_ids(&messages[idx + 1])
            } else {
                Vec::new()
            };
            proof {
                if !(idx + 1 < messages@.len() && has_role(mv[idx + 1], "user"@)) {
                    assert(strings_view(answered@).to_set() =~= Set::<Seq<char>>::empty());
                }
            }
            let missing = without(&pending, &answered);
            proof {
                lemma_sorted_elements(strings_view(missing@));
                assert(strings_view(missing@).to_set() == unanswered_ids(mv, idx as int));
            }
            if missing.len() > 0 {
                crate::json::push_item(&mut repaired, make_closing_message(&missing));
            }
        }
        idx += 1;
    }
    repaired
}

/// An object with every member named `key` set to `v`; any other value as
/// it is.
pub open spec fn set_member(obj: JsonV, key: Seq<char>, v: JsonV) -> JsonV {
    match obj {
        JsonV::Object(ms) => JsonV::Object(
            ms.map_values(|m: (Seq<char>, JsonV)| if m.0 == key { (m.0, v) } else { m }),
        ),
        _ => obj,
    }
}

/// The marker that replaces a pruned text of `n` bytes.
pub open spec fn pruned_text_marker(n: nat) -> Seq<char> {
    "[text pruned — "@ + crate::text::decimal(n) + " chars]"@
}

/// The marker that replaces a pruned tool result of `n` bytes.
pub open spec fn pruned_result_marker(n: nat) -> Seq<char> {
    "[tool result pruned — "@ + crate::text::decimal(n) + " chars]"@
}

/// A result part with a text over 200 bytes replaced by a marker.
pub open spec fn pruned_part(part: JsonV) -> JsonV {
    match opt_str(spec_get(part, "text"@)) {
        Some(t) if crate::compaction::utf8_len(t) > 200 => set_member(
            part,
            "text"@,
            JsonV::String(pruned_text_marker(crate::compaction::utf8_len(t) as nat)),
        ),
        _ => part,
    }
}

/// Whether a result part is an image.
pub open spec fn is_image(part: JsonV) -> bool {
    opt_str(spec_get(part, "type"@)) == Some("image"@)
}

/// The result parts that are kept: all but images, each pruned.
pub open spec fn pruned_parts(parts: Seq<JsonV>) -> Seq<JsonV>
    decreases parts.len(),
{
    if parts.len() == 0 {
        seq![]
    } else {
        let prior = pruned_parts(parts.drop_last());
        if is_image(parts.last()) {
            prior
        } else {
            prior.push(pruned_part(parts.last()))
        }
    }
}

/// A tool result's content, pruned: a list of parts loses its images and
/// has long texts replaced; any other content over 200 bytes (as a string,
/// or as its JSON text) is replaced by a marker.
pub open spec fn pruned_result_content(c: JsonV) -> JsonV {
    match c {
        JsonV::Array(parts) => JsonV::Array(pruned_parts(parts)),
        _ => {
            let text = match c {
                JsonV::String(t) => t,
                _ => crate::json_text::serialized_json(c),
            };
            if crate::compaction::utf8_len(text) > 200 {
                JsonV::String(pruned_result_marker(crate::compaction::utf8_len(text) as nat))
            } else {
                c
            }
        },
    }
}

/// A content block with a tool result's content pruned.
pub open spec fn pruned_block(b: JsonV) -> JsonV {
    if opt_str(spec_get(b, "type"@)) == Some("tool_result"@) {
        match spec_get(b, "content"@) {
            Some(c) => set_member(b, "content"@, pruned_result_content(c)),
            None => b,
        }
    } else {
        b
    }
}

/// A message whose content list has its tool results pruned.
pub open spec fn pruned_message(m: JsonV) -> JsonV {
    match spec_get(m, "content"@) {
        Some(JsonV::Array(blocks)) => set_member(
            m,
            "content"@,
            JsonV::Array(blocks.map_values(|b: JsonV| pruned_block(b))),
        ),
        _ => m,
    }
}

/// The number of assistant messages.
pub open spec fn assistant_count(msgs: Seq<JsonV>) -> nat
    decreases msgs.len(),
{
    if msgs.len() == 0 {
        0
    } else {
        assistant_count(msgs.drop_last()) + if has_role(msgs.last(), "assistant"@) {
            1nat
        } else {
            0nat
        }
    }
}

/// The history with old tool results pruned: when there are more assistant
/// turns than `keep`, each user message that comes before the last `keep`
/// assistant turns (fewer than `total - keep` assistant messages precede it)
/// has its tool results pruned.
pub open spec fn pruned_history(msgs: Seq<JsonV>, keep: nat) -> Seq<JsonV> {
    let total = assistant_count(msgs);
    if total <= keep {
        msgs
    } else {
        Seq::new(
            msgs.len(),
            |i: int|
                if has_role(msgs[i], "user"@) && assistant_count(msgs.take(i)) < total - keep {
                    pruned_message(msgs[i])
                } else {
                    msgs[i]
                },
        )
    }
}

/// A copy of an object with every member named `key` set to `v`.
pub fn with_member(obj: &Json, key: &str, v: &Json) -> (res: Json)
    ensures
        res@ == set_member(obj@, key@, v@),
{
    match obj {
        Json::Object(ms) => {
            let ghost mv = crate::json::members_view(ms@);
            proof {
                crate::json::lemma_members_view(ms@);
            }
            let mut out: Vec<(String, Json)> = Vec::new();
            proof {
                crate::json::lemma_members_view_empty(out@);
            }
            let ghost f = |m: (Seq<char>, JsonV)| if m.0 == key@ { (m.0, v@) } else { m };
            let mut i: usize = 0;
            while i < ms.len()
                invariant
                    i <= ms@.len(),
                    mv == crate::json::members_view(ms@),
                    mv.len() == ms@.len(),
                    forall|j: int| 0 <= j < ms@.len() ==> #[trigger] mv[j] == (ms@[j].0@, ms@[j].1@),
                    f == (|m: (Seq<char>, JsonV)| if m.0 == key@ { (m.0, v@) } else { m }),
                    crate::json::members_view(out@) == mv.take(i as int).map_values(f),
                decreases ms@.len() - i,
            {
                let value = if str_eq(ms[i].0.as_str(), key) {
                    v.duplicate()
                } else {
                    ms[i].1.duplicate()
                };
                crate::json::push_member(&mut out, ms[i].0.as_str(), value);
                assert(mv.take(i + 1).map_values(f) =~= mv.take(i as int).map_values(f).push(f(mv[i as int])));
                i += 1;
            }
            assert(mv.take(i as int) =~= mv);
            Json::Object(out)
        },
        _ => obj.duplicate(),
    }
}

/// The byte length of `s`, written in decimal.
fn byte_count_text(n: usize) -> (res: String)
    ensures
        res@ == crate::text::decimal(n as nat),
{
    crate::text::string_from_chars(&crate::text::decimal_chars(n as u64))
}

/// A result part with a long text replaced by a marker.
fn prune_part(part: &Json) -> (res: Json)
    ensures
        res@ == pruned_part(part@),
{
    if let Some(t) = part.get_str("text") {
        let n = t.len();
        if n > 200 {
            let mut marker = String::from_str("[text pruned — ");
            marker.append(byte_count_text(n).as_str());
            marker.append(" chars]");
            return with_member(part, "text", &Json::String(marker));
        }
    }
    part.duplicate()
}

/// A tool result's content, pruned.
fn prune_result_content(c: &Json) -> (res: Json)
    ensures
        res@ == pruned_result_content(c@),
{
    match c {
        Json::Array(parts) => {
            let ghost pv = items_view(parts@);
            proof {
                crate::json::lemma_items_view(parts@);
                assert(pv.take(0) =~= Seq::<JsonV>::empty());
            }
            let mut out: Vec<Json> = Vec::new();
            proof {
                crate::json::lemma_items_view_empty(out@);
            }
            let mut i: usize = 0;
            while i < parts.len()
                invariant
                    i <= parts@.len(),
                    pv == items_view(parts@),
                    pv.len() == parts@.len(),
                    forall|j: int| 0 <= j < parts@.len() ==> #[trigger] pv[j] == parts@[j]@,
                    items_view(out@) == pruned_parts(pv.take(i as int)),
                decreases parts@.len() - i,
            {
                assert(pv.take(i + 1).drop_last() =~= pv.take(i as int));
                let image = match parts[i].get_str("type") {
                    Some(t) => str_eq(t, "image"),
                    None => false,
                };
                if !image {
                    crate::json::push_item(&mut out, prune_part(&parts[i]));
                }
                i += 1;
            }
            assert(pv.take(i as int) =~= pv);
            Json::Array(out)
        },
        _ => {
            let text = match c {
                Json::String(t) => t.clone(),
                _ => crate::json_text::to_json_text(c),
            };
            let n = text.as_str().len();
            if n > 200 {
                let mut marker = String::from_str("[tool result pruned — ");
                marker.append(byte_count_text(n).as_str());
                marker.append(" chars]");
                Json::String(marker)
            } else {
                c.duplicate()
            }
        },
    }
}

/// A content block with a tool result's content pruned.
fn prune_block(b: &Json) -> (res: Json)
    ensures
        res@ == pruned_block(b@),
{
    let is_result = match b.get_str("type") {
        Some(t) => str_eq(t, "tool_result"),
        None => false,
    };
    if is_result {
        if let Some(c) = b.get("content") {
            let pruned = prune_result_content(c);
            return with_member(b, "content", &pruned);
        }
    }
    b.duplicate()
}

/// A message whose content list has its tool results pruned.
fn prune_message(m: &Json) -> (res: Json)
    ensures
        res@ == pruned_message(m@),
{
    match m.get("content") {
        Some(Json::Array(blocks)) => {
            let ghost bv = items_view(blocks@);
            proof {
                crate::json::lemma_items_view(blocks@);
            }
            let mut out: Vec<Json> = Vec::new();
            proof {
                crate::json::lemma_items_view_empty(out@);
            }
            let mut i: usize = 0;
            while i < blocks.len()
                invariant
                    i <= blocks@.len(),
                    bv == items_view(blocks@),
                    bv.len() == blocks@.len(),
                    forall|j: int| 0 <= j < blocks@.len() ==> #[trigger] bv[j] == blocks@[j]@,
                    items_view(out@) == bv.take(i as int).map_values(|b: JsonV| pruned_block(b)),
                decreases blocks@.len() - i,
            {
                crate::json::push_item(&mut out, prune_block(&blocks[i]));
                assert(bv.take(i + 1).map_values(|b: JsonV| pruned_block(b)) =~= bv.take(
                    i as int,
                ).map_values(|b: JsonV| pruned_block(b)).push(pruned_block(bv[i as int])));
                i += 1;
            }
            assert(bv.take(i as int) =~= bv);
            with_member(m, "content", &Json::Array(out))
        },
        _ => m.duplicate(),
    }
}

/// Prunes the tool results of all but the last `keep_recent_turns`
/// assistant turns.
pub fn prune_old_tool_results(messages: &mut Vec<Json>, keep_recent_turns: usize)
    ensures
        items_view(final(messages)@) == pruned_history(items_view(old(messages)@), keep_recent_turns as nat),
{
    let ghost mv = items_view(messages@);
    proof {
        crate::json::lemma_items_view(messages@);
        assert(mv.take(0) =~= Seq::<JsonV>::empty());
    }
    let mut total: usize = 0;
    let mut i: usize = 0;
    while i < messages.len()
        invariant
            i <= messages@.len(),
            mv == items_view(messages@),
            mv.len() == messages@.len(),
            forall|j: int| 0 <= j < messages@.len() ==> #[trigger] mv[j] == messages@[j]@,
            total == assistant_count(mv.take(i as int)),
            total <= i,
        decreases messages@.len() - i,
    {
        assert(mv.take(i + 1).drop_last() =~= mv.take(i as int));
        if role_is(&messages[i], "assistant") {
            total += 1;
        }
        i += 1;
    }
    assert(mv.take(i as int) =~= mv);
    if total <= keep_recent_turns {
        return;
    }
    let cutoff = total - keep_recent_turns;
    let mut out: Vec<Json> = Vec::new();
    proof {
        crate::json::lemma_items_view_empty(out@);
    }
    let ghost target = pruned_history(mv, keep_recent_turns as nat);
    let mut seen: usize = 0;
    let mut k: usize = 0;
    while k < messages.len()
        invariant
            k <= messages@.len(),
            mv == items_view(messages@),
            mv.len() == messages@.len(),
            forall|j: int| 0 <= j < messages@.len() ==> #[trigger] mv[j] == messages@[j]@,
            total == assistant_count(mv),
            total > keep_recent_turns,
            cutoff == total - keep_recent_turns,
            target == pruned_history(mv, keep_recent_turns as nat),
            seen == assistant_count(mv.take(k as int)),
            seen <= k,
            items_view(out@) == target.take(k as int),
        decreases messages@.len() - k,
    {
        assert(mv.take(k + 1).drop_last() =~= mv.take(k as int));
        let m = &messages[k];
        proof {
            reveal_strlit("user");
            reveal_strlit("assistant");
            assert("user"@.len() == 4);
            assert("assistant"@.len() == 9);
            assert("user"@ != "assistant"@);
            assert(target.len() == mv.len());
        }
        let is_assistant = role_is(m, "assistant");
        let next = if !is_assistant && role_is(m, "user") && seen < cutoff {
            prune_message(m)
        } else {
            m.duplicate()
        };
        assert(target[k as int] == next@);
        crate::json::push_item(&mut out, next);
        assert(target.take(k + 1) =~= target.take(k as int).push(target[k as int]));
        if is_assistant {
            seen += 1;
        }
        k += 1;
    }
    assert(target.take(k as int) =~= target);
    *messages = out;
}

/// A value as text: a string as it is, anything else as its JSON text.
pub open spec fn spec_stringify(v: JsonV) -> Seq<char> {
    match v {
        JsonV::String(s) => s,
        _ => crate::json_text::serialized_json(v),
    }
}

/// A value as text.
pub fn stringify_content(value: &Json) -> (res: String)
    ensures
        res@ == spec_stringify(value@),
{
    match value {
        Json::String(s) => s.clone(),
        _ => crate::json_text::to_json_text(value),
    }
}

/// The bytes of a message's content as text; 0 without content.
pub open spec fn content_bytes(m: JsonV) -> int {
    match spec_get(m, "content"@) {
        Some(c) => crate::compaction::utf8_len(spec_stringify(c)) as int,
        None => 0,
    }
}

/// The bytes of the messages' contents, summed.
pub open spec fn history_bytes(msgs: Seq<JsonV>) -> int
    decreases msgs.len(),
{
    if msgs.len() == 0 {
        0
    } else {
        history_bytes(msgs.drop_last()) + content_bytes(msgs.last())
    }
}

/// The byte sums of prefixes grow.
pub proof fn lemma_history_bytes_prefix(msgs: Seq<JsonV>, i: int)
    requires
        0 <= i <= msgs.len(),
    ensures
        0 <= history_bytes(msgs.take(i)) <= history_bytes(msgs),
    decreases msgs.len() - i,
{
    if i < msgs.len() {
        lemma_history_bytes_prefix(msgs, i + 1);
        assert(msgs.take(i + 1).drop_last() =~= msgs.take(i));
    } else {
        assert(msgs.take(i) =~= msgs);
    }
    if i > 0 {
        lemma_history_bytes_nonneg(msgs.take(i));
    }
}

/// Byte sums are not negative.
pub proof fn lemma_history_bytes_nonneg(msgs: Seq<JsonV>)
    ensures
        history_bytes(msgs) >= 0,
    decreases msgs.len(),
{
    if msgs.len() > 0 {
        lemma_history_bytes_nonneg(msgs.drop_last());
    }
}

/// The size estimate of a history: its contents' bytes, summed.
pub fn estimate_message_tokens(messages: &Vec<Json>) -> (res: i64)
    requires
        history_bytes(items_view(messages@)) <= i64::MAX,
    ensures
        res == history_bytes(items_view(messages@)),
{
    let ghost mv = items_view(messages@);
    proof {
        crate::json::lemma_items_view(messages@);
        assert(mv.take(0) =~= Seq::<JsonV>::empty());
    }
    let mut total: i64 = 0;
    let mut i: usize = 0;
    while i < messages.len()
        invariant
            i <= messages@.len(),
            mv == items_view(messages@),
            mv.len() == messages@.len(),
            forall|j: int| 0 <= j < messages@.len() ==> #[trigger] mv[j] == messages@[j]@,
            history_bytes(mv) <= i64::MAX,
            total == history_bytes(mv.take(i as int)),
        decreases messages@.len() - i,
    {
        assert(mv.take(i + 1).drop_last() =~= mv.take(i as int));
        proof {
            lemma_history_bytes_prefix(mv, i + 1);
            lemma_history_bytes_nonneg(mv.take(i as int));
        }
        let n: usize = match messages[i].get("content") {
            Some(c) => stringify_content(c).as_str().len(),
            None => 0,
        };
        total = total + n as i64;
        i += 1;
    }
    assert(mv.take(i as int) =~= mv);
    total
}

/// A provider name in its canonical form: trimmed, ASCII-lowercased, with
/// `open_router` read as `openrouter` and `codex` or `openai-codex` as
/// `openai_codex`.
pub open spec fn spec_normalize_provider(provider: Seq<char>) -> Seq<char> {
    let norm = crate::text::ascii_lower_seq(crate::text::trim(provider));
    if norm == "open_router"@ {
        "openrouter"@
    } else if norm == "codex"@ || norm == "openai-codex"@ {
        "openai_codex"@
    } else {
        norm
    }
}

/// The canonical name of a provider.
pub fn normalize_provider(provider: &str) -> (res: String)
    ensures
        res@ == spec_normalize_provider(provider@),
{
    let norm = crate::text::string_from_chars(
        &crate::text::ascii_lowercase(&crate::text::trim_chars(&chars_of(provider))),
    );
    if str_eq(norm.as_str(), "open_router") {
        "openrouter".to_string()
    } else if str_eq(norm.as_str(), "codex") || str_eq(norm.as_str(), "openai-codex") {
        "openai_codex".to_string()
    } else {
        norm
    }
}

/// Whether a setting reads as on: `true`, or a string that is `1`,
/// `true`, `yes` or `on` once trimmed and lowercased.
pub open spec fn switched_on(v: Option<JsonV>) -> bool {
    match v {
        Some(JsonV::Bool(b)) => b,
        Some(JsonV::String(s)) => {
            let t = crate::text::ascii_lower_seq(crate::text::trim(s));
            t == "1"@ || t == "true"@ || t == "yes"@ || t == "on"@
        },
        _ => false,
    }
}

/// Whether the session asks for context-progress events: its
/// `context_progress_enabled` field, or else `ContextProgressEnabled`.
pub open spec fn spec_progress_enabled(entity_state: JsonV) -> bool {
    match spec_get(entity_state, "fields"@) {
        Some(JsonV::Object(ms)) => {
            let fields = JsonV::Object(ms);
            switched_on(
                match spec_get(fields, "context_progress_enabled"@) {
                    Some(v) => Some(v),
                    None => spec_get(fields, "ContextProgressEnabled"@),
                },
            )
        },
        _ => false,
    }
}

/// Whether a setting reads as on.
fn setting_on(v: Option<&Json>) -> (res: bool)
    ensures
        res == switched_on(crate::json::opt_json(v)),
{
    match v {
        Some(Json::Bool(b)) => *b,
        Some(Json::String(s)) => {
            let t = crate::text::string_from_chars(
                &crate::text::ascii_lowercase(&crate::text::trim_chars(&chars_of(s.as_str()))),
            );
            let t = t.as_str();
            str_eq(t, "1") || str_eq(t, "true") || str_eq(t, "yes") || str_eq(t, "on")
        },
        _ => false,
    }
}

/// Whether context-progress events are sent for this session.
pub fn context_progress_dispatch_enabled(entity_state: &Json) -> (res: bool)
    ensures
        res == spec_progress_enabled(entity_state@),
{
    match entity_state.get("fields") {
        Some(fields) => match fields {
            Json::Object(_) => {
                let v = match fields.get("context_progress_enabled") {
                    Some(v) => Some(v),
                    None => fields.get("ContextProgressEnabled"),
                };
                setting_on(v)
            },
            _ => false,
        },
        None => false,
    }
}

} // verus!
