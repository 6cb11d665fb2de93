//! Token-level RL signals on a turn: which the serving stack recorded, which
//! fit the document's byte budget, and the inventory that records them.

use vstd::prelude::*;
use vstd::string::StringExecFns;
use crate::json::{
    Json, JsonNumber, JsonV, items_view, lemma_items_view, lemma_items_view_empty,
    lemma_members_view, lemma_members_view_empty, members_view, push_item, push_member,
    spec_as_array, spec_get, members_get,
};
use crate::ots::{
    COMPLETION_TOKEN_SIGNALS, SignalShape, TOKEN_SIGNAL_FIELDS, TokenSignalBudget, serialized_size,
};
use crate::session::{get_u64, opt_u64};
use crate::text::{str_eq, str_starts_with, has_prefix};
use crate::trajectory::{
    all_numbers, all_uints_up_to, is_f64_array, is_u32_array, is_u8_array, jstr, juint,
};

verus! {

/// The element count of an array value, zero for anything else.
pub open spec fn array_len(v: JsonV) -> nat {
    match spec_as_array(v) {
        Some(items) => items.len(),
        None => 0,
    }
}

/// `value.as_array().map(Vec::len).unwrap_or(0)`.
fn array_length(value: &Json) -> (res: usize)
    ensures
        res == array_len(value@),
{
    match value.as_array() {
        Some(items) => {
            proof {
                lemma_items_view(items@);
            }
            items.len()
        },
        None => 0,
    }
}

/// The value has the element shape a signal requires.
pub open spec fn shape_ok(shape: SignalShape, v: JsonV) -> bool {
    match spec_as_array(v) {
        Some(items) => match shape {
            SignalShape::U32 => all_uints_up_to(items, u32::MAX as u64),
            SignalShape::U8 => all_uints_up_to(items, u8::MAX as u64),
            SignalShape::F64 => all_numbers(items),
        },
        None => false,
    }
}

/// Check a value against a signal's element shape.
fn has_shape(shape: SignalShape, value: &Json) -> (res: bool)
    ensures
        res == shape_ok(shape, value@),
{
    match shape {
        SignalShape::U32 => is_u32_array(value),
        SignalShape::U8 => is_u8_array(value),
        SignalShape::F64 => is_f64_array(value),
    }
}

/// The members with `key` set to `value`: the first member of that name
/// replaced, or a new member at the end.
pub open spec fn members_set(m: Seq<(Seq<char>, JsonV)>, key: Seq<char>, value: JsonV) -> Seq<(Seq<char>, JsonV)>
    decreases m.len(),
{
    if m.len() == 0 {
        seq![(key, value)]
    } else if m[0].0 == key {
        m.update(0, (key, value))
    } else {
        seq![m[0]] + members_set(m.drop_first(), key, value)
    }
}

/// Set `key` to `value` among object members (`Map::insert`).
pub fn set_member(members: &mut Vec<(String, Json)>, key: &str, value: Json)
    ensures
        members_view(final(members)@) == members_set(members_view(old(members)@), key@, value@),
{
    let ghost mv = members_view(members@);
    proof {
        lemma_members_view(members@);
    }
    let mut i: usize = 0;
    while i < members.len()
        invariant
            i <= members@.len(),
            mv == members_view(members@),
            mv == members_view(old(members)@),
            mv.len() == members@.len(),
            forall|k: int| 0 <= k < members@.len() ==> #[trigger] mv[k] == (members@[k].0@, members@[k].1@),
            forall|k: int| 0 <= k < i ==> (#[trigger] mv[k]).0 != key@,
        decreases members@.len() - i,
    {
        if str_eq(members[i].0.as_str(), key) {
            let ghost before = members@;
            let ghost v = value@;
            members.set(i, (key.to_string(), value));
            proof {
                lemma_members_set_at(mv, key@, v, i as int);
                lemma_members_view(members@);
                assert(members_view(members@) =~= mv.update(i as int, (key@, v)));
            }
            return;
        }
        i += 1;
    }
    proof {
        lemma_members_set_absent(mv, key@, value@);
    }
    push_member(members, key, value);
}

/// Setting a key first held at `i` replaces that member.
proof fn lemma_members_set_at(m: Seq<(Seq<char>, JsonV)>, key: Seq<char>, value: JsonV, i: int)
    requires
        0 <= i < m.len(),
        m[i].0 == key,
        forall|k: int| 0 <= k < i ==> (#[trigger] m[k]).0 != key,
    ensures
        members_set(m, key, value) == m.update(i, (key, value)),
    decreases i,
{
    if i > 0 {
        lemma_members_set_at(m.drop_first(), key, value, i - 1);
        assert(members_set(m, key, value) =~= m.update(i, (key, value)));
    }
}

/// Setting an absent key appends it.
proof fn lemma_members_set_absent(m: Seq<(Seq<char>, JsonV)>, key: Seq<char>, value: JsonV)
    requires
        forall|k: int| 0 <= k < m.len() ==> (#[trigger] m[k]).0 != key,
    ensures
        members_set(m, key, value) == m.push((key, value)),
    decreases m.len(),
{
    if m.len() > 0 {
        assert(m[0].0 != key);
        assert forall|k: int| 0 <= k < m.drop_first().len() implies (#[trigger] m.drop_first()[k]).0 != key by {
            assert(m.drop_first()[k] == m[k + 1]);
        }
        lemma_members_set_absent(m.drop_first(), key, value);
        assert(members_set(m, key, value) =~= m.push((key, value)));
    }
}

/// The drops the entry writer recorded at capture, by signal name, in the
/// order of `fields`.
pub open spec fn capture_drops(source: JsonV, fields: Seq<&str>) -> Seq<(Seq<char>, JsonV)>
    decreases fields.len(),
{
    if fields.len() == 0 {
        seq![]
    } else {
        let d = capture_drops(source, fields.drop_last());
        let f = fields.last()@;
        match opt_u64(spec_get(source, f + "_dropped_bytes"@)) {
            Some(size) => members_set(d, f, juint(size)),
            None => d,
        }
    }
}

/// The completion signals among `signals` that `source` holds in their
/// required shape, in order.
pub open spec fn present_signals(source: JsonV, signals: Seq<(&str, SignalShape)>) -> Seq<(Seq<char>, JsonV)>
    decreases signals.len(),
{
    if signals.len() == 0 {
        seq![]
    } else {
        let rest = present_signals(source, signals.drop_last());
        let (f, shape) = signals.last();
        match spec_get(source, f@) {
            Some(v) => if shape_ok(shape, v) {
                rest.push((f@, v))
            } else {
                rest
            },
            None => rest,
        }
    }
}

/// Every present signal has the same element count.
pub open spec fn aligned(present: Seq<(Seq<char>, JsonV)>) -> bool {
    forall|i: int, j: int|
        0 <= i < present.len() && 0 <= j < present.len() ==> array_len(#[trigger] present[i].1) == array_len(
            #[trigger] present[j].1,
        )
}

/// Each present signal by its element count.
pub open spec fn lengths_of(present: Seq<(Seq<char>, JsonV)>) -> Seq<(Seq<char>, JsonV)> {
    present.map_values(|p: (Seq<char>, JsonV)| (p.0, juint(array_len(p.1) as u64)))
}

/// The drops recorded for each of `present`, by element count, on top of `d`.
pub open spec fn drop_all(d: Seq<(Seq<char>, JsonV)>, present: Seq<(Seq<char>, JsonV)>) -> Seq<(Seq<char>, JsonV)>
    decreases present.len(),
{
    if present.len() == 0 {
        d
    } else {
        let before = drop_all(d, present.drop_last());
        let p = present.last();
        members_set(before, p.0, juint(array_len(p.1) as u64))
    }
}

/// The `_token_signals_dropped` member, when anything was dropped.
pub open spec fn dropped_member(d: Seq<(Seq<char>, JsonV)>) -> Seq<(Seq<char>, JsonV)> {
    if d.len() > 0 {
        seq![("_token_signals_dropped"@, JsonV::Object(d))]
    } else {
        seq![]
    }
}

/// What attaching the signals of `source` gives, from a byte budget with
/// `remaining` left: the members added to the turn, the inventory, and the
/// budget left after.
///
/// The prompt-side ids travel on their own when they fit. The completion
/// signals present travel together, only when they agree on length (else
/// their lengths are recorded as misaligned) and only when the whole set
/// fits (else each is recorded as dropped). Drops recorded at capture are
/// carried forward.
pub open spec fn spec_attach_token_signals(source: JsonV, remaining: int) -> (
    Seq<(Seq<char>, JsonV)>,
    Seq<(Seq<char>, JsonV)>,
    int,
) {
    let d0 = capture_drops(source, TOKEN_SIGNAL_FIELDS@);
    let prompt = spec_get(source, "prompt_token_ids"@);
    let (kept, d1, r1) = match prompt {
        Some(v) => if shape_ok(SignalShape::U32, v) {
            if serialized_size(v) <= remaining {
                (Some(v), d0, remaining - serialized_size(v))
            } else {
                (None, members_set(d0, "prompt_token_ids"@, juint(array_len(v) as u64)), remaining)
            }
        } else {
            (None, d0, remaining)
        },
        None => (None, d0, remaining),
    };
    let prompt_turn = match kept {
        Some(v) => seq![("prompt_token_ids"@, v)],
        None => seq![],
    };
    let prompt_inventory = match kept {
        Some(v) => seq![("prompt_token_ids"@, juint(array_len(v) as u64))],
        None => seq![],
    };
    let present = present_signals(source, COMPLETION_TOKEN_SIGNALS@);
    if present.len() == 0 {
        (prompt_turn + dropped_member(d1), prompt_inventory + dropped_member(d1), r1)
    } else if !aligned(present) {
        let misaligned = seq![("_token_signals_misaligned"@, JsonV::Object(lengths_of(present)))];
        (
            prompt_turn + misaligned + dropped_member(d1),
            prompt_inventory + misaligned + dropped_member(d1),
            r1,
        )
    } else {
        let set = JsonV::Array(present.map_values(|p: (Seq<char>, JsonV)| p.1));
        if serialized_size(set) <= r1 {
            (
                prompt_turn + present + dropped_member(d1),
                prompt_inventory + lengths_of(present) + dropped_member(d1),
                r1 - serialized_size(set),
            )
        } else {
            let d2 = drop_all(d1, present);
            (prompt_turn + dropped_member(d2), prompt_inventory + dropped_member(d2), r1)
        }
    }
}

/// The drops the entry writer recorded at capture.
fn capture_drop_record(source: &Json) -> (res: Vec<(String, Json)>)
    ensures
        members_view(res@) == capture_drops(source@, TOKEN_SIGNAL_FIELDS@),
{
    let mut dropped: Vec<(String, Json)> = Vec::new();
    proof {
        lemma_members_view_empty(dropped@);
        assert(TOKEN_SIGNAL_FIELDS@.take(0) =~= Seq::<&str>::empty());
    }
    let mut i: usize = 0;
    while i < 4
        invariant
            i <= 4,
            TOKEN_SIGNAL_FIELDS@.len() == 4,
            members_view(dropped@) == capture_drops(source@, TOKEN_SIGNAL_FIELDS@.take(i as int)),
        decreases 4 - i,
    {
        let field: &str = TOKEN_SIGNAL_FIELDS[i];
        proof {
            assert(TOKEN_SIGNAL_FIELDS@.take(i + 1).drop_last() =~= TOKEN_SIGNAL_FIELDS@.take(i as int));
            assert(TOKEN_SIGNAL_FIELDS@.take(i + 1).last() == field);
        }
        let mut marker = String::from_str(field);
        marker.append("_dropped_bytes");
        match get_u64(source, marker.as_str()) {
            Some(size) => set_member(&mut dropped, field, Json::Number(JsonNumber::PosInt(size))),
            None => {},
        }
        i += 1;
    }
    assert(TOKEN_SIGNAL_FIELDS@.take(4) =~= TOKEN_SIGNAL_FIELDS@);
    dropped
}

/// The completion signals `source` holds in their required shape.
fn present_completion_signals(source: &Json) -> (res: Vec<(String, Json)>)
    ensures
        members_view(res@) == present_signals(source@, COMPLETION_TOKEN_SIGNALS@),
{
    let mut present: Vec<(String, Json)> = Vec::new();
    proof {
        lemma_members_view_empty(present@);
        assert(COMPLETION_TOKEN_SIGNALS@.take(0) =~= Seq::<(&str, SignalShape)>::empty());
    }
    let mut i: usize = 0;
    while i < 3
        invariant
            i <= 3,
            COMPLETION_TOKEN_SIGNALS@.len() == 3,
            members_view(present@) == present_signals(source@, COMPLETION_TOKEN_SIGNALS@.take(i as int)),
        decreases 3 - i,
    {
        let (field, shape) = COMPLETION_TOKEN_SIGNALS[i];
        proof {
            assert(COMPLETION_TOKEN_SIGNALS@.take(i + 1).drop_last() =~= COMPLETION_TOKEN_SIGNALS@.take(i as int));
            assert(COMPLETION_TOKEN_SIGNALS@.take(i + 1).last() == (field, shape));
        }
        match source.get(field) {
            Some(v) => {
                if has_shape(shape, v) {
                    push_member(&mut present, field, v.duplicate());
                }
            },
            None => {},
        }
        i += 1;
    }
    assert(COMPLETION_TOKEN_SIGNALS@.take(3) =~= COMPLETION_TOKEN_SIGNALS@);
    present
}

/// Whether every present signal has the same element count.
fn signals_aligned(present: &Vec<(String, Json)>) -> (res: bool)
    ensures
        res == aligned(members_view(present@)),
{
    let ghost pv = members_view(present@);
    proof {
        lemma_members_view(present@);
    }
    if present.len() == 0 {
        return true;
    }
    let first = array_length(&present[0].1);
    let mut i: usize = 1;
    while i < present.len()
        invariant
            1 <= i <= present@.len(),
            pv == members_view(present@),
            pv.len() == present@.len(),
            forall|k: int| 0 <= k < present@.len() ==> #[trigger] pv[k] == (present@[k].0@, present@[k].1@),
            first == array_len(pv[0].1),
            forall|k: int| 0 <= k < i ==> array_len(#[trigger] pv[k].1) == first,
        decreases present@.len() - i,
    {
        let n = array_length(&present[i].1);
        if n != first {
            assert(array_len(pv[i as int].1) != array_len(pv[0].1));
            return false;
        }
        i += 1;
    }
    true
}

/// Each present signal by its element count.
fn signal_lengths(present: &Vec<(String, Json)>) -> (res: Vec<(String, Json)>)
    ensures
        members_view(res@) == lengths_of(members_view(present@)),
{
    let ghost pv = members_view(present@);
    proof {
        lemma_members_view(present@);
    }
    let mut out: Vec<(String, Json)> = Vec::new();
    proof {
        lemma_members_view_empty(out@);
    }
    let mut i: usize = 0;
    while i < present.len()
        invariant
            i <= present@.len(),
            pv == members_view(present@),
            pv.len() == present@.len(),
            forall|k: int| 0 <= k < present@.len() ==> #[trigger] pv[k] == (present@[k].0@, present@[k].1@),
            members_view(out@) == lengths_of(pv.take(i as int)),
        decreases present@.len() - i,
    {
        let n = array_length(&present[i].1);
        push_member(&mut out, present[i].0.as_str(), Json::Number(JsonNumber::PosInt(n as u64)));
        assert(lengths_of(pv.take(i + 1)) =~= lengths_of(pv.take(i as int)).push(
            (pv[i as int].0, juint(array_len(pv[i as int].1) as u64)),
        ));
        i += 1;
    }
    assert(pv.take(i as int) =~= pv);
    out
}

/// Record a drop for each present signal.
fn drop_each(dropped: &mut Vec<(String, Json)>, present: &Vec<(String, Json)>)
    ensures
        members_view(final(dropped)@) == drop_all(members_view(old(dropped)@), members_view(present@)),
{
    let ghost pv = members_view(present@);
    let ghost d0 = members_view(dropped@);
    proof {
        lemma_members_view(present@);
        assert(pv.take(0) =~= Seq::<(Seq<char>, JsonV)>::empty());
    }
    let mut i: usize = 0;
    while i < present.len()
        invariant
            i <= present@.len(),
            pv == members_view(present@),
            pv.len() == present@.len(),
            forall|k: int| 0 <= k < present@.len() ==> #[trigger] pv[k] == (present@[k].0@, present@[k].1@),
            members_view(dropped@) == drop_all(d0, pv.take(i as int)),
        decreases present@.len() - i,
    {
        let n = array_length(&present[i].1);
        proof {
            assert(pv.take(i + 1).drop_last() =~= pv.take(i as int));
            assert(pv.take(i + 1).last() == pv[i as int]);
        }
        set_member(dropped, present[i].0.as_str(), Json::Number(JsonNumber::PosInt(n as u64)));
        i += 1;
    }
    assert(pv.take(i as int) =~= pv);
}

/// Append `_token_signals_dropped` to both member lists when anything was
/// dropped.
fn push_dropped(turn: &mut Vec<(String, Json)>, inventory: &mut Vec<(String, Json)>, dropped: Vec<(String, Json)>)
    ensures
        members_view(final(turn)@) == members_view(old(turn)@) + dropped_member(members_view(dropped@)),
        members_view(final(inventory)@) == members_view(old(inventory)@) + dropped_member(members_view(dropped@)),
{
    proof {
        lemma_members_view(dropped@);
    }
    if dropped.len() > 0 {
        let ghost dv = members_view(dropped@);
        let value = Json::Object(dropped);
        let copy = value.duplicate();
        push_member(turn, "_token_signals_dropped", copy);
        push_member(inventory, "_token_signals_dropped", value);
        assert(members_view(turn@) =~= members_view(old(turn)@) + dropped_member(dv));
        assert(members_view(inventory@) =~= members_view(old(inventory)@) + dropped_member(dv));
    } else {
        assert(members_view(turn@) =~= members_view(old(turn)@) + dropped_member(members_view(dropped@)));
        assert(members_view(inventory@) =~= members_view(old(inventory)@) + dropped_member(members_view(dropped@)));
    }
}

/// Copy the token-id / mask / logprob signals the serving stack recorded
/// onto a turn. Returns the members to add to the turn and the inventory of
/// what was written, signal name to element count plus any drop or
/// misalignment record.
pub fn attach_token_signals(source: &Json, budget: &mut TokenSignalBudget) -> (res: (
    Vec<(String, Json)>,
    Vec<(String, Json)>,
))
    ensures
        (members_view(res.0@), members_view(res.1@), final(budget).remaining as int)
            == spec_attach_token_signals(source@, old(budget).remaining as int),
{
    let mut dropped = capture_drop_record(source);
    let ghost d0 = members_view(dropped@);
    let mut turn: Vec<(String, Json)> = Vec::new();
    let mut inventory: Vec<(String, Json)> = Vec::new();
    proof {
        lemma_members_view_empty(turn@);
        lemma_members_view_empty(inventory@);
    }
    match source.get("prompt_token_ids") {
        Some(value) => {
            if is_u32_array(value) {
                let n = array_length(value);
                match budget.take(value) {
                    Some(_) => {
                        push_member(&mut turn, "prompt_token_ids", value.duplicate());
                        push_member(&mut inventory, "prompt_token_ids", Json::Number(JsonNumber::PosInt(n as u64)));
                    },
                    None => {
                        set_member(&mut dropped, "prompt_token_ids", Json::Number(JsonNumber::PosInt(n as u64)));
                    },
                }
            }
        },
        None => {},
    }
    let ghost d1 = members_view(dropped@);
    let ghost r1 = budget.remaining as int;
    let ghost t1 = members_view(turn@);
    let ghost i1 = members_view(inventory@);
    let present = present_completion_signals(source);
    let ghost pv = members_view(present@);
    proof {
        lemma_members_view(present@);
    }
    if present.len() == 0 {
        push_dropped(&mut turn, &mut inventory, dropped);
        return (turn, inventory);
    }
    if !signals_aligned(&present) {
        let lengths = signal_lengths(&present);
        let ghost lv = members_view(lengths@);
        let value = Json::Object(lengths);
        push_member(&mut turn, "_token_signals_misaligned", value.duplicate());
        push_member(&mut inventory, "_token_signals_misaligned", value);
        push_dropped(&mut turn, &mut inventory, dropped);
        proof {
            let mis = seq![("_token_signals_misaligned"@, JsonV::Object(lv))];
            assert(members_view(turn@) =~= t1 + mis + dropped_member(d1));
            assert(members_view(inventory@) =~= i1 + mis + dropped_member(d1));
        }
        return (turn, inventory);
    }
    let mut values: Vec<Json> = Vec::new();
    proof {
        lemma_items_view_empty(values@);
    }
    let mut i: usize = 0;
    while i < present.len()
        invariant
            i <= present@.len(),
            pv == members_view(present@),
            pv.len() == present@.len(),
            forall|k: int| 0 <= k < present@.len() ==> #[trigger] pv[k] == (present@[k].0@, present@[k].1@),
            items_view(values@) == pv.take(i as int).map_values(|p: (Seq<char>, JsonV)| p.1),
        decreases present@.len() - i,
    {
        push_item(&mut values, present[i].1.duplicate());
        assert(pv.take(i + 1).map_values(|p: (Seq<char>, JsonV)| p.1) =~= pv.take(i as int).map_values(
            |p: (Seq<char>, JsonV)| p.1,
        ).push(pv[i as int].1));
        i += 1;
    }
    assert(pv.take(i as int) =~= pv);
    let set = Json::Array(values);
    match budget.take(&set) {
        Some(_) => {
            let lengths = signal_lengths(&present);
            let ghost lv = members_view(lengths@);
            let mut k: usize = 0;
            let ghost tk = members_view(turn@);
            while k < present.len()
                invariant
                    k <= present@.len(),
                    pv == members_view(present@),
                    pv.len() == present@.len(),
                    forall|j: int| 0 <= j < present@.len() ==> #[trigger] pv[j] == (present@[j].0@, present@[j].1@),
                    members_view(turn@) == tk + pv.take(k as int),
                decreases present@.len() - k,
            {
                push_member(&mut turn, present[k].0.as_str(), present[k].1.duplicate());
                assert(tk + pv.take(k + 1) =~= (tk + pv.take(k as int)).push(pv[k as int]));
                k += 1;
            }
            assert(pv.take(k as int) =~= pv);
            let mut lengths = lengths;
            let ghost ik = members_view(inventory@);
            let mut j: usize = 0;
            proof {
                lemma_members_view(lengths@);
            }
            while j < lengths.len()
                invariant
                    j <= lengths@.len(),
                    lv == members_view(lengths@),
                    lv.len() == lengths@.len(),
                    forall|q: int| 0 <= q < lengths@.len() ==> #[trigger] lv[q] == (lengths@[q].0@, lengths@[q].1@),
                    members_view(inventory@) == ik + lv.take(j as int),
                decreases lengths@.len() - j,
            {
                push_member(&mut inventory, lengths[j].0.as_str(), lengths[j].1.duplicate());
                assert(ik + lv.take(j + 1) =~= (ik + lv.take(j as int)).push(lv[j as int]));
                j += 1;
            }
            assert(lv.take(j as int) =~= lv);
            push_dropped(&mut turn, &mut inventory, dropped);
            proof {
                assert(members_view(turn@) =~= t1 + pv + dropped_member(d1));
                assert(members_view(inventory@) =~= i1 + lengths_of(pv) + dropped_member(d1));
            }
            (turn, inventory)
        },
        None => {
            drop_each(&mut dropped, &present);
            push_dropped(&mut turn, &mut inventory, dropped);
            (turn, inventory)
        },
    }
}

/// A JSON integer.
pub open spec fn jint(i: i64) -> JsonV {
    if i >= 0 {
        JsonV::Number(crate::json::NumberV::PosInt(i as u64))
    } else {
        JsonV::Number(crate::json::NumberV::NegInt(i))
    }
}

/// `json!(i)` for an `i64`.
pub fn json_int(i: i64) -> (res: Json)
    ensures
        res@ == jint(i),
{
    if i >= 0 {
        Json::Number(JsonNumber::PosInt(i as u64))
    } else {
        Json::Number(JsonNumber::NegInt(i))
    }
}

/// An inventory member that records a fact about the turn (a drop or a
/// misalignment) rather than a signal's length.
pub open spec fn is_marker(m: (Seq<char>, JsonV)) -> bool {
    has_prefix(m.0, "_"@)
}

/// The carrier entity recording one turn's token-signal inventory: the drop
/// and misalignment markers as they are, the signal lengths under `lengths`.
pub open spec fn spec_token_signal_carrier(span_id: JsonV, turn_id: i64, inventory: Seq<(Seq<char>, JsonV)>) -> JsonV {
    let markers = inventory.filter(|m: (Seq<char>, JsonV)| is_marker(m));
    let lengths = inventory.filter(|m: (Seq<char>, JsonV)| !is_marker(m));
    let metadata = seq![("turn_id"@, jint(turn_id))] + markers + if lengths.len() > 0 {
        seq![("lengths"@, JsonV::Object(lengths)), ("stored_on"@, jstr("turns[].<signal>"@))]
    } else {
        seq![]
    };
    JsonV::Object(
        seq![
            ("type"@, jstr(crate::ots::TOKEN_SIGNAL_CARRIER_TYPE@)),
            ("id"@, span_id),
            ("metadata"@, JsonV::Object(metadata)),
        ],
    )
}

/// One turn's token-signal inventory, as a context entity.
pub fn token_signal_carrier(span_id: &Json, turn_id: i64, inventory: Vec<(String, Json)>) -> (res: Json)
    ensures
        res@ == spec_token_signal_carrier(span_id@, turn_id, members_view(inventory@)),
{
    let ghost iv = members_view(inventory@);
    let ghost f = |m: (Seq<char>, JsonV)| is_marker(m);
    let ghost g = |m: (Seq<char>, JsonV)| !is_marker(m);
    proof {
        lemma_members_view(inventory@);
        assert(iv.take(0) =~= Seq::<(Seq<char>, JsonV)>::empty());
    }
    let mut metadata: Vec<(String, Json)> = Vec::new();
    proof {
        lemma_members_view_empty(metadata@);
    }
    push_member(&mut metadata, "turn_id", json_int(turn_id));
    let ghost m0 = members_view(metadata@);
    let mut lengths: Vec<(String, Json)> = Vec::new();
    proof {
        lemma_members_view_empty(lengths@);
    }
    let mut i: usize = 0;
    while i < inventory.len()
        invariant
            i <= inventory@.len(),
            iv == members_view(inventory@),
            iv.len() == inventory@.len(),
            forall|k: int| 0 <= k < inventory@.len() ==> #[trigger] iv[k] == (inventory@[k].0@, inventory@[k].1@),
            f == (|m: (Seq<char>, JsonV)| is_marker(m)),
            g == (|m: (Seq<char>, JsonV)| !is_marker(m)),
            members_view(metadata@) == m0 + iv.take(i as int).filter(f),
            members_view(lengths@) == iv.take(i as int).filter(g),
        decreases inventory@.len() - i,
    {
        proof {
            iv.take(i as int).lemma_filter_push(iv[i as int], f);
            iv.take(i as int).lemma_filter_push(iv[i as int], g);
            assert(iv.take(i + 1) =~= iv.take(i as int).push(iv[i as int]));
            reveal_strlit("_");
        }
        let key = inventory[i].0.as_str();
        if str_starts_with(key, "_") {
            push_member(&mut metadata, key, inventory[i].1.duplicate());
            assert(m0 + iv.take(i + 1).filter(f) =~= (m0 + iv.take(i as int).filter(f)).push(iv[i as int]));
        } else {
            push_member(&mut lengths, key, inventory[i].1.duplicate());
        }
        i += 1;
    }
    assert(iv.take(i as int) =~= iv);
    let has_lengths = lengths.len() > 0;
    proof {
        lemma_members_view(lengths@);
    }
    let ghost lv = members_view(lengths@);
    let ghost mm = members_view(metadata@);
    if has_lengths {
        push_member(&mut metadata, "lengths", Json::Object(lengths));
        push_member(&mut metadata, "stored_on", Json::String("turns[].<signal>".to_string()));
    }
    assert(members_view(metadata@) =~= mm + if lv.len() > 0 {
        seq![("lengths"@, JsonV::Object(lv)), ("stored_on"@, jstr("turns[].<signal>"@))]
    } else {
        seq![]
    });
    let ghost mv = members_view(metadata@);
    let mut carrier: Vec<(String, Json)> = Vec::new();
    proof {
        lemma_members_view_empty(carrier@);
    }
    push_member(&mut carrier, "type", Json::String(crate::ots::TOKEN_SIGNAL_CARRIER_TYPE.to_string()));
    push_member(&mut carrier, "id", span_id.duplicate());
    push_member(&mut carrier, "metadata", Json::Object(metadata));
    assert(members_view(carrier@) =~= seq![
        ("type"@, jstr(crate::ots::TOKEN_SIGNAL_CARRIER_TYPE@)),
        ("id"@, span_id@),
        ("metadata"@, JsonV::Object(mv)),
    ]);
    Json::Object(carrier)
}

/// A member name under which a turn carries a token signal.
pub open spec fn is_signal_name(n: Seq<char>) -> bool {
    ||| n == "prompt_token_ids"@
    ||| n == "completion_token_ids"@
    ||| n == "response_mask"@
    ||| n == "logprobs"@
}

/// Every signal name starts with `p`, `c`, `r` or `l`.
pub proof fn lemma_signal_name_initial(n: Seq<char>)
    requires
        is_signal_name(n),
    ensures
        n.len() > 0,
        n[0] == 'p' || n[0] == 'c' || n[0] == 'r' || n[0] == 'l',
{
    reveal_strlit("prompt_token_ids");
    reveal_strlit("completion_token_ids");
    reveal_strlit("response_mask");
    reveal_strlit("logprobs");
}

/// A name that starts with `_` marks and is no signal's.
proof fn lemma_underscore_name(m: (Seq<char>, JsonV))
    requires
        m.0.len() > 0,
        m.0[0] == '_',
    ensures
        is_marker(m),
        !is_signal_name(m.0),
{
    reveal_strlit("_");
    assert(m.0.subrange(0, 1) =~= "_"@);
    if is_signal_name(m.0) {
        lemma_signal_name_initial(m.0);
    }
}

/// A signal's member is no marker.
proof fn lemma_signal_not_marker(m: (Seq<char>, JsonV))
    requires
        is_signal_name(m.0),
    ensures
        !is_marker(m),
{
    lemma_signal_name_initial(m.0);
    reveal_strlit("_");
    if has_prefix(m.0, "_"@) {
        assert(m.0.subrange(0, 1)[0] == m.0[0]);
    }
}

/// Within `s`, the markers are exactly the members that are not signals.
pub open spec fn markers_are_non_signals(s: Seq<(Seq<char>, JsonV)>) -> bool {
    forall|k: int| 0 <= k < s.len() ==> (is_marker(#[trigger] s[k]) <==> !is_signal_name(s[k].0))
}

proof fn lemma_markers_concat(a: Seq<(Seq<char>, JsonV)>, b: Seq<(Seq<char>, JsonV)>)
    requires
        markers_are_non_signals(a),
        markers_are_non_signals(b),
    ensures
        markers_are_non_signals(a + b),
{
    assert forall|k: int| 0 <= k < (a + b).len() implies (is_marker(#[trigger] (a + b)[k]) <==> !is_signal_name(
        (a + b)[k].0,
    )) by {
        if k < a.len() {
            assert((a + b)[k] == a[k]);
        } else {
            assert((a + b)[k] == b[k - a.len()]);
        }
    }
}

/// The completion signals found come under the names `signals` lists.
proof fn lemma_present_signal_names(source: JsonV, signals: Seq<(&str, SignalShape)>)
    requires
        forall|j: int| 0 <= j < signals.len() ==> is_signal_name((#[trigger] signals[j]).0@),
    ensures
        forall|k: int|
            0 <= k < present_signals(source, signals).len() ==> is_signal_name(
                (#[trigger] present_signals(source, signals)[k]).0,
            ),
    decreases signals.len(),
{
    if signals.len() > 0 {
        let rest = signals.drop_last();
        assert forall|j: int| 0 <= j < rest.len() implies is_signal_name((#[trigger] rest[j]).0@) by {
            assert(rest[j] == signals[j]);
        }
        lemma_present_signal_names(source, rest);
        let found = present_signals(source, signals);
        let before = present_signals(source, rest);
        let last = signals.last();
        assert(is_signal_name(last.0@));
        assert forall|k: int| 0 <= k < found.len() implies is_signal_name((#[trigger] found[k]).0) by {
            if k < before.len() {
                assert(found[k] == before[k]);
            } else {
                assert(found[k].0 == last.0@);
            }
        }
    }
}

/// Attaching a turn's signals adds members under the names the inventory
/// records, one for one and in order; in the inventory the markers are
/// exactly the members that are not signals.
pub proof fn lemma_attach_names(source: JsonV, remaining: int)
    ensures
        ({
            let (adds, inventory, _) = spec_attach_token_signals(source, remaining);
            &&& adds.len() == inventory.len()
            &&& forall|k: int| 0 <= k < adds.len() ==> (#[trigger] adds[k]).0 == inventory[k].0
            &&& markers_are_non_signals(inventory)
        }),
{
    let completion = COMPLETION_TOKEN_SIGNALS@;
    assert(completion.len() == 3);
    assert forall|j: int| 0 <= j < completion.len() implies is_signal_name((#[trigger] completion[j]).0@) by {
        if j == 0 {
            assert(completion[0].0@ == "completion_token_ids"@);
        } else if j == 1 {
            assert(completion[1].0@ == "response_mask"@);
        } else {
            assert(completion[2].0@ == "logprobs"@);
        }
    }
    lemma_present_signal_names(source, completion);
    let (adds, inventory, _) = spec_attach_token_signals(source, remaining);
    let d0 = capture_drops(source, TOKEN_SIGNAL_FIELDS@);
    let present = present_signals(source, completion);
    reveal_strlit("_token_signals_dropped");
    reveal_strlit("_token_signals_misaligned");
    assert forall|d: Seq<(Seq<char>, JsonV)>| markers_are_non_signals(#[trigger] dropped_member(d)) by {
        if d.len() > 0 {
            lemma_underscore_name(dropped_member(d)[0]);
        }
    }
    assert forall|v: JsonV| markers_are_non_signals(#[trigger] seq![("prompt_token_ids"@, v)]) by {
        lemma_signal_not_marker(("prompt_token_ids"@, v));
    }
    assert forall|v: JsonV| markers_are_non_signals(#[trigger] seq![("_token_signals_misaligned"@, v)]) by {
        lemma_underscore_name(("_token_signals_misaligned"@, v));
    }
    let lengths = lengths_of(present);
    assert(markers_are_non_signals(lengths)) by {
        assert forall|k: int| 0 <= k < lengths.len() implies (is_marker(#[trigger] lengths[k]) <==> !is_signal_name(
            lengths[k].0,
        )) by {
            assert(lengths[k].0 == present[k].0);
            lemma_signal_not_marker(lengths[k]);
        }
    }
    assert(markers_are_non_signals(seq![]));
    assert(adds.len() == inventory.len() && forall|k: int| 0 <= k < adds.len() ==> (#[trigger] adds[k]).0 == inventory[k].0);
    assert(markers_are_non_signals(inventory));
}

/// A member name under which a turn carries a completion-side signal.
pub open spec fn is_completion_name(n: Seq<char>) -> bool {
    ||| n == "completion_token_ids"@
    ||| n == "response_mask"@
    ||| n == "logprobs"@
}

/// The members of `m` that carry completion-side signals, in order.
pub open spec fn completion_members(m: Seq<(Seq<char>, JsonV)>) -> Seq<(Seq<char>, JsonV)>
    decreases m.len(),
{
    if m.len() == 0 {
        seq![]
    } else {
        let before = completion_members(m.drop_last());
        if is_completion_name(m.last().0) {
            before.push(m.last())
        } else {
            before
        }
    }
}

/// What the token-signal budget was charged for the signals among `m`: the
/// prompt ids by their serialized size, the completion signals together by
/// the serialized size of the array of them.
pub open spec fn signal_charge(m: Seq<(Seq<char>, JsonV)>) -> int {
    let prompt: int = match members_get(m, "prompt_token_ids"@) {
        Some(v) => serialized_size(v) as int,
        None => 0,
    };
    let c = completion_members(m);
    prompt + if c.len() > 0 {
        serialized_size(JsonV::Array(c.map_values(|p: (Seq<char>, JsonV)| p.1))) as int
    } else {
        0
    }
}

proof fn lemma_completion_members_concat(a: Seq<(Seq<char>, JsonV)>, b: Seq<(Seq<char>, JsonV)>)
    ensures
        completion_members(a + b) == completion_members(a) + completion_members(b),
    decreases b.len(),
{
    if b.len() == 0 {
        assert(a + b =~= a);
        assert(completion_members(a) + completion_members(b) =~= completion_members(a));
    } else {
        assert((a + b).drop_last() =~= a + b.drop_last());
        assert((a + b).last() == b.last());
        lemma_completion_members_concat(a, b.drop_last());
        if is_completion_name(b.last().0) {
            assert(completion_members(a) + completion_members(b.drop_last()).push(b.last()) =~= (completion_members(a)
                + completion_members(b.drop_last())).push(b.last()));
        }
    }
}

proof fn lemma_completion_members_none(m: Seq<(Seq<char>, JsonV)>)
    requires
        forall|k: int| 0 <= k < m.len() ==> !is_completion_name((#[trigger] m[k]).0),
    ensures
        completion_members(m) == Seq::<(Seq<char>, JsonV)>::empty(),
    decreases m.len(),
{
    if m.len() > 0 {
        assert forall|k: int| 0 <= k < m.drop_last().len() implies !is_completion_name((#[trigger] m.drop_last()[k]).0) by {
            assert(m.drop_last()[k] == m[k]);
        }
        lemma_completion_members_none(m.drop_last());
        assert(!is_completion_name(m[m.len() - 1].0));
    }
}

proof fn lemma_completion_members_all(m: Seq<(Seq<char>, JsonV)>)
    requires
        forall|k: int| 0 <= k < m.len() ==> is_completion_name((#[trigger] m[k]).0),
    ensures
        completion_members(m) == m,
    decreases m.len(),
{
    if m.len() > 0 {
        assert forall|k: int| 0 <= k < m.drop_last().len() implies is_completion_name((#[trigger] m.drop_last()[k]).0) by {
            assert(m.drop_last()[k] == m[k]);
        }
        lemma_completion_members_all(m.drop_last());
        assert(is_completion_name(m[m.len() - 1].0));
        assert(m.drop_last().push(m.last()) =~= m);
    }
}

/// The completion signals found come under completion names.
proof fn lemma_present_completion_names(source: JsonV, signals: Seq<(&str, SignalShape)>)
    requires
        forall|j: int| 0 <= j < signals.len() ==> is_completion_name((#[trigger] signals[j]).0@),
    ensures
        forall|k: int|
            0 <= k < present_signals(source, signals).len() ==> is_completion_name(
                (#[trigger] present_signals(source, signals)[k]).0,
            ),
    decreases signals.len(),
{
    if signals.len() > 0 {
        let rest = signals.drop_last();
        assert forall|j: int| 0 <= j < rest.len() implies is_completion_name((#[trigger] rest[j]).0@) by {
            assert(rest[j] == signals[j]);
        }
        lemma_present_completion_names(source, rest);
        let found = present_signals(source, signals);
        let before = present_signals(source, rest);
        let last = signals.last();
        assert(is_completion_name(last.0@));
        assert forall|k: int| 0 <= k < found.len() implies is_completion_name((#[trigger] found[k]).0) by {
            if k < before.len() {
                assert(found[k] == before[k]);
            } else {
                assert(found[k].0 == last.0@);
            }
        }
    }
}

/// Which names are which: a completion name is a signal name, and neither
/// the prompt ids' name nor a name starting with `_` is a completion name.
proof fn lemma_completion_name_facts(n: Seq<char>)
    ensures
        is_completion_name(n) ==> is_signal_name(n),
        is_completion_name(n) ==> n != "prompt_token_ids"@,
        n.len() > 0 && n[0] == '_' ==> !is_completion_name(n) && n != "prompt_token_ids"@,
{
    reveal_strlit("prompt_token_ids");
    reveal_strlit("completion_token_ids");
    reveal_strlit("response_mask");
    reveal_strlit("logprobs");
    if n == "prompt_token_ids"@ {
        assert(n[0] == 'p');
        assert("completion_token_ids"@[0] == 'c');
        assert("response_mask"@[0] == 'r');
        assert("logprobs"@[0] == 'l');
    }
}

/// Attaching a turn's signals, after members that carry none, charges the
/// budget exactly what the signals it adds are charged, and never more
/// than is left.
#[verifier::spinoff_prover]
#[verifier::rlimit(80)]
pub proof fn lemma_attach_charge(base: Seq<(Seq<char>, JsonV)>, source: JsonV, remaining: int)
    requires
        remaining >= 0,
        forall|k: int| 0 <= k < base.len() ==> !is_signal_name((#[trigger] base[k]).0),
    ensures
        ({
            let (adds, _, left) = spec_attach_token_signals(source, remaining);
            &&& 0 <= left <= remaining
            &&& signal_charge(base + adds) == remaining - left
        }),
{
    let (adds, inventory, left) = spec_attach_token_signals(source, remaining);
    let completion = COMPLETION_TOKEN_SIGNALS@;
    assert(completion.len() == 3);
    assert forall|j: int| 0 <= j < completion.len() implies is_completion_name((#[trigger] completion[j]).0@) by {
        if j == 0 {
            assert(completion[0].0@ == "completion_token_ids"@);
        } else if j == 1 {
            assert(completion[1].0@ == "response_mask"@);
        } else {
            assert(completion[2].0@ == "logprobs"@);
        }
    }
    lemma_present_completion_names(source, completion);
    let present = present_signals(source, completion);
    reveal_strlit("_token_signals_dropped");
    reveal_strlit("_token_signals_misaligned");
    let key = "prompt_token_ids"@;
    assert forall|n: Seq<char>| is_completion_name(n) implies is_signal_name(n) && n != key by {
        lemma_completion_name_facts(n);
    }
    assert(!is_completion_name("_token_signals_dropped"@) && "_token_signals_dropped"@ != key) by {
        lemma_completion_name_facts("_token_signals_dropped"@);
    }
    assert(!is_completion_name("_token_signals_misaligned"@) && "_token_signals_misaligned"@ != key) by {
        lemma_completion_name_facts("_token_signals_misaligned"@);
    }
    // The members before the signals: none is the prompt ids or a completion signal.
    assert forall|k: int| 0 <= k < base.len() implies (#[trigger] base[k]).0 != key && !is_completion_name(base[k].0) by {
        lemma_completion_name_facts(base[k].0);
    }
    lemma_members_get_skip_signals(base, adds, key);
    lemma_completion_members_none(base);
    lemma_completion_members_concat(base, adds);
    assert(completion_members(base + adds) =~= completion_members(adds));
    // The pieces after the prompt ids carry no prompt ids.
    let d0 = capture_drops(source, TOKEN_SIGNAL_FIELDS@);
    let prompt = spec_get(source, "prompt_token_ids"@);
    let (kept, d1, r1) = match prompt {
        Some(v) => if shape_ok(SignalShape::U32, v) {
            if serialized_size(v) <= remaining {
                (Some(v), d0, remaining - serialized_size(v))
            } else {
                (None, members_set(d0, "prompt_token_ids"@, juint(array_len(v) as u64)), remaining)
            }
        } else {
            (None, d0, remaining)
        },
        None => (None, d0, remaining),
    };
    let prompt_turn = match kept {
        Some(v) => seq![("prompt_token_ids"@, v)],
        None => seq![],
    };
    let rest = adds.skip(prompt_turn.len() as int);
    assert(adds =~= prompt_turn + rest);
    assert forall|k: int| 0 <= k < rest.len() implies (#[trigger] rest[k]).0 != key by {
        if is_completion_name(rest[k].0) {
        } else {
            assert(rest[k].0 == "_token_signals_dropped"@ || rest[k].0 == "_token_signals_misaligned"@ || is_completion_name(rest[k].0)) by {
                if present.len() == 0 {
                } else if !aligned(present) {
                } else {
                    let set = JsonV::Array(present.map_values(|p: (Seq<char>, JsonV)| p.1));
                    if serialized_size(set) <= r1 {
                        if k < present.len() {
                            assert(rest[k] == present[k]);
                        }
                    }
                }
            }
        }
    }
    lemma_members_get_skip_signals(seq![], rest, key);
    assert(seq![] + rest =~= rest);
    match kept {
        Some(v) => {
            assert(adds[0] == (key, v));
            assert(adds.drop_first() =~= rest);
        },
        None => {
            assert(adds =~= rest);
            lemma_members_get_skip_signals(rest, seq![], key);
            assert(rest + seq![] =~= rest);
        },
    }
    lemma_completion_members_concat(prompt_turn, rest);
    lemma_completion_members_none(prompt_turn);
    if present.len() > 0 && aligned(present) {
        let set = JsonV::Array(present.map_values(|p: (Seq<char>, JsonV)| p.1));
        if serialized_size(set) <= r1 {
            let dm = dropped_member(d1);
            assert(rest =~= present + dm);
            lemma_completion_members_concat(present, dm);
            lemma_completion_members_all(present);
            lemma_completion_members_none(dm);
            assert(present + Seq::<(Seq<char>, JsonV)>::empty() =~= present);
        } else {
            lemma_completion_members_none(rest);
        }
    } else {
        lemma_completion_members_none(rest);
    }
}

/// Members with no member named `key` look nothing up.
proof fn lemma_members_get_skip_signals(a: Seq<(Seq<char>, JsonV)>, b: Seq<(Seq<char>, JsonV)>, key: Seq<char>)
    requires
        forall|k: int| 0 <= k < a.len() ==> (#[trigger] a[k]).0 != key,
    ensures
        members_get(a + b, key) == members_get(b, key),
    decreases a.len(),
{
    if a.len() > 0 {
        assert((a + b)[0] == a[0]);
        assert((a + b).drop_first() =~= a.drop_first() + b);
        assert forall|k: int| 0 <= k < a.drop_first().len() implies (#[trigger] a.drop_first()[k]).0 != key by {
            assert(a.drop_first()[k] == a[k + 1]);
        }
        lemma_members_get_skip_signals(a.drop_first(), b, key);
    }
}

/// Members that carry no signal, ahead of others, add nothing to the charge.
pub proof fn lemma_charge_skip(a: Seq<(Seq<char>, JsonV)>, b: Seq<(Seq<char>, JsonV)>)
    requires
        forall|k: int| 0 <= k < a.len() ==> !is_signal_name((#[trigger] a[k]).0),
    ensures
        signal_charge(a + b) == signal_charge(b),
{
    let key = "prompt_token_ids"@;
    assert forall|k: int| 0 <= k < a.len() implies (#[trigger] a[k]).0 != key && !is_completion_name(a[k].0) by {
        lemma_completion_name_facts(a[k].0);
        reveal_strlit("prompt_token_ids");
    }
    lemma_members_get_skip_signals(a, b, key);
    lemma_completion_members_none(a);
    lemma_completion_members_concat(a, b);
    assert(completion_members(a + b) =~= completion_members(b));
}

/// Members that carry no signal are charged nothing.
pub proof fn lemma_no_signal_charge(m: Seq<(Seq<char>, JsonV)>)
    requires
        forall|k: int| 0 <= k < m.len() ==> !is_signal_name((#[trigger] m[k]).0),
    ensures
        signal_charge(m) == 0,
{
    lemma_charge_skip(m, seq![]);
    assert(m + Seq::<(Seq<char>, JsonV)>::empty() =~= m);
    assert(completion_members(Seq::<(Seq<char>, JsonV)>::empty()).len() == 0);
}

} // verus!
