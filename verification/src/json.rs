//! A JSON document model: what the logic reads out of parsed JSON.

use vstd::prelude::*;

verus! {

/// A JSON number, as the parser classified it.
#[derive(Debug)]
pub enum JsonNumber {
    /// A non-negative integer that fits in `u64`.
    PosInt(u64),
    /// A negative integer that fits in `i64`.
    NegInt(i64),
    /// Any other number: the parser's own rendering of it, and the value
    /// truncated toward zero and saturated to `i64` and to `u64` (where a
    /// negative value saturates to 0).
    Float { text: String, as_i64: i64, as_u64: u64 },
}

/// A JSON number as plain values.
pub enum NumberV {
    PosInt(u64),
    NegInt(i64),
    Float { text: Seq<char>, as_i64: i64, as_u64: u64 },
}

impl View for JsonNumber {
    type V = NumberV;

    open spec fn view(&self) -> NumberV {
        match self {
            JsonNumber::PosInt(u) => NumberV::PosInt(*u),
            JsonNumber::NegInt(i) => NumberV::NegInt(*i),
            JsonNumber::Float { text, as_i64, as_u64 } => NumberV::Float {
                text: text@,
                as_i64: *as_i64,
                as_u64: *as_u64,
            },
        }
    }
}

impl JsonNumber {
    /// A copy of this number.
    pub fn duplicate(&self) -> (res: JsonNumber)
        ensures
            res@ == self@,
    {
        match self {
            JsonNumber::PosInt(u) => JsonNumber::PosInt(*u),
            JsonNumber::NegInt(i) => JsonNumber::NegInt(*i),
            JsonNumber::Float { text, as_i64, as_u64 } => JsonNumber::Float {
                text: text.clone(),
                as_i64: *as_i64,
                as_u64: *as_u64,
            },
        }
    }
}

/// A JSON value. Object members are a list in the order they were given; a
/// parsed object lists them in the order the parser's map walks them (sorted
/// by key), and a lookup takes the first member with the key.
#[derive(Debug)]
pub enum Json {
    Null,
    Bool(bool),
    Number(JsonNumber),
    String(String),
    Array(Vec<Json>),
    Object(Vec<(String, Json)>),
}

/// A JSON value as plain mathematical values.
pub enum JsonV {
    Null,
    Bool(bool),
    Number(NumberV),
    String(Seq<char>),
    Array(Seq<JsonV>),
    Object(Seq<(Seq<char>, JsonV)>),
}

/// The plain value of a JSON value.
pub open spec fn json_view(j: Json) -> JsonV
    decreases j,
{
    match j {
        Json::Null => JsonV::Null,
        Json::Bool(b) => JsonV::Bool(b),
        Json::Number(n) => JsonV::Number(n@),
        Json::String(s) => JsonV::String(s@),
        Json::Array(items) => JsonV::Array(items_view(items@)),
        Json::Object(members) => JsonV::Object(members_view(members@)),
    }
}

/// The plain values of a sequence of JSON values.
pub open spec fn items_view(items: Seq<Json>) -> Seq<JsonV>
    decreases items,
{
    if items.len() == 0 {
        seq![]
    } else {
        seq![json_view(items[0])] + items_view(items.drop_first())
    }
}

/// The plain values of a sequence of object members.
pub open spec fn members_view(members: Seq<(String, Json)>) -> Seq<(Seq<char>, JsonV)>
    decreases members,
{
    if members.len() == 0 {
        seq![]
    } else {
        seq![(members[0].0@, json_view(members[0].1))] + members_view(members.drop_first())
    }
}

impl View for Json {
    type V = JsonV;

    open spec fn view(&self) -> JsonV {
        json_view(*self)
    }
}

/// `items_view` is element-wise.
pub proof fn lemma_items_view(items: Seq<Json>)
    ensures
        items_view(items).len() == items.len(),
        forall|i: int| 0 <= i < items.len() ==> #[trigger] items_view(items)[i] == json_view(items[i]),
    decreases items.len(),
{
    if items.len() > 0 {
        lemma_items_view(items.drop_first());
        assert forall|i: int| 0 <= i < items.len() implies #[trigger] items_view(items)[i] == json_view(
            items[i],
        ) by {
            if i > 0 {
                assert(items_view(items)[i] == items_view(items.drop_first())[i - 1]);
            }
        }
    }
}

/// `members_view` is element-wise.
pub proof fn lemma_members_view(members: Seq<(String, Json)>)
    ensures
        members_view(members).len() == members.len(),
        forall|i: int|
            0 <= i < members.len() ==> #[trigger] members_view(members)[i] == (
                members[i].0@,
                json_view(members[i].1),
            ),
    decreases members.len(),
{
    if members.len() > 0 {
        lemma_members_view(members.drop_first());
        assert forall|i: int| 0 <= i < members.len() implies #[trigger] members_view(members)[i] == (
            members[i].0@,
            json_view(members[i].1),
        ) by {
            if i > 0 {
                assert(members_view(members)[i] == members_view(members.drop_first())[i - 1]);
            }
        }
    }
}

/// Value of the first member named `key`.
pub open spec fn members_get(members: Seq<(Seq<char>, JsonV)>, key: Seq<char>) -> Option<JsonV>
    decreases members.len(),
{
    if members.len() == 0 {
        None
    } else if members[0].0 == key {
        Some(members[0].1)
    } else {
        members_get(members.drop_first(), key)
    }
}

/// `value.get(key)`: the member `key` of an object, `None` for anything else.
pub open spec fn spec_get(value: JsonV, key: Seq<char>) -> Option<JsonV> {
    match value {
        JsonV::Object(members) => members_get(members, key),
        _ => None,
    }
}

/// The plain value behind an optional reference.
pub open spec fn opt_json(o: Option<&Json>) -> Option<JsonV> {
    match o {
        Some(r) => Some(r@),
        None => None,
    }
}

/// The plain value of an optional JSON value.
pub open spec fn opt_json_owned(o: Option<Json>) -> Option<JsonV> {
    match o {
        Some(r) => Some(r@),
        None => None,
    }
}

impl Json {
    /// `Value::get` with a string key.
    pub fn get(&self, key: &str) -> (res: Option<&Json>)
        ensures
            opt_json(res) == spec_get(self@, key@),
    {
        match self {
            Json::Object(members) => {
                let ghost mv = members_view(members@);
                proof {
                    lemma_members_view(members@);
                }
                let mut i: usize = 0;
                assert(mv.skip(0) =~= mv);
                while i < members.len()
                    invariant
                        i <= members@.len(),
                        mv == members_view(members@),
                        mv.len() == members@.len(),
                        forall|k: int| 0 <= k < members@.len() ==> #[trigger] mv[k] == (
                            members@[k].0@,
                            json_view(members@[k].1),
                        ),
                        spec_get(self@, key@) == members_get(mv, key@),
                        members_get(mv, key@) == members_get(mv.skip(i as int), key@),
                    decreases members@.len() - i,
                {
                    assert(mv.skip(i as int).drop_first() =~= mv.skip(i + 1));
                    assert(mv.skip(i as int)[0] == mv[i as int]);
                    if crate::text::str_eq(members[i].0.as_str(), key) {
                        return Some(&members[i].1);
                    }
                    i += 1;
                }
                None
            },
            _ => None,
        }
    }

    /// A copy of this value.
    pub fn duplicate(&self) -> (res: Json)
        ensures
            res@ == self@,
        decreases self,
    {
        match self {
            Json::Null => Json::Null,
            Json::Bool(b) => Json::Bool(*b),
            Json::Number(n) => Json::Number(n.duplicate()),
            Json::String(s) => Json::String(s.clone()),
            Json::Array(items) => {
                let mut out: Vec<Json> = Vec::new();
                let mut i: usize = 0;
                proof {
                    lemma_items_view(items@);
                }
                while i < items.len()
                    invariant
                        *self == Json::Array(*items),
                        i <= items@.len(),
                        out@.len() == i,
                        forall|k: int| 0 <= k < i ==> json_view(#[trigger] out@[k]) == json_view(items@[k]),
                    decreases items@.len() - i,
                {
                    assert(decreases_to!(items@ => items@[i as int]));
                    assert(decreases_to!(*items => items@));
                    assert(decreases_to!(*self => self->Array_0));
                    assert(decreases_to!(*self => items@[i as int]));
                    out.push(items[i].duplicate());
                    i += 1;
                }
                proof {
                    lemma_items_view(out@);
                    assert(items_view(out@) =~= items_view(items@));
                }
                Json::Array(out)
            },
            Json::Object(members) => {
                let mut out: Vec<(String, Json)> = Vec::new();
                let mut i: usize = 0;
                proof {
                    lemma_members_view(members@);
                }
                while i < members.len()
                    invariant
                        *self == Json::Object(*members),
                        i <= members@.len(),
                        out@.len() == i,
                        forall|k: int|
                            0 <= k < i ==> (#[trigger] out@[k]).0@ == members@[k].0@ && json_view(out@[k].1)
                                == json_view(members@[k].1),
                    decreases members@.len() - i,
                {
                    assert(decreases_to!(members@ => members@[i as int]));
                    assert(decreases_to!(*members => members@));
                    assert(decreases_to!(*self => self->Object_0));
                    assert(decreases_to!(members@[i as int] => members@[i as int].1));
                    assert(decreases_to!(*self => members@[i as int].1));
                    let v = members[i].1.duplicate();
                    out.push((members[i].0.clone(), v));
                    i += 1;
                }
                proof {
                    lemma_members_view(out@);
                    assert(members_view(out@) =~= members_view(members@));
                }
                Json::Object(out)
            },
        }
    }
}

/// The text of a JSON string value.
pub open spec fn spec_as_str(v: JsonV) -> Option<Seq<char>> {
    match v {
        JsonV::String(s) => Some(s),
        _ => None,
    }
}

/// The text of an optional JSON string value.
pub open spec fn opt_str(v: Option<JsonV>) -> Option<Seq<char>> {
    match v {
        Some(j) => spec_as_str(j),
        None => None,
    }
}

/// The text behind an optional string slice.
pub open spec fn opt_view(o: Option<&str>) -> Option<Seq<char>> {
    match o {
        Some(s) => Some(s@),
        None => None,
    }
}

impl Json {
    /// `Value::as_str`.
    pub fn as_str(&self) -> (res: Option<&str>)
        ensures
            opt_view(res) == spec_as_str(self@),
    {
        match self {
            Json::String(s) => Some(s.as_str()),
            _ => None,
        }
    }

    /// `value.get(key).and_then(Value::as_str)`.
    pub fn get_str(&self, key: &str) -> (res: Option<&str>)
        ensures
            opt_view(res) == opt_str(spec_get(self@, key@)),
    {
        match self.get(key) {
            Some(v) => v.as_str(),
            None => None,
        }
    }
}

/// The first of `keys` under which `value` holds a string.
pub open spec fn first_key_str(value: JsonV, keys: Seq<&str>) -> Option<Seq<char>>
    decreases keys.len(),
{
    if keys.len() == 0 {
        None
    } else {
        match opt_str(spec_get(value, keys[0]@)) {
            Some(s) => Some(s),
            None => first_key_str(value, keys.drop_first()),
        }
    }
}

/// The string under the first of `keys` that holds one.
pub fn direct_field_str<'a>(value: &'a Json, keys: &[&str]) -> (res: Option<&'a str>)
    ensures
        opt_view(res) == first_key_str(value@, keys@),
{
    let mut i: usize = 0;
    assert(keys@.skip(0) =~= keys@);
    while i < keys.len()
        invariant
            i <= keys@.len(),
            first_key_str(value@, keys@) == first_key_str(value@, keys@.skip(i as int)),
        decreases keys@.len() - i,
    {
        assert(keys@.skip(i as int).drop_first() =~= keys@.skip(i + 1));
        assert(keys@.skip(i as int)[0] == keys@[i as int]);
        if let Some(s) = value.get_str(keys[i]) {
            return Some(s);
        }
        i += 1;
    }
    None
}

/// The string under the first of `keys`, read from the value itself or else
/// from its `fields` object.
pub open spec fn spec_entity_field_str(value: JsonV, keys: Seq<&str>) -> Option<Seq<char>> {
    match first_key_str(value, keys) {
        Some(s) => Some(s),
        None => match spec_get(value, "fields"@) {
            Some(fields) => first_key_str(fields, keys),
            None => None,
        },
    }
}

/// The string under the first of `keys`, on the entity or in its `fields`.
pub fn entity_field_str<'a>(value: &'a Json, keys: &[&str]) -> (res: Option<&'a str>)
    ensures
        opt_view(res) == spec_entity_field_str(value@, keys@),
{
    match direct_field_str(value, keys) {
        Some(s) => Some(s),
        None => match value.get("fields") {
            Some(fields) => direct_field_str(fields, keys),
            None => None,
        },
    }
}

/// `Value::as_bool`.
pub open spec fn spec_as_bool(v: JsonV) -> Option<bool> {
    match v {
        JsonV::Bool(b) => Some(b),
        _ => None,
    }
}

/// A number's rendering shows a value below zero: a minus sign, then a
/// nonzero digit before any exponent (a negative zero renders as `-0.0`).
pub open spec fn shows_negative(text: Seq<char>) -> bool {
    text.len() > 0 && text[0] == '-' && exists|k: int|
        1 <= k < text.len() && '1' <= #[trigger] text[k] && text[k] <= '9' && forall|t: int|
            1 <= t < k ==> text[t] != 'e' && text[t] != 'E'
}

/// Whether a number's rendering shows a value below zero.
pub fn renders_negative(text: &str) -> (res: bool)
    ensures
        res == shows_negative(text@),
{
    let cs = crate::text::chars_of(text);
    if cs.len() == 0 || cs[0] != '-' {
        return false;
    }
    let mut k: usize = 1;
    while k < cs.len()
        invariant
            1 <= k <= cs@.len(),
            cs@ == text@,
            cs@[0] == '-',
            forall|t: int| 1 <= t < k ==> cs@[t] != 'e' && cs@[t] != 'E' && !('1' <= cs@[t] && cs@[t] <= '9'),
        decreases cs@.len() - k,
    {
        let c = cs[k];
        if c == 'e' || c == 'E' {
            proof {
                assert forall|j: int| 1 <= j < cs@.len() && '1' <= #[trigger] cs@[j] && cs@[j] <= '9' implies !(forall|t: int|
                    1 <= t < j ==> cs@[t] != 'e' && cs@[t] != 'E') by {
                    if j > k as int {
                        assert(1 <= k < j && !(cs@[k as int] != 'e' && cs@[k as int] != 'E'));
                    }
                }
            }
            return false;
        }
        if '1' <= c && c <= '9' {
            assert(1 <= k < cs@.len() && '1' <= cs@[k as int] && cs@[k as int] <= '9');
            return true;
        }
        k += 1;
    }
    false
}

/// `Value::as_u64`: a non-negative integer.
pub open spec fn spec_as_u64(v: JsonV) -> Option<u64> {
    match v {
        JsonV::Number(NumberV::PosInt(u)) => Some(u),
        _ => None,
    }
}

/// `Value::as_i64`: an integer that fits in `i64`.
pub open spec fn spec_as_i64(v: JsonV) -> Option<i64> {
    match v {
        JsonV::Number(NumberV::PosInt(u)) => if u <= 0x7fff_ffff_ffff_ffffu64 {
            Some(u as i64)
        } else {
            None
        },
        JsonV::Number(NumberV::NegInt(i)) => Some(i),
        _ => None,
    }
}

/// `Value::as_array`.
pub open spec fn spec_as_array(v: JsonV) -> Option<Seq<JsonV>> {
    match v {
        JsonV::Array(items) => Some(items),
        _ => None,
    }
}

/// An optional array read off an optional value.
pub open spec fn opt_array(v: Option<JsonV>) -> Option<Seq<JsonV>> {
    match v {
        Some(j) => spec_as_array(j),
        None => None,
    }
}

/// An optional boolean read off an optional value.
pub open spec fn opt_bool(v: Option<JsonV>) -> Option<bool> {
    match v {
        Some(j) => spec_as_bool(j),
        None => None,
    }
}

impl Json {
    /// `Value::is_null`.
    pub fn is_null(&self) -> (res: bool)
        ensures
            res == (self@ is Null),
    {
        match self {
            Json::Null => true,
            _ => false,
        }
    }

    /// `Value::as_bool`.
    pub fn as_bool(&self) -> (res: Option<bool>)
        ensures
            res == spec_as_bool(self@),
    {
        match self {
            Json::Bool(b) => Some(*b),
            _ => None,
        }
    }

    /// `Value::as_u64`.
    pub fn as_u64(&self) -> (res: Option<u64>)
        ensures
            res == spec_as_u64(self@),
    {
        match self {
            Json::Number(JsonNumber::PosInt(u)) => Some(*u),
            _ => None,
        }
    }

    /// `Value::as_i64`.
    pub fn as_i64(&self) -> (res: Option<i64>)
        ensures
            res == spec_as_i64(self@),
    {
        match self {
            Json::Number(JsonNumber::PosInt(u)) => if *u <= 0x7fff_ffff_ffff_ffffu64 {
                Some(*u as i64)
            } else {
                None
            },
            Json::Number(JsonNumber::NegInt(i)) => Some(*i),
            _ => None,
        }
    }

    /// `Value::as_array`.
    pub fn as_array(&self) -> (res: Option<&Vec<Json>>)
        ensures
            match res {
                Some(items) => spec_as_array(self@) == Some(items_view(items@)),
                None => spec_as_array(self@) is None,
            },
    {
        match self {
            Json::Array(items) => Some(items),
            _ => None,
        }
    }

    /// `value.get(key).and_then(Value::as_array)`.
    pub fn get_array(&self, key: &str) -> (res: Option<&Vec<Json>>)
        ensures
            match res {
                Some(items) => opt_array(spec_get(self@, key@)) == Some(items_view(items@)),
                None => opt_array(spec_get(self@, key@)) is None,
            },
    {
        match self.get(key) {
            Some(v) => v.as_array(),
            None => None,
        }
    }

    /// `value.get(key).and_then(Value::as_bool)`.
    pub fn get_bool(&self, key: &str) -> (res: Option<bool>)
        ensures
            res == opt_bool(spec_get(self@, key@)),
    {
        match self.get(key) {
            Some(v) => v.as_bool(),
            None => None,
        }
    }
}

/// Append a member to an object's members.
pub fn push_member(members: &mut Vec<(String, Json)>, key: &str, value: Json)
    ensures
        members_view(final(members)@) == members_view(old(members)@).push((key@, value@)),
{
    let ghost before = members@;
    members.push((key.to_string(), value));
    proof {
        lemma_members_view(before);
        lemma_members_view(members@);
        assert(members_view(members@) =~= members_view(before).push((key@, value@)));
    }
}

/// Append an item to an array's items.
pub fn push_item(items: &mut Vec<Json>, value: Json)
    ensures
        items_view(final(items)@) == items_view(old(items)@).push(value@),
{
    let ghost before = items@;
    items.push(value);
    proof {
        lemma_items_view(before);
        lemma_items_view(items@);
        assert(items_view(items@) =~= items_view(before).push(value@));
    }
}

/// No members.
pub proof fn lemma_members_view_empty(members: Seq<(String, Json)>)
    requires
        members.len() == 0,
    ensures
        members_view(members) == Seq::<(Seq<char>, JsonV)>::empty(),
{
}

/// No items.
pub proof fn lemma_items_view_empty(items: Seq<Json>)
    requires
        items.len() == 0,
    ensures
        items_view(items) == Seq::<JsonV>::empty(),
{
}

/// An object with one member.
pub fn object1(k: &str, v: Json) -> (res: Json)
    ensures
        res@ == JsonV::Object(seq![(k@, v@)]),
{
    let mut m: Vec<(String, Json)> = Vec::new();
    let ghost vv = v@;
    push_member(&mut m, k, v);
    assert(members_view(m@) =~= seq![(k@, vv)]);
    Json::Object(m)
}

/// An object with two members.
pub fn object2(k1: &str, v1: Json, k2: &str, v2: Json) -> (res: Json)
    ensures
        res@ == JsonV::Object(seq![(k1@, v1@), (k2@, v2@)]),
{
    let mut m: Vec<(String, Json)> = Vec::new();
    let ghost a = v1@;
    let ghost b = v2@;
    push_member(&mut m, k1, v1);
    push_member(&mut m, k2, v2);
    assert(members_view(m@) =~= seq![(k1@, a), (k2@, b)]);
    Json::Object(m)
}

/// An object with three members.
pub fn object3(k1: &str, v1: Json, k2: &str, v2: Json, k3: &str, v3: Json) -> (res: Json)
    ensures
        res@ == JsonV::Object(seq![(k1@, v1@), (k2@, v2@), (k3@, v3@)]),
{
    let mut m: Vec<(String, Json)> = Vec::new();
    let ghost a = v1@;
    let ghost b = v2@;
    let ghost c = v3@;
    push_member(&mut m, k1, v1);
    push_member(&mut m, k2, v2);
    push_member(&mut m, k3, v3);
    assert(members_view(m@) =~= seq![(k1@, a), (k2@, b), (k3@, c)]);
    Json::Object(m)
}

/// An object with four members.
pub fn object4(k1: &str, v1: Json, k2: &str, v2: Json, k3: &str, v3: Json, k4: &str, v4: Json) -> (res: Json)
    ensures
        res@ == JsonV::Object(seq![(k1@, v1@), (k2@, v2@), (k3@, v3@), (k4@, v4@)]),
{
    let mut m: Vec<(String, Json)> = Vec::new();
    let ghost a = v1@;
    let ghost b = v2@;
    let ghost c = v3@;
    let ghost d = v4@;
    push_member(&mut m, k1, v1);
    push_member(&mut m, k2, v2);
    push_member(&mut m, k3, v3);
    push_member(&mut m, k4, v4);
    assert(members_view(m@) =~= seq![(k1@, a), (k2@, b), (k3@, c), (k4@, d)]);
    Json::Object(m)
}

/// A JSON string holding `s`.
pub fn string_value(s: &str) -> (res: Json)
    ensures
        res@ == JsonV::String(s@),
{
    Json::String(s.to_string())
}

/// An array of one item.
pub fn array1(item: Json) -> (res: Json)
    ensures
        res@ == JsonV::Array(seq![item@]),
{
    let mut v: Vec<Json> = Vec::new();
    let ghost iv = item@;
    push_item(&mut v, item);
    assert(items_view(v@) =~= seq![iv]);
    Json::Array(v)
}

/// An array of the given items.
pub fn array_of(items: Vec<Json>) -> (res: Json)
    ensures
        res@ == JsonV::Array(items_view(items@)),
{
    Json::Array(items)
}

} // verus!
