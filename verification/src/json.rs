//! A JSON document model held as plain values, with parsing and
//! serialization delegated to `serde_json`.

use vstd::prelude::*;

verus! {

/// A JSON number, kept as `serde_json` classifies it: a non-negative
/// integer, a negative integer, or any other number held as its JSON text.
#[derive(Debug)]
pub enum JsonNumber {
    PosInt(u64),
    NegInt(i64),
    Float(String),
}

/// A JSON value. An object holds its members as a list; one that comes
/// from parsing text holds them sorted by key, one name at most once (as
/// `serde_json`'s map keeps them), and a lookup takes the last member of a
/// name.
#[derive(Debug)]
pub enum JsonValue {
    Null,
    Bool(bool),
    Number(JsonNumber),
    Str(String),
    Array(Vec<JsonValue>),
    Object(Vec<(String, JsonValue)>),
}

/// Mathematical form of [`JsonNumber`].
pub enum NumberModel {
    PosInt(u64),
    NegInt(i64),
    Float(Seq<char>),
}

/// Mathematical form of [`JsonValue`].
pub enum JsonModel {
    Null,
    Bool(bool),
    Number(NumberModel),
    Str(Seq<char>),
    Array(Seq<JsonModel>),
    Object(Seq<(Seq<char>, JsonModel)>),
}

impl View for JsonNumber {
    type V = NumberModel;

    open spec fn view(&self) -> NumberModel {
        match self {
            JsonNumber::PosInt(u) => NumberModel::PosInt(*u),
            JsonNumber::NegInt(i) => NumberModel::NegInt(*i),
            JsonNumber::Float(s) => NumberModel::Float(s@),
        }
    }
}

/// Mathematical form of a JSON value.
pub open spec fn json_model(v: JsonValue) -> JsonModel
    decreases v,
{
    match v {
        JsonValue::Null => JsonModel::Null,
        JsonValue::Bool(b) => JsonModel::Bool(b),
        JsonValue::Number(n) => JsonModel::Number(n@),
        JsonValue::Str(s) => JsonModel::Str(s@),
        JsonValue::Array(a) => JsonModel::Array(
            Seq::new(
                a@.len(),
                |i: int|
                    if 0 <= i < a@.len() {
                        json_model(a@[i])
                    } else {
                        JsonModel::Null
                    },
            ),
        ),
        JsonValue::Object(m) => JsonModel::Object(
            Seq::new(
                m@.len(),
                |i: int|
                    if 0 <= i < m@.len() {
                        (m@[i].0@, json_model(m@[i].1))
                    } else {
                        (Seq::empty(), JsonModel::Null)
                    },
            ),
        ),
    }
}

impl View for JsonValue {
    type V = JsonModel;

    open spec fn view(&self) -> JsonModel {
        json_model(*self)
    }
}

/// The member of object entries `m` named `key`: the last one of that name,
/// as a map built from the entries in order would hold it.
pub open spec fn entries_get(m: Seq<(Seq<char>, JsonModel)>, key: Seq<char>) -> Option<JsonModel>
    decreases m.len(),
{
    if m.len() == 0 {
        None
    } else if m.last().0 == key {
        Some(m.last().1)
    } else {
        entries_get(m.drop_last(), key)
    }
}

/// `Value::get(key)`: the member `key` of an object; `None` for a non-object.
pub open spec fn json_get(v: JsonModel, key: Seq<char>) -> Option<JsonModel> {
    match v {
        JsonModel::Object(m) => entries_get(m, key),
        _ => None,
    }
}

/// `Value::as_str`.
pub open spec fn json_as_str(v: Option<JsonModel>) -> Option<Seq<char>> {
    match v {
        Some(JsonModel::Str(s)) => Some(s),
        _ => None,
    }
}

/// `Value::as_u64`.
pub open spec fn json_as_u64(v: Option<JsonModel>) -> Option<u64> {
    match v {
        Some(JsonModel::Number(NumberModel::PosInt(u))) => Some(u),
        Some(JsonModel::Number(NumberModel::NegInt(i))) => if i >= 0 {
            Some(i as u64)
        } else {
            None
        },
        _ => None,
    }
}

/// `Value::as_i64`.
pub open spec fn json_as_i64(v: Option<JsonModel>) -> Option<i64> {
    match v {
        Some(JsonModel::Number(NumberModel::PosInt(u))) => if u <= i64::MAX {
            Some(u as i64)
        } else {
            None
        },
        Some(JsonModel::Number(NumberModel::NegInt(i))) => Some(i),
        _ => None,
    }
}

/// `Value::as_bool`.
pub open spec fn json_as_bool(v: Option<JsonModel>) -> Option<bool> {
    match v {
        Some(JsonModel::Bool(b)) => Some(b),
        _ => None,
    }
}

/// `Value::as_array`.
pub open spec fn json_as_array(v: Option<JsonModel>) -> Option<Seq<JsonModel>> {
    match v {
        Some(JsonModel::Array(a)) => Some(a),
        _ => None,
    }
}

/// `Value::as_object` (the entries).
pub open spec fn json_as_object(v: Option<JsonModel>) -> Option<Seq<(Seq<char>, JsonModel)>> {
    match v {
        Some(JsonModel::Object(m)) => Some(m),
        _ => None,
    }
}

/// Equality of two string slices.
pub fn str_eq(a: &str, b: &str) -> (r: bool)
    ensures
        r == (a@ == b@),
{
    let ac = crate::text::chars_of(a);
    let bc = crate::text::chars_of(b);
    if ac.len() != bc.len() {
        return false;
    }
    let mut i: usize = 0;
    while i < ac.len()
        invariant
            ac@ == a@,
            bc@ == b@,
            ac@.len() == bc@.len(),
            i <= ac@.len(),
            forall|j: int| 0 <= j < i ==> ac@[j] == bc@[j],
        decreases ac@.len() - i,
    {
        if ac[i] != bc[i] {
            return false;
        }
        i = i + 1;
    }
    assert(ac@ =~= bc@);
    true
}

/// Mathematical form of a sequence of object members.
pub open spec fn model_entries(m: Seq<(String, JsonValue)>) -> Seq<(Seq<char>, JsonModel)> {
    Seq::new(m.len(), |i: int| (m[i].0@, m[i].1@))
}

/// Mathematical form of a sequence of values.
pub open spec fn model_items(a: Seq<JsonValue>) -> Seq<JsonModel> {
    Seq::new(a.len(), |i: int| a[i]@)
}

pub proof fn lemma_object_view(v: JsonValue)
    requires
        v is Object,
    ensures
        v@ == JsonModel::Object(model_entries(v->Object_0@)),
{
    let m = v->Object_0;
    assert(v@ is Object);
    let e = v@->Object_0;
    assert(e.len() == m@.len());
    assert forall|i: int| 0 <= i < e.len() implies e[i] == model_entries(m@)[i] by {
        assert(e[i] == (m@[i].0@, m@[i].1@));
    }
    assert(e =~= model_entries(m@));
}

pub proof fn lemma_array_view(v: JsonValue)
    requires
        v is Array,
    ensures
        v@ == JsonModel::Array(model_items(v->Array_0@)),
{
    let a = v->Array_0;
    assert(v@->Array_0 =~= model_items(a@));
}

/// The member named `key` among object members `m` (the last of that name).
pub fn entries_lookup<'a>(m: &'a Vec<(String, JsonValue)>, key: &str) -> (r: Option<&'a JsonValue>)
    ensures
        match r {
            Some(x) => entries_get(model_entries(m@), key@) == Some(x@),
            None => entries_get(model_entries(m@), key@) is None,
        },
{
    let ghost me = model_entries(m@);
    let mut i = m.len();
    assert(me.take(i as int) =~= me);
    while i > 0
        invariant
            i <= m@.len(),
            me == model_entries(m@),
            entries_get(me, key@) == entries_get(me.take(i as int), key@),
        decreases i,
    {
        i = i - 1;
        let ghost pre = me.take(i + 1);
        assert(pre.drop_last() =~= me.take(i as int));
        assert(pre.last() == me[i as int]);
        assert(me[i as int] == (m@[i as int].0@, m@[i as int].1@));
        if str_eq(m[i].0.as_str(), key) {
            assert(pre.last().0 == key@);
            return Some(&m[i].1);
        }
    }
    assert(me.take(0) =~= Seq::<(Seq<char>, JsonModel)>::empty());
    None
}

impl JsonValue {
    /// `Value::get`: the member named `key` when this is an object.
    pub fn get<'a>(&'a self, key: &str) -> (r: Option<&'a JsonValue>)
        ensures
            match r {
                Some(x) => json_get(self@, key@) == Some(x@),
                None => json_get(self@, key@) is None,
            },
    {
        match self {
            JsonValue::Object(m) => {
                proof {
                    lemma_object_view(*self);
                }
                entries_lookup(m, key)
            },
            _ => None,
        }
    }

    /// `Value::as_str`.
    pub fn as_str(&self) -> (r: Option<&str>)
        ensures
            match r {
                Some(s) => json_as_str(Some(self@)) == Some(s@),
                None => json_as_str(Some(self@)) is None,
            },
    {
        match self {
            JsonValue::Str(s) => Some(s.as_str()),
            _ => None,
        }
    }

    /// `Value::as_u64`.
    pub fn as_u64(&self) -> (r: Option<u64>)
        ensures
            r == json_as_u64(Some(self@)),
    {
        match self {
            JsonValue::Number(JsonNumber::PosInt(u)) => Some(*u),
            JsonValue::Number(JsonNumber::NegInt(i)) => if *i >= 0 {
                Some(*i as u64)
            } else {
                None
            },
            _ => None,
        }
    }

    /// `Value::as_i64`.
    pub fn as_i64(&self) -> (r: Option<i64>)
        ensures
            r == json_as_i64(Some(self@)),
    {
        match self {
            JsonValue::Number(JsonNumber::PosInt(u)) => if *u <= 0x7fff_ffff_ffff_ffffu64 {
                Some(*u as i64)
            } else {
                None
            },
            JsonValue::Number(JsonNumber::NegInt(i)) => Some(*i),
            _ => None,
        }
    }

    /// `Value::as_bool`.
    pub fn as_bool(&self) -> (r: Option<bool>)
        ensures
            r == json_as_bool(Some(self@)),
    {
        match self {
            JsonValue::Bool(b) => Some(*b),
            _ => None,
        }
    }

    /// `Value::as_array`.
    pub fn as_array(&self) -> (r: Option<&Vec<JsonValue>>)
        ensures
            match r {
                Some(a) => json_as_array(Some(self@)) == Some(model_items(a@)),
                None => json_as_array(Some(self@)) is None,
            },
    {
        match self {
            JsonValue::Array(a) => {
                proof {
                    lemma_array_view(*self);
                }
                Some(a)
            },
            _ => None,
        }
    }

    /// `Value::as_object` (its members).
    pub fn as_object(&self) -> (r: Option<&Vec<(String, JsonValue)>>)
        ensures
            match r {
                Some(m) => json_as_object(Some(self@)) == Some(model_entries(m@)),
                None => json_as_object(Some(self@)) is None,
            },
    {
        match self {
            JsonValue::Object(m) => {
                proof {
                    lemma_object_view(*self);
                }
                Some(m)
            },
            _ => None,
        }
    }
}


#[verifier::external_type_specification]
#[verifier::external_body]
pub struct ExSerdeJsonValue(serde_json::Value);

/// What `serde_json::from_str::<serde_json::Value>` makes of a text, in
/// this crate's model: `None` where it reports an error.
pub uninterp spec fn serde_json_parse(text: Seq<char>) -> Option<JsonModel>;

/// The compact text that `serde_json::to_string` writes for a value.
pub uninterp spec fn serde_json_text(v: JsonModel) -> Seq<char>;

impl JsonNumber {
    /// A copy of this number.
    pub fn duplicate(&self) -> (r: JsonNumber)
        ensures
            r@ == self@,
    {
        match self {
            JsonNumber::PosInt(u) => JsonNumber::PosInt(*u),
            JsonNumber::NegInt(i) => JsonNumber::NegInt(*i),
            JsonNumber::Float(t) => JsonNumber::Float(t.clone()),
        }
    }
}

impl JsonValue {
    /// A deep copy of this value.
    #[verifier::loop_isolation(false)]
    pub fn duplicate(&self) -> (r: JsonValue)
        ensures
            r@ == self@,
        decreases self,
    {
        match self {
            JsonValue::Null => JsonValue::Null,
            JsonValue::Bool(b) => JsonValue::Bool(*b),
            JsonValue::Number(n) => JsonValue::Number(n.duplicate()),
            JsonValue::Str(s) => JsonValue::Str(s.clone()),
            JsonValue::Array(a) => {
                let mut out: Vec<JsonValue> = Vec::new();
                let mut i: usize = 0;
                while i < a.len()
                    invariant
                        i <= a@.len(),
                        out@.len() == i,
                        forall|j: int| 0 <= j < i ==> #[trigger] out@[j]@ == a@[j]@,
                    decreases a@.len() - i,
                {
                    proof {
                        assert(decreases_to!(self => a));
                        assert(decreases_to!(a => a@));
                        assert(decreases_to!(a@ => a@[i as int]));
                    }
                    out.push(a[i].duplicate());
                    i = i + 1;
                }
                let r = JsonValue::Array(out);
                proof {
                    lemma_array_view(r);
                    lemma_array_view(*self);
                    assert(model_items(out@) =~= model_items(a@));
                }
                r
            },
            JsonValue::Object(m) => {
                let mut out: Vec<(String, JsonValue)> = Vec::new();
                let mut i: usize = 0;
                while i < m.len()
                    invariant
                        i <= m@.len(),
                        out@.len() == i,
                        forall|j: int| 0 <= j < i ==> #[trigger] out@[j].0@ == m@[j].0@ && out@[j].1@ == m@[j].1@,
                    decreases m@.len() - i,
                {
                    proof {
                        assert(decreases_to!(self => m));
                        assert(decreases_to!(m => m@));
                        assert(decreases_to!(m@ => m@[i as int]));
                        assert(decreases_to!(m@[i as int] => m@[i as int].1));
                    }
                    let v = m[i].1.duplicate();
                    out.push((m[i].0.clone(), v));
                    i = i + 1;
                }
                let r = JsonValue::Object(out);
                proof {
                    lemma_object_view(r);
                    lemma_object_view(*self);
                    assert(model_entries(out@) =~= model_entries(m@));
                }
                r
            },
        }
    }
}

/// Converts a `serde_json::Value` into this crate's model, variant by variant.
#[verifier::external_body]
fn from_serde_value(v: serde_json::Value) -> JsonValue {
    match v {
        serde_json::Value::Null => JsonValue::Null,
        serde_json::Value::Bool(b) => JsonValue::Bool(b),
        serde_json::Value::Number(n) => JsonValue::Number(match (n.as_u64(), n.as_i64()) {
            (Some(u), _) => JsonNumber::PosInt(u),
            (None, Some(i)) => JsonNumber::NegInt(i),
            (None, None) => JsonNumber::Float(n.to_string()),
        }),
        serde_json::Value::String(s) => JsonValue::Str(s),
        serde_json::Value::Array(a) => JsonValue::Array(a.into_iter().map(from_serde_value).collect()),
        serde_json::Value::Object(m) => JsonValue::Object(m.into_iter().map(|e| (e.0, from_serde_value(e.1))).collect()),
    }
}

/// Converts this crate's model into a `serde_json::Value`, variant by variant.
#[verifier::external_body]
fn to_serde_value(v: &JsonValue) -> serde_json::Value {
    match v {
        JsonValue::Null => serde_json::Value::Null,
        JsonValue::Bool(b) => serde_json::Value::Bool(*b),
        JsonValue::Number(JsonNumber::PosInt(u)) => serde_json::Value::from(*u),
        JsonValue::Number(JsonNumber::NegInt(i)) => serde_json::Value::from(*i),
        JsonValue::Number(JsonNumber::Float(t)) => serde_json::from_str(t).unwrap_or(serde_json::Value::Null),
        JsonValue::Str(s) => serde_json::Value::String(s.clone()),
        JsonValue::Array(a) => serde_json::Value::Array(a.iter().map(to_serde_value).collect()),
        JsonValue::Object(m) => serde_json::Value::Object(m.iter().map(|e| (e.0.clone(), to_serde_value(&e.1))).collect()),
    }
}

/// Calls `serde_json::from_str::<serde_json::Value>`; the result, converted
/// to this crate's model, is what [`serde_json_parse`] names.
#[verifier::external_body]
pub(crate) fn parse_json(text: &str) -> (r: Option<JsonValue>)
    ensures
        match r {
            Some(v) => serde_json_parse(text@) == Some(v@),
            None => serde_json_parse(text@) is None,
        },
{
    serde_json::from_str::<serde_json::Value>(text).ok().map(from_serde_value)
}

/// Calls `serde_json::to_string` on the value converted to a
/// `serde_json::Value`; the text is what [`serde_json_text`] names.
/// (`serde_json` reports no error for a `Value`.)
#[verifier::external_body]
pub(crate) fn json_to_string(v: &JsonValue) -> (r: String)
    ensures
        r@ == serde_json_text(v@),
{
    serde_json::to_string(&to_serde_value(v)).unwrap_or_default()
}

} // verus!
