//! A plain-data model of JSON values, read through serde_json.
use vstd::prelude::*;
use crate::text::chars_of;
use crate::text::chars_eq;


verus! {

/// What a JSON value denotes, as mathematical data.
pub ghost enum JsonView {
    Null,
    Bool(bool),
    Number(Seq<char>),
    Str(Seq<char>),
    Array(Seq<JsonView>),
    /// Keys and values, position by position.
    Object(Seq<Seq<char>>, Seq<JsonView>),
}

/// A JSON value. Numbers keep their textual form; an object keeps its
/// entries in the order in which serde_json hands them out.
#[derive(Debug, PartialEq)]
pub enum JsonValue {
    Null,
    Bool(bool),
    Number(String),
    Str(String),
    Array(Vec<JsonValue>),
    Object(Vec<(String, JsonValue)>),
}

impl View for JsonValue {
    type V = JsonView;

    open spec fn view(&self) -> JsonView
        decreases self,
    {
        match self {
            JsonValue::Null => JsonView::Null,
            JsonValue::Bool(b) => JsonView::Bool(*b),
            JsonValue::Number(n) => JsonView::Number(n@),
            JsonValue::Str(s) => JsonView::Str(s@),
            JsonValue::Array(a) => JsonView::Array(
                Seq::new(a@.len(), |i: int| if 0 <= i < a@.len() { a@[i].view() } else { JsonView::Null }),
            ),
            JsonValue::Object(o) => JsonView::Object(
                Seq::new(o@.len(), |i: int| o@[i].0@),
                Seq::new(o@.len(), |i: int| if 0 <= i < o@.len() { o@[i].1.view() } else { JsonView::Null }),
            ),
        }
    }
}

} // verus!

verus! {

/// The value stored under `key`: the value at the first position whose key is `key`.
pub open spec fn lookup(keys: Seq<Seq<char>>, values: Seq<JsonView>, key: Seq<char>) -> Option<JsonView>
    decreases keys.len(),
{
    if keys.len() == 0 || values.len() == 0 {
        None
    } else if keys[0] == key {
        Some(values[0])
    } else {
        lookup(keys.drop_first(), values.drop_first(), key)
    }
}

/// `v[key]` when `v` is an object holding `key`; `None` otherwise.
pub open spec fn json_get(v: JsonView, key: Seq<char>) -> Option<JsonView> {
    match v {
        JsonView::Object(keys, values) => lookup(keys, values, key),
        _ => None,
    }
}

/// A found value is one of the values.
pub proof fn lemma_lookup_member(keys: Seq<Seq<char>>, values: Seq<JsonView>, key: Seq<char>)
    ensures
        lookup(keys, values, key) matches Some(v) ==> exists|i: int|
            0 <= i < values.len() && #[trigger] values[i] == v,
    decreases keys.len(),
{
    if keys.len() > 0 && values.len() > 0 && keys[0] != key {
        lemma_lookup_member(keys.drop_first(), values.drop_first(), key);
        if let Some(v) = lookup(keys, values, key) {
            let i = choose|i: int| 0 <= i < values.drop_first().len() && #[trigger] values.drop_first()[i] == v;
            assert(values[i + 1] == v);
        }
    }
}

impl JsonValue {
    /// The value under `key`, when `self` is an object that holds it.
    pub fn get(&self, key: &str) -> (r: Option<&JsonValue>)
        ensures
            match r {
                Some(x) => json_get(self@, key@) == Some(x@),
                None => json_get(self@, key@) is None,
            },
    {
        match self {
            JsonValue::Object(entries) => {
                let ghost ks = self@->Object_0;
                let ghost vs = self@->Object_1;
                assert(self@ == JsonView::Object(ks, vs));
                assert(ks.len() == entries@.len());
                let k = chars_of(key);
                assert(ks.skip(0) =~= ks);
                assert(vs.skip(0) =~= vs);
                let mut i: usize = 0;
                while i < entries.len()
                    invariant
                        0 <= i <= entries.len(),
                        self@ == JsonView::Object(ks, vs),
                        ks.len() == entries@.len(),
                        vs.len() == entries@.len(),
                        forall|j: int| 0 <= j < ks.len() ==> #[trigger] ks[j] == entries@[j].0@,
                        forall|j: int| 0 <= j < vs.len() ==> #[trigger] vs[j] == entries@[j].1@,
                        k@ == key@,
                        lookup(ks, vs, key@) == lookup(ks.skip(i as int), vs.skip(i as int), key@),
                    decreases entries.len() - i,
                {
                    let kk = chars_of(entries[i].0.as_str());
                    assert(ks.skip(i as int)[0] == ks[i as int]);
                    assert(vs.skip(i as int)[0] == vs[i as int]);
                    if chars_eq(&kk, &k) {
                        return Some(&entries[i].1);
                    }
                    assert(ks.skip(i as int).drop_first() =~= ks.skip(i + 1));
                    assert(vs.skip(i as int).drop_first() =~= vs.skip(i + 1));
                    i = i + 1;
                }
                None
            },
            _ => None,
        }
    }

    /// The text of a JSON string.
    pub fn as_str(&self) -> (r: Option<&str>)
        ensures
            match r {
                Some(s) => self@ == JsonView::Str(s@),
                None => !(self@ is Str),
            },
    {
        match self {
            JsonValue::Str(s) => Some(s.as_str()),
            _ => None,
        }
    }

    /// `self` is a JSON object.
    pub fn is_object(&self) -> (r: bool)
        ensures
            r == (self@ is Object),
    {
        match self {
            JsonValue::Object(_) => true,
            _ => false,
        }
    }
}

} // verus!

verus! {

/// The empty JSON object.
pub open spec fn empty_object() -> JsonView {
    JsonView::Object(Seq::empty(), Seq::empty())
}

impl JsonValue {
    /// An empty JSON object.
    pub fn new_object() -> (r: JsonValue)
        ensures
            r@ == empty_object(),
    {
        let r = JsonValue::Object(Vec::new());
        assert(r@->Object_0 =~= Seq::<Seq<char>>::empty());
        assert(r@->Object_1 =~= Seq::<JsonView>::empty());
        r
    }

    /// A copy of `self`, deep through arrays and objects.
    pub fn deep_copy(&self) -> (r: JsonValue)
        ensures
            r@ == self@,
        decreases self,
    {
        match self {
            JsonValue::Null => JsonValue::Null,
            JsonValue::Bool(b) => JsonValue::Bool(*b),
            JsonValue::Number(n) => JsonValue::Number(n.clone()),
            JsonValue::Str(s) => JsonValue::Str(s.clone()),
            JsonValue::Array(a) => {
                let mut out: Vec<JsonValue> = Vec::new();
                let mut i: usize = 0;
                while i < a.len()
                    invariant
                        0 <= i <= a.len(),
                        *self is Array,
                        self->Array_0 == *a,
                        out@.len() == i,
                        forall|j: int| 0 <= j < i ==> #[trigger] out@[j]@ == a@[j]@,
                    decreases a.len() - i,
                {
                    proof {
                        assert(decreases_to!(self => self->Array_0));
                        assert(decreases_to!(self->Array_0 => self->Array_0[i as int]));
                    }
                    let c = a[i].deep_copy();
                    out.push(c);
                    i = i + 1;
                }
                let r = JsonValue::Array(out);
                assert(r@ is Array);
                assert(self@ is Array);
                assert(r@->Array_0.len() == self@->Array_0.len());
                assert forall|j: int| 0 <= j < a@.len() implies r@->Array_0[j] == self@->Array_0[j] by {
                    assert(out@[j]@ == a@[j]@);
                }
                assert(r@->Array_0 =~= self@->Array_0);
                r
            },
            JsonValue::Object(o) => {
                let mut out: Vec<(String, JsonValue)> = Vec::new();
                let mut i: usize = 0;
                while i < o.len()
                    invariant
                        0 <= i <= o.len(),
                        *self is Object,
                        self->Object_0 == *o,
                        out@.len() == i,
                        forall|j: int| 0 <= j < i ==> #[trigger] out@[j].0@ == o@[j].0@,
                        forall|j: int| 0 <= j < i ==> #[trigger] out@[j].1@ == o@[j].1@,
                    decreases o.len() - i,
                {
                    let k = o[i].0.clone();
                    proof {
                        assert(decreases_to!(self => self->Object_0));
                        assert(decreases_to!(self->Object_0 => self->Object_0[i as int]));
                        assert(decreases_to!(self->Object_0[i as int] => self->Object_0[i as int].1));
                    }
                    let c = o[i].1.deep_copy();
                    out.push((k, c));
                    i = i + 1;
                }
                let r = JsonValue::Object(out);
                assert(r@->Object_0 =~= self@->Object_0);
                assert forall|j: int| 0 <= j < o@.len() implies r@->Object_1[j] == self@->Object_1[j] by {
                    assert(out@[j].1@ == o@[j].1@);
                }
                assert(r@->Object_1 =~= self@->Object_1);
                r
            },
        }
    }
}

/// What `serde_json::from_str::<serde_json::Value>` yields for a text, as a view;
/// `None` where it reports an error.
pub uninterp spec fn json_parse(text: Seq<char>) -> Option<JsonView>;

#[verifier::external_type_specification]
#[verifier::external_body]
pub struct ExSerdeJsonValue(serde_json::Value);

/// Turns a `serde_json::Value` into a `JsonValue`, one variant into the
/// variant of the same name, numbers by their `Display` text, arrays and
/// objects element by element in serde_json's iteration order.
#[verifier::external_body]
fn from_serde(v: serde_json::Value) -> JsonValue {
    match v {
        serde_json::Value::Null => JsonValue::Null,
        serde_json::Value::Bool(b) => JsonValue::Bool(b),
        serde_json::Value::Number(n) => JsonValue::Number(n.to_string()),
        serde_json::Value::String(s) => JsonValue::Str(s),
        serde_json::Value::Array(a) => JsonValue::Array(a.into_iter().map(from_serde).collect()),
        serde_json::Value::Object(m) => JsonValue::Object(m.into_iter().map(|(k, x)| (k, from_serde(x))).collect()),
    }
}

/// Turns a `JsonValue` back into a `serde_json::Value`, variant by
/// variant; a number by reading its text back with serde_json.
#[verifier::external_body]
fn to_serde(v: &JsonValue) -> serde_json::Value {
    match v {
        JsonValue::Null => serde_json::Value::Null,
        JsonValue::Bool(b) => serde_json::Value::Bool(*b),
        JsonValue::Number(n) => serde_json::from_str(n).unwrap_or(serde_json::Value::Null),
        JsonValue::Str(s) => serde_json::Value::String(s.clone()),
        JsonValue::Array(a) => serde_json::Value::Array(a.iter().map(to_serde).collect()),
        JsonValue::Object(o) => serde_json::Value::Object(o.iter().map(|(k, x)| (k.clone(), to_serde(x))).collect()),
    }
}

/// What `serde_json::Value::to_string` gives for a value: its compact JSON text.
pub uninterp spec fn json_text(v: JsonView) -> Seq<char>;

/// Writes a value as compact JSON text with serde_json's `to_string`.
/// Claimed: the result is `json_text` of the value. What `json_text` is
/// on a given value is not stated.
#[verifier::external_body]
pub(crate) fn to_json_text(v: &JsonValue) -> (r: String)
    ensures
        r@ == json_text(v@),
{
    to_serde(v).to_string()
}

impl JsonValue {
    /// The value as compact JSON text, as serde_json writes it.
    pub fn to_json_string(&self) -> (r: String)
        ensures
            r@ == json_text(self@),
    {
        to_json_text(self)
    }
}

/// Parses JSON text with `serde_json::from_str::<serde_json::Value>`.
/// Claimed: the result is `json_parse` of the text, `None` exactly when
/// serde_json reports an error. What `json_parse` is on given text is not stated.
#[verifier::external_body]
pub(crate) fn parse_json(text: &str) -> (r: Option<JsonValue>)
    ensures
        match r {
            Some(v) => json_parse(text@) == Some(v@),
            None => json_parse(text@) is None,
        },
{
    match serde_json::from_str::<serde_json::Value>(text) {
        Ok(v) => Some(from_serde(v)),
        Err(_) => None,
    }
}

} // verus!
