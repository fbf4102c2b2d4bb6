//! JSON text read into a document: the reading itself is serde_json's; what a number stands for
//! as an integer is worked out here, from the text serde_json gives for it.

use vstd::prelude::*;
use crate::config_json::{lemma_array_model, lemma_object_model, members_model, JsonModel, JsonValue};
use crate::numbers::{decimal_below_zero, decimal_form, decimal_form_ok, below_zero, parse_decimal, parse_decimal_spec};
use crate::text::chars_of;

verus! {

/// A JSON document as read from text. A number keeps the decimal text serde_json prints for it
/// (an integer as written, any other number as the shortest text of its `f64`); an object keeps
/// its members in the order serde_json holds them.
#[derive(Debug)]
pub enum JsonRaw {
    Null,
    Bool(bool),
    Number(String),
    Str(String),
    Array(Vec<JsonRaw>),
    Object(Vec<(String, JsonRaw)>),
}

/// The mathematical value of a [`JsonRaw`].
pub enum JsonRawModel {
    Null,
    Bool(bool),
    Number(Seq<char>),
    Str(Seq<char>),
    Array(Seq<JsonRawModel>),
    Object(Seq<(Seq<char>, JsonRawModel)>),
}

pub open spec fn raw_model(v: JsonRaw) -> JsonRawModel
    decreases v,
{
    match v {
        JsonRaw::Null => JsonRawModel::Null,
        JsonRaw::Bool(b) => JsonRawModel::Bool(b),
        JsonRaw::Number(n) => JsonRawModel::Number(n@),
        JsonRaw::Str(s) => JsonRawModel::Str(s@),
        JsonRaw::Array(a) => JsonRawModel::Array(
            Seq::new(
                a@.len(),
                |i: int|
                    if 0 <= i < a@.len() {
                        raw_model(a@[i])
                    } else {
                        JsonRawModel::Null
                    },
            ),
        ),
        JsonRaw::Object(o) => JsonRawModel::Object(
            Seq::new(
                o@.len(),
                |i: int|
                    if 0 <= i < o@.len() {
                        (o@[i].0@, raw_model(o@[i].1))
                    } else {
                        (Seq::empty(), JsonRawModel::Null)
                    },
            ),
        ),
    }
}

impl View for JsonRaw {
    type V = JsonRawModel;

    open spec fn view(&self) -> JsonRawModel {
        raw_model(*self)
    }
}

pub proof fn lemma_raw_array(a: Vec<JsonRaw>)
    ensures
        JsonRaw::Array(a)@ == JsonRawModel::Array(Seq::new(a@.len(), |i: int| a@[i]@)),
{
    let x = Seq::new(a@.len(), |i: int| a@[i]@);
    match raw_model(JsonRaw::Array(a)) {
        JsonRawModel::Array(y) => {
            assert(x =~= y);
        },
        _ => {},
    }
}

pub proof fn lemma_raw_object(o: Vec<(String, JsonRaw)>)
    ensures
        JsonRaw::Object(o)@ == JsonRawModel::Object(Seq::new(o@.len(), |i: int| (o@[i].0@, o@[i].1@))),
{
    let x = Seq::new(o@.len(), |i: int| (o@[i].0@, o@[i].1@));
    match raw_model(JsonRaw::Object(o)) {
        JsonRawModel::Object(y) => {
            assert(x =~= y);
        },
        _ => {},
    }
}

/// What serde_json reads from a text: `None` unless the text is one JSON document; each number
/// as the decimal text serde_json prints for it.
pub uninterp spec fn json_document(text: Seq<char>) -> Option<JsonRawModel>;

/// `serde_json::from_str::<serde_json::Value>`, converted variant by variant into a
/// [`JsonRaw`]: numbers as `Number`'s `Display` text, and every array item or member value read
/// the same way from its own JSON text. Its result is the name `json_document` of the text.
#[verifier::external_body]
pub(crate) fn parse_json(text: &str) -> (r: Option<JsonRaw>)
    ensures
        match r {
            Some(v) => json_document(text@) == Some(v@),
            None => json_document(text@) is None,
        },
{
    let v: serde_json::Value = serde_json::from_str(text).ok()?;
    let item = |x: &serde_json::Value| parse_json(&x.to_string()).unwrap_or(JsonRaw::Null);
    Some(match v {
        serde_json::Value::Null => JsonRaw::Null,
        serde_json::Value::Bool(b) => JsonRaw::Bool(b),
        serde_json::Value::Number(n) => JsonRaw::Number(n.to_string()),
        serde_json::Value::String(s) => JsonRaw::Str(s),
        serde_json::Value::Array(a) => JsonRaw::Array(a.iter().map(item).collect()),
        serde_json::Value::Object(m) => JsonRaw::Object(m.iter().map(|(k, x)| (k.clone(), item(x))).collect()),
    })
}

/// The integer a JSON number gives a config field: an integer as is; any other number
/// truncated toward zero, saturating at the `i64` range (what `as_i64`, else `as_f64` then
/// `as i64`, yields). Text that is no number gives 0.
pub open spec fn json_int_spec(t: Seq<char>) -> i64 {
    match parse_decimal_spec(t, 0) {
        Some(v) => v,
        None => if decimal_form_ok(t) {
            if decimal_below_zero(t) {
                i64::MIN
            } else {
                i64::MAX
            }
        } else {
            0
        },
    }
}

/// See [`json_int_spec`].
pub fn json_int(t: &str) -> (r: i64)
    ensures
        r == json_int_spec(t@),
{
    let v = chars_of(t);
    match parse_decimal(&v, 0) {
        Some(x) => x,
        None => if decimal_form(&v) {
            if below_zero(&v) {
                i64::MIN
            } else {
                i64::MAX
            }
        } else {
            0
        },
    }
}

/// The document as the config reader reads it: every number as its [`json_int_spec`].
pub open spec fn lower_spec(m: JsonRawModel) -> JsonModel
    decreases m,
{
    match m {
        JsonRawModel::Null => JsonModel::Null,
        JsonRawModel::Bool(b) => JsonModel::Bool(b),
        JsonRawModel::Number(t) => JsonModel::Number(json_int_spec(t)),
        JsonRawModel::Str(s) => JsonModel::Str(s),
        JsonRawModel::Array(a) => JsonModel::Array(
            Seq::new(
                a.len(),
                |i: int|
                    if 0 <= i < a.len() {
                        lower_spec(a[i])
                    } else {
                        JsonModel::Null
                    },
            ),
        ),
        JsonRawModel::Object(o) => JsonModel::Object(
            Seq::new(
                o.len(),
                |i: int|
                    if 0 <= i < o.len() {
                        (o[i].0, lower_spec(o[i].1))
                    } else {
                        (Seq::empty(), JsonModel::Null)
                    },
            ),
        ),
    }
}

/// See [`lower_spec`].
pub fn lower(v: &JsonRaw) -> (r: JsonValue)
    ensures
        r@ == lower_spec(v@),
    decreases v,
{
    match v {
        JsonRaw::Null => {
            let r = JsonValue::Null;
            assert(r@ == lower_spec(v@));
            r
        },
        JsonRaw::Bool(b) => {
            let r = JsonValue::Bool(*b);
            assert(r@ == lower_spec(v@));
            r
        },
        JsonRaw::Number(t) => {
            let r = JsonValue::Number(json_int(t.as_str()));
            assert(r@ == lower_spec(v@));
            r
        },
        JsonRaw::Str(s) => {
            let r = JsonValue::Str(s.clone());
            assert(r@ == lower_spec(v@));
            r
        },
        JsonRaw::Array(items) => {
            let ghost src = Seq::new(items@.len(), |i: int| items@[i]@);
            proof {
                lemma_raw_array(*items);
            }
            let mut out: Vec<JsonValue> = Vec::new();
            let mut i: usize = 0;
            while i < items.len()
                invariant
                    i <= items.len(),
                    *v == JsonRaw::Array(*items),
                    out@.len() == i,
                    forall|j: int| 0 <= j < i ==> (#[trigger] out@[j])@ == lower_spec(items@[j]@),
                decreases items.len() - i,
            {
                proof {
                    assert(decreases_to!(*v => (*v)->Array_0));
                    assert(decreases_to!(*items => items@));
                    assert(decreases_to!(items@ => items@[i as int]));
                }
                let x = lower(&items[i]);
                out.push(x);
                i += 1;
            }
            proof {
                lemma_array_model(out);
                assert(v@ == JsonRawModel::Array(src));
                match lower_spec(v@) {
                    JsonModel::Array(b) => {
                        assert(Seq::new(out@.len(), |k: int| out@[k]@) =~= b);
                    },
                    _ => {},
                }
            }
            let r = JsonValue::Array(out);
            assert(r@ == lower_spec(v@));
            r
        },
        JsonRaw::Object(members) => {
            let ghost src = Seq::new(members@.len(), |i: int| (members@[i].0@, members@[i].1@));
            proof {
                lemma_raw_object(*members);
            }
            let mut out: Vec<(String, JsonValue)> = Vec::new();
            let mut i: usize = 0;
            while i < members.len()
                invariant
                    i <= members.len(),
                    *v == JsonRaw::Object(*members),
                    out@.len() == i,
                    forall|j: int|
                        0 <= j < i ==> (#[trigger] out@[j]).0@ == members@[j].0@ && out@[j].1@
                            == lower_spec(members@[j].1@),
                decreases members.len() - i,
            {
                proof {
                    assert(decreases_to!(*v => (*v)->Object_0));
                    assert(decreases_to!(*members => members@));
                    assert(decreases_to!(members@ => members@[i as int]));
                    assert(decreases_to!(members@[i as int] => members@[i as int].1));
                }
                let x = lower(&members[i].1);
                out.push((members[i].0.clone(), x));
                i += 1;
            }
            proof {
                lemma_object_model(out);
                assert(v@ == JsonRawModel::Object(src));
                match lower_spec(v@) {
                    JsonModel::Object(b) => {
                        assert(members_model(out@) =~= b);
                    },
                    _ => {},
                }
            }
            let r = JsonValue::Object(out);
            assert(r@ == lower_spec(v@));
            r
        },
    }
}

} // verus!
