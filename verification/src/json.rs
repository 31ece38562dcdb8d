//! JSON values as the library reads them: parsed by `serde_json`, then looked
//! into by verified code.

use vstd::prelude::*;
use vstd::string::*;

verus! {

/// A JSON value; a number is kept as its text, an object as its fields in
/// the order `serde_json` gives them.
pub enum JsonValue {
    Null,
    Bool(bool),
    Number(String),
    Str(String),
    Array(Vec<JsonValue>),
    Object(Vec<(String, JsonValue)>),
}

/// The abstract value of a JSON value, texts as character sequences.
pub ghost enum JsonView {
    Null,
    Bool(bool),
    Number(Seq<char>),
    Str(Seq<char>),
    Array(Seq<JsonView>),
    Object(Seq<Seq<char>>, Seq<JsonView>),
}

impl View for JsonValue {
    type V = JsonView;

    open spec fn view(&self) -> JsonView
        decreases self,
    {
        match self {
            JsonValue::Null => JsonView::Null,
            JsonValue::Bool(b) => JsonView::Bool(*b),
            JsonValue::Number(n) => JsonView::Number(n@),
            JsonValue::Str(s) => JsonView::Str(s@),
            JsonValue::Array(a) => JsonView::Array(
                Seq::new(
                    a.len() as nat,
                    |i: int|
                        if 0 <= i < a.len() {
                            a[i].view()
                        } else {
                            JsonView::Null
                        },
                ),
            ),
            JsonValue::Object(o) => JsonView::Object(
                Seq::new(o.len() as nat, |i: int| if 0 <= i < o.len() { o[i].0@ } else { Seq::empty() }),
                Seq::new(
                    o.len() as nat,
                    |i: int|
                        if 0 <= i < o.len() {
                            o[i].1.view()
                        } else {
                            JsonView::Null
                        },
                ),
            ),
        }
    }
}

/// The text of `serde_json::Value`, declared so that the parser's result can
/// pass through the library.
#[verifier::external_type_specification]
#[verifier::external_body]
pub struct ExSerdeJsonValue(serde_json::Value);

/// The JSON value a text denotes, or `None` when it is not JSON.
pub uninterp spec fn json_parsed(text: Seq<char>) -> Option<JsonView>;

/// The abstract value of an optional JSON value.
pub open spec fn opt_json(o: Option<JsonValue>) -> Option<JsonView> {
    match o {
        Some(v) => Some(v@),
        None => None,
    }
}

/// The abstract values of a list of JSON values.
pub open spec fn json_views(s: Seq<JsonValue>) -> Seq<JsonView> {
    Seq::new(s.len(), |i: int| s[i]@)
}

/// The same value as a library `JsonValue`, converted variant for variant.
///
/// Trusted: moves each field of the `serde_json::Value` into the matching
/// variant (a number by its `to_string` text, an object's fields in the
/// map's order). It has no contract of its own: it is the conversion step of
/// `parse_json`, whose contract covers the two together.
#[verifier::external_body]
fn json_from_serde(v: serde_json::Value) -> JsonValue {
    match v {
        serde_json::Value::Null => JsonValue::Null,
        serde_json::Value::Bool(b) => JsonValue::Bool(b),
        serde_json::Value::Number(n) => JsonValue::Number(n.to_string()),
        serde_json::Value::String(t) => JsonValue::Str(t),
        serde_json::Value::Array(a) => JsonValue::Array(a.into_iter().map(json_from_serde).collect()),
        serde_json::Value::Object(o) => JsonValue::Object(o.into_iter().map(|(k, x)| (k, json_from_serde(x))).collect()),
    }
}

/// The JSON value of a text, or `None` when it is not JSON.
///
/// Trusted: calls `serde_json::from_str` into a `serde_json::Value` and
/// converts it with `json_from_serde`; the result is named, as it depends on
/// the text alone.
#[verifier::external_body]
pub(crate) fn parse_json(text: &str) -> (r: Option<JsonValue>)
    ensures
        opt_json(r) == json_parsed(text@),
{
    serde_json::from_str::<serde_json::Value>(text).ok().map(json_from_serde)
}

/// Whether two texts are equal.
pub fn text_eq(a: &str, b: &str) -> (r: bool)
    ensures
        r == (a@ == b@),
{
    let n = a.unicode_len();
    if n != b.unicode_len() {
        return false;
    }
    let mut i: usize = 0;
    while i < n
        invariant
            n == a@.len(),
            n == b@.len(),
            i <= n,
            forall|j: int| 0 <= j < i ==> a@[j] == b@[j],
        decreases n - i,
    {
        if a.get_char(i) != b.get_char(i) {
            return false;
        }
        i = i + 1;
    }
    assert(a@ =~= b@);
    true
}

/// The elements of an array; any other value stands alone.
pub open spec fn json_items(v: JsonView) -> Seq<JsonView> {
    match v {
        JsonView::Array(a) => a,
        _ => seq![v],
    }
}

/// The value of the first field from position `i` on named `key`, the
/// fields' names being `keys` and their values `values`.
pub open spec fn field_from(keys: Seq<Seq<char>>, values: Seq<JsonView>, key: Seq<char>, i: int) -> Option<JsonView>
    decreases keys.len() - i,
{
    if i < 0 || i >= keys.len() {
        None
    } else if keys[i] == key {
        Some(values[i])
    } else {
        field_from(keys, values, key, i + 1)
    }
}

/// The field `key` of an object; nothing of any other value.
pub open spec fn json_field(v: JsonView, key: Seq<char>) -> Option<JsonView> {
    match v {
        JsonView::Object(keys, values) => field_from(keys, values, key, 0),
        _ => None,
    }
}

/// The text of a value that is a string.
pub open spec fn json_text(o: Option<JsonView>) -> Option<Seq<char>> {
    match o {
        Some(JsonView::Str(t)) => Some(t),
        _ => None,
    }
}

/// The abstract value of an optional reference to a JSON value.
pub open spec fn opt_ref_json(o: Option<&JsonValue>) -> Option<JsonView> {
    match o {
        Some(v) => Some(v@),
        None => None,
    }
}

/// The elements of an array, or the value itself as a list of one.
pub fn json_items_of(v: JsonValue) -> (r: Vec<JsonValue>)
    ensures
        json_views(r@) == json_items(v@),
{
    match v {
        JsonValue::Array(a) => {
            assert(json_views(a@) =~= json_items(JsonValue::Array(a)@));
            a
        },
        other => {
            let ghost w = other@;
            let r = vec![other];
            assert(json_views(r@) =~= seq![w]);
            r
        },
    }
}

/// The field `key` of an object; `None` for any other value.
pub fn json_get<'a>(v: &'a JsonValue, key: &str) -> (r: Option<&'a JsonValue>)
    ensures
        opt_ref_json(r) == json_field(v@, key@),
{
    match v {
        JsonValue::Object(fields) => {
            let ghost (ks, vs) = match v@ {
                JsonView::Object(ks, vs) => (ks, vs),
                _ => (Seq::empty(), Seq::empty()),
            };
            assert(v@ == JsonView::Object(ks, vs));
            assert(ks.len() == fields.len());
            assert(forall|j: int| 0 <= j < fields.len() ==> #[trigger] ks[j] == fields[j].0@ && vs[j] == fields[j].1@);
            let mut i: usize = 0;
            while i < fields.len()
                invariant
                    i <= fields.len(),
                    v@ == JsonView::Object(ks, vs),
                    ks.len() == fields.len(),
                    forall|j: int| 0 <= j < fields.len() ==> #[trigger] ks[j] == fields[j].0@ && vs[j] == fields[j].1@,
                    field_from(ks, vs, key@, 0) == field_from(ks, vs, key@, i as int),
                decreases fields.len() - i,
            {
                assert(ks[i as int] == fields[i as int].0@);
                if text_eq(fields[i].0.as_str(), key) {
                    assert(field_from(ks, vs, key@, i as int) == Some(vs[i as int]));
                    assert(vs[i as int] == fields[i as int].1@);
                    return Some(&fields[i].1);
                }
                i = i + 1;
            }
            None
        },
        _ => None,
    }
}

/// A copy of the text of a value that is a string.
pub fn json_string(v: Option<&JsonValue>) -> (r: Option<String>)
    ensures
        match r {
            Some(t) => json_text(opt_ref_json(v)) == Some(t@),
            None => json_text(opt_ref_json(v)) is None,
        },
{
    match v {
        Some(JsonValue::Str(t)) => Some(t.clone()),
        _ => None,
    }
}

} // verus!
