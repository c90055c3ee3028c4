//! JSON documents (`serde_json::Value`) seen through a plain model of what
//! they hold: the configuration file is read and written through it.
use vstd::prelude::*;

verus! {

#[verifier::external_type_specification]
#[verifier::external_body]
pub struct ExJsonValue(serde_json::Value);

/// What a JSON value holds.
pub enum JsonView {
    Null,
    Bool(bool),
    /// A number that `as_u64` reads: a non-negative integer up to `u64::MAX`.
    UInt(u64),
    /// Any other number (negative, fractional, or too large).
    OtherNumber,
    Str(Seq<char>),
    Array(Seq<JsonView>),
    /// An object: its entries, and its keys in the order the object holds
    /// them (serde_json is built with `preserve_order`, so an object keeps
    /// the order its entries were read or inserted in).
    Object(Map<Seq<char>, JsonView>, Seq<Seq<char>>),
}

/// The contents of a JSON value.
pub uninterp spec fn json_view(v: serde_json::Value) -> JsonView;

/// The value that `serde_json::from_str` reads from `text`, or `None` when
/// the text is not valid JSON.
pub uninterp spec fn json_document(text: Seq<char>) -> Option<JsonView>;

/// The message of the error that `serde_json::from_str` gives for `text`
/// (what went wrong, with its line and column).
pub uninterp spec fn json_error_text(text: Seq<char>) -> Seq<char>;

/// The text that `serde_json::to_string_pretty` writes for a value.
pub uninterp spec fn json_pretty_text(v: JsonView) -> Seq<char>;

pub open spec fn json_views(s: Seq<serde_json::Value>) -> Seq<JsonView> {
    s.map_values(|x: serde_json::Value| json_view(x))
}

/// Entry `key` of an object; `None` for a missing key or a value that is not an object.
pub open spec fn json_field(v: JsonView, key: Seq<char>) -> Option<JsonView> {
    match v {
        JsonView::Object(m, _) => if m.contains_key(key) {
            Some(m[key])
        } else {
            None
        },
        _ => None,
    }
}

pub open spec fn opt_json_view(r: Option<&serde_json::Value>) -> Option<JsonView> {
    match r {
        Some(x) => Some(json_view(*x)),
        None => None,
    }
}

/// `serde_json::from_str::<serde_json::Value>`.
#[verifier::external_body]
pub(crate) fn parse_json(text: &str) -> (r: Result<serde_json::Value, String>)
    ensures
        r is Ok <==> json_document(text@) is Some,
        r matches Ok(v) ==> Some(json_view(v)) == json_document(text@),
        r matches Err(e) ==> e@ == json_error_text(text@),
{
    serde_json::from_str::<serde_json::Value>(text).map_err(|error| error.to_string())
}

/// A JSON value without fractional, negative or oversized numbers.
pub open spec fn scalar_json(v: JsonView) -> bool {
    v is Null || v is Bool || v is UInt || v is Str
}

/// A scalar, or an array of scalars.
pub open spec fn shallow_json(v: JsonView) -> bool {
    scalar_json(v) || (v matches JsonView::Array(items) && forall|i: int|
        0 <= i < items.len() ==> scalar_json(#[trigger] items[i]))
}

/// An object whose entries are scalars or arrays of scalars, such as the
/// configuration document.
pub open spec fn flat_document(v: JsonView) -> bool {
    v matches JsonView::Object(m, _) && forall|k: Seq<char>| #[trigger] m.contains_key(k) ==> shallow_json(m[k])
}

/// `serde_json::to_string_pretty` of a value, which writes an object's
/// entries in the object's key order. For a flat document the
/// serializer cannot fail (keys are strings and integers are written
/// exactly), and `serde_json::from_str` reads the written text, followed by
/// a newline, back as the same value; nothing is stated of other values.
#[verifier::external_body]
pub(crate) fn json_to_pretty_string(v: &serde_json::Value) -> (r: Result<String, String>)
    ensures
        r is Ok || !flat_document(json_view(*v)),
        r matches Ok(s) ==> (flat_document(json_view(*v)) ==> s@ == json_pretty_text(json_view(*v))),
        r matches Ok(s) ==> (flat_document(json_view(*v)) ==> json_document(s@ + "\n"@) == Some(json_view(*v))),
{
    serde_json::to_string_pretty(v).map_err(|error| error.to_string())
}

/// `serde_json::Value::get` with a string key.
#[verifier::external_body]
pub(crate) fn json_get<'a>(v: &'a serde_json::Value, key: &str) -> (r: Option<&'a serde_json::Value>)
    ensures
        opt_json_view(r) == json_field(json_view(*v), key@),
{
    v.get(key)
}

/// `serde_json::Value::as_str`, copied out.
#[verifier::external_body]
pub(crate) fn json_as_str(v: &serde_json::Value) -> (r: Option<String>)
    ensures
        match r {
            Some(s) => json_view(*v) == JsonView::Str(s@),
            None => !(json_view(*v) is Str),
        },
{
    v.as_str().map(|s| s.to_string())
}

/// `serde_json::Value::as_u64`.
#[verifier::external_body]
pub(crate) fn json_as_u64(v: &serde_json::Value) -> (r: Option<u64>)
    ensures
        match r {
            Some(n) => json_view(*v) == JsonView::UInt(n),
            None => !(json_view(*v) is UInt),
        },
{
    v.as_u64()
}

/// `serde_json::Value::as_array`.
#[verifier::external_body]
pub(crate) fn json_as_array(v: &serde_json::Value) -> (r: Option<&Vec<serde_json::Value>>)
    ensures
        match r {
            Some(items) => json_view(*v) == JsonView::Array(json_views(items@)),
            None => !(json_view(*v) is Array),
        },
{
    v.as_array()
}

/// The keys of an object value (`serde_json::Map::keys`), in the object's
/// key order, or `None` for any other value.
#[verifier::external_body]
pub(crate) fn json_object_keys(v: &serde_json::Value) -> (r: Option<Vec<String>>)
    ensures
        r is Some <==> json_view(*v) is Object,
        r matches Some(keys) ==> keys@.map_values(|k: String| k@) == json_view(*v)->Object_1,
        r matches Some(keys) ==> {
            let m = json_view(*v)->Object_0;
            &&& forall|i: int| 0 <= i < keys@.len() ==> m.contains_key(#[trigger] keys@[i]@)
            &&& forall|k: Seq<char>| #[trigger] m.contains_key(k) ==> exists|i: int|
                0 <= i < keys@.len() && keys@[i]@ == k
        },
{
    v.as_object().map(|map| map.keys().cloned().collect())
}

/// `serde_json::Value::String`.
#[verifier::external_body]
pub(crate) fn json_string(s: String) -> (r: serde_json::Value)
    ensures
        json_view(r) == JsonView::Str(s@),
{
    serde_json::Value::String(s)
}

/// `serde_json::Value::from` an unsigned integer.
#[verifier::external_body]
pub(crate) fn json_u64(n: u64) -> (r: serde_json::Value)
    ensures
        json_view(r) == JsonView::UInt(n),
{
    serde_json::Value::from(n)
}

/// `serde_json::Value::Array`.
#[verifier::external_body]
pub(crate) fn json_array(items: Vec<serde_json::Value>) -> (r: serde_json::Value)
    ensures
        json_view(r) == JsonView::Array(json_views(items@)),
{
    serde_json::Value::Array(items)
}

/// The keys of a list of entries, in order.
pub open spec fn entry_keys(pairs: Seq<(String, serde_json::Value)>) -> Seq<Seq<char>> {
    pairs.map_values(|p: (String, serde_json::Value)| p.0@)
}

/// An object value collected into a `serde_json::Map`, one entry per pair;
/// the map keeps the pairs' order.
#[verifier::external_body]
pub(crate) fn json_object(pairs: Vec<(String, serde_json::Value)>) -> (r: serde_json::Value)
    requires
        forall|i: int, j: int| 0 <= i < j < pairs@.len() ==> pairs@[i].0@ != pairs@[j].0@,
    ensures
        json_view(r) is Object,
        json_view(r)->Object_1 == entry_keys(pairs@),
        forall|i: int| 0 <= i < pairs@.len() ==> {
            &&& #[trigger] json_view(r)->Object_0.contains_key(pairs@[i].0@)
            &&& json_view(r)->Object_0[pairs@[i].0@] == json_view(pairs@[i].1)
        },
        forall|k: Seq<char>| #[trigger] json_view(r)->Object_0.contains_key(k) ==> exists|i: int|
            0 <= i < pairs@.len() && pairs@[i].0@ == k,
{
    serde_json::Value::Object(pairs.into_iter().collect())
}

} // verus!
