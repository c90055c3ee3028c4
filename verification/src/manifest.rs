//! Cargo manifests as the scanner reads them: a `toml::Value` document seen
//! through a plain model of what it holds.
use vstd::prelude::*;

verus! {

#[verifier::external_type_specification]
#[verifier::external_body]
pub struct ExTomlValue(toml::Value);

/// What a TOML value holds, as far as manifest inspection reads it.
pub enum TomlView {
    Str(Seq<char>),
    Bool(bool),
    Table(Map<Seq<char>, TomlView>),
    /// Integers, floats, date-times and arrays: never read by the scanner.
    Other,
}

/// The contents of a TOML value.
pub uninterp spec fn toml_view(v: toml::Value) -> TomlView;

/// The document that `toml::from_str` reads from `text`, or `None` when the
/// text is not a valid TOML document.
pub uninterp spec fn toml_document(text: Seq<char>) -> Option<TomlView>;

/// Entry `key` of a table; `None` for a missing key or a value that is not a table.
pub open spec fn view_get(v: TomlView, key: Seq<char>) -> Option<TomlView> {
    match v {
        TomlView::Table(m) => if m.contains_key(key) {
            Some(m[key])
        } else {
            None
        },
        _ => None,
    }
}

/// `view_get` lifted to optional values.
pub open spec fn opt_get(v: Option<TomlView>, key: Seq<char>) -> Option<TomlView> {
    match v {
        Some(x) => view_get(x, key),
        None => None,
    }
}

/// The string held by an optional value, if it is a string.
pub open spec fn opt_str(v: Option<TomlView>) -> Option<Seq<char>> {
    match v {
        Some(TomlView::Str(s)) => Some(s),
        _ => None,
    }
}

pub open spec fn opt_value_view(r: Option<&toml::Value>) -> Option<TomlView> {
    match r {
        Some(x) => Some(toml_view(*x)),
        None => None,
    }
}

/// `toml::from_str::<toml::Table>`, the whole document as a table value.
#[verifier::external_body]
pub(crate) fn parse_toml_document(text: &str) -> (r: Result<toml::Value, String>)
    ensures
        r is Ok <==> toml_document(text@) is Some,
        r matches Ok(v) ==> Some(toml_view(v)) == toml_document(text@) && toml_view(v) is Table,
{
    match toml::from_str::<toml::Table>(text) {
        Ok(table) => Ok(toml::Value::Table(table)),
        Err(error) => Err(error.to_string()),
    }
}

/// `toml::Value::get` with a string key.
#[verifier::external_body]
pub(crate) fn toml_get<'a>(v: &'a toml::Value, key: &str) -> (r: Option<&'a toml::Value>)
    ensures
        opt_value_view(r) == view_get(toml_view(*v), key@),
{
    v.get(key)
}

/// `toml::Value::as_str`, copied out.
#[verifier::external_body]
pub(crate) fn toml_as_str(v: &toml::Value) -> (r: Option<String>)
    ensures
        match r {
            Some(s) => toml_view(*v) == TomlView::Str(s@),
            None => !(toml_view(*v) is Str),
        },
{
    v.as_str().map(|s| s.to_string())
}

/// `toml::Value::as_bool`.
#[verifier::external_body]
pub(crate) fn toml_as_bool(v: &toml::Value) -> (r: Option<bool>)
    ensures
        match r {
            Some(b) => toml_view(*v) == TomlView::Bool(b),
            None => !(toml_view(*v) is Bool),
        },
{
    v.as_bool()
}

/// The keys of a table value (`toml::Table::keys`), or `None` for any other value.
#[verifier::external_body]
pub(crate) fn toml_table_keys(v: &toml::Value) -> (r: Option<Vec<String>>)
    ensures
        r is Some <==> toml_view(*v) is Table,
        r matches Some(keys) ==> {
            let m = toml_view(*v)->Table_0;
            &&& forall|i: int| 0 <= i < keys@.len() ==> m.contains_key(#[trigger] keys@[i]@)
            &&& forall|k: Seq<char>| #[trigger] m.contains_key(k) ==> exists|i: int|
                0 <= i < keys@.len() && keys@[i]@ == k
        },
{
    v.as_table().map(|table| table.keys().cloned().collect())
}

} // verus!
