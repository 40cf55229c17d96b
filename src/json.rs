//! JSON values as serde_json holds them, and what the library reads of them.

use vstd::prelude::*;

verus! {

#[verifier::external_type_specification]
#[verifier::external_body]
pub struct ExValue(serde_json::Value);

#[verifier::external_type_specification]
#[verifier::external_body]
#[verifier::reject_recursive_types(K)]
#[verifier::reject_recursive_types(V)]
pub struct ExMap<K, V>(serde_json::Map<K, V>);

/// A JSON value as plain data. A number is kept as what it reads as an
/// unsigned 64-bit integer: `Some(n)` where serde_json holds it as the
/// unsigned integer `n`, `None` for a negative or fractional number.
pub enum JsonView {
    Null,
    Bool(bool),
    Number(Option<u64>),
    Str(Seq<char>),
    Array(Seq<JsonView>),
    Object(Map<Seq<char>, JsonView>),
}

/// The JSON value that a `serde_json::Value` holds.
pub uninterp spec fn json_view(v: serde_json::Value) -> JsonView;

/// The members of a JSON object that a `serde_json::Map` holds.
pub uninterp spec fn json_object_view(m: serde_json::Map<String, serde_json::Value>) -> Map<
    Seq<char>,
    JsonView,
>;

/// The value that serde_json parses out of a text, or none where it rejects
/// the text.
pub uninterp spec fn json_text(text: Seq<char>) -> Option<JsonView>;

/// Relies on `serde_json::from_str::<Value>`: parses a JSON text into a
/// value, or fails, with the error's message, when the text is not JSON.
#[verifier::external_body]
pub(crate) fn parse_json(text: &str) -> (r: Result<serde_json::Value, String>)
    ensures
        r is Ok <==> json_text(text@) is Some,
        r matches Ok(v) ==> json_text(text@) == Some(json_view(v)),
{
    serde_json::from_str::<serde_json::Value>(text).map_err(|e| e.to_string())
}

/// Relies on `Value::as_object`: the members when the value is an object.
#[verifier::external_body]
pub(crate) fn as_object(v: &serde_json::Value) -> (r: Option<&serde_json::Map<String, serde_json::Value>>)
    ensures
        r is Some <==> json_view(*v) is Object,
        r matches Some(m) ==> json_view(*v) == JsonView::Object(json_object_view(*m)),
{
    v.as_object()
}

/// Relies on `Map::len`: the number of members of an object.
#[verifier::external_body]
pub(crate) fn object_len(m: &serde_json::Map<String, serde_json::Value>) -> (r: usize)
    ensures
        r == json_object_view(*m).dom().len(),
{
    m.len()
}

/// Relies on `Map::get`: the member with the given name, if there is one.
#[verifier::external_body]
pub(crate) fn object_get<'a>(m: &'a serde_json::Map<String, serde_json::Value>, key: &str) -> (r: Option<
    &'a serde_json::Value,
>)
    ensures
        r is Some <==> json_object_view(*m).dom().contains(key@),
        r matches Some(x) ==> json_object_view(*m)[key@] == json_view(*x),
{
    m.get(key)
}

/// Relies on `Value::as_array`: the elements when the value is an array.
#[verifier::external_body]
pub(crate) fn as_array(v: &serde_json::Value) -> (r: Option<&Vec<serde_json::Value>>)
    ensures
        r is Some <==> json_view(*v) is Array,
        r matches Some(a) ==> json_view(*v) == JsonView::Array(
            a@.map_values(|x: serde_json::Value| json_view(x)),
        ),
{
    v.as_array()
}

/// Relies on `Value::as_u64`: the number as an unsigned 64-bit integer, when
/// the value is a number that is one.
#[verifier::external_body]
pub(crate) fn as_u64(v: &serde_json::Value) -> (r: Option<u64>)
    ensures
        json_view(*v) matches JsonView::Number(k) ==> r == k,
        !(json_view(*v) is Number) ==> r is None,
{
    v.as_u64()
}

/// Relies on `Value::as_str`: the text when the value is a string.
#[verifier::external_body]
pub(crate) fn as_str(v: &serde_json::Value) -> (r: Option<&str>)
    ensures
        r is Some <==> json_view(*v) is Str,
        r matches Some(s) ==> json_view(*v) == JsonView::Str(s@),
{
    v.as_str()
}

} // verus!
