//! JSON objects, for request bodies and webhook payloads.
use vstd::prelude::*;

use crate::text::optional_text;

verus! {

/// A value of a JSON object.
pub enum JsonValue {
    Text(Seq<char>),
    Integer(int),
    Null,
}

/// A text, or null where there is none.
pub open spec fn text_or_null(text: Option<Seq<char>>) -> JsonValue {
    match text {
        Some(t) => JsonValue::Text(t),
        None => JsonValue::Null,
    }
}

/// The values of the crate serde_json.
#[verifier::external_type_specification]
#[verifier::external_body]
pub struct ExJsonValue(serde_json::Value);

/// The objects of the crate serde_json.
#[verifier::external_type_specification]
#[verifier::external_body]
#[verifier::reject_recursive_types(K)]
#[verifier::reject_recursive_types(V)]
pub struct ExJsonObject<K, V>(serde_json::Map<K, V>);

/// The fields of an object.
pub uninterp spec fn object_fields(
    object: serde_json::Map<String, serde_json::Value>,
) -> Map<Seq<char>, JsonValue>;

/// The compact JSON text of an object with the given fields.
pub uninterp spec fn json_text(fields: Map<Seq<char>, JsonValue>) -> Seq<char>;

/// The fields of an empty object.
pub open spec fn no_fields() -> Map<Seq<char>, JsonValue> {
    Map::empty()
}

/// `serde_json::Map::new`. Believed: the object has no fields.
#[verifier::external_body]
pub(crate) fn new_object() -> (res: serde_json::Map<String, serde_json::Value>)
    ensures
        object_fields(res) == no_fields(),
{
    serde_json::Map::new()
}

/// `serde_json::Map::insert` of a string. Believed: the field is set, whether or not it was
/// there, and the others are kept.
#[verifier::external_body]
pub(crate) fn put_text(
    object: &mut serde_json::Map<String, serde_json::Value>,
    key: &str,
    value: &str,
)
    ensures
        object_fields(*final(object)) == object_fields(*old(object)).insert(
            key@,
            JsonValue::Text(value@),
        ),
{
    object.insert(key.to_string(), serde_json::Value::from(value));
}

/// `serde_json::Map::insert` of an integer. Believed: as for a string.
#[verifier::external_body]
pub(crate) fn put_integer(
    object: &mut serde_json::Map<String, serde_json::Value>,
    key: &str,
    value: i64,
)
    ensures
        object_fields(*final(object)) == object_fields(*old(object)).insert(
            key@,
            JsonValue::Integer(value as int),
        ),
{
    object.insert(key.to_string(), serde_json::Value::from(value));
}

/// `serde_json::Map::insert` of null. Believed: as for a string.
#[verifier::external_body]
pub(crate) fn put_null(object: &mut serde_json::Map<String, serde_json::Value>, key: &str)
    ensures
        object_fields(*final(object)) == object_fields(*old(object)).insert(
            key@,
            JsonValue::Null,
        ),
{
    object.insert(key.to_string(), serde_json::Value::Null);
}

/// `Value::to_string` of an object. Believed: the text depends on the fields alone. The
/// object keeps them ordered by key, so the order in which they were set does not show.
#[verifier::external_body]
pub(crate) fn object_text(object: serde_json::Map<String, serde_json::Value>) -> (res: String)
    ensures
        res@ == json_text(object_fields(object)),
{
    serde_json::Value::Object(object).to_string()
}

/// Sets a field to a text, or to null where there is none.
pub(crate) fn put_optional_text(
    object: &mut serde_json::Map<String, serde_json::Value>,
    key: &str,
    value: &Option<String>,
)
    ensures
        object_fields(*final(object)) == object_fields(*old(object)).insert(
            key@,
            text_or_null(optional_text(*value)),
        ),
{
    match value {
        Some(text) => put_text(object, key, text.as_str()),
        None => put_null(object, key),
    }
}

} // verus!
