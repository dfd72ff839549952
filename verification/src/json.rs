//! JSON documents of `serde_json`, and what the library assumes of them.

use serde_json::Value;
use vstd::prelude::*;

verus! {

/// A JSON document. Its contents are given by [`contents`].
#[verifier::external_type_specification]
#[verifier::external_body]
pub struct ExValue(serde_json::Value);

/// The reason why a text is not a JSON document.
#[verifier::external_type_specification]
#[verifier::external_body]
pub struct ExJsonError(serde_json::Error);

/// What a JSON document holds. A number is given by the text that `serde_json`
/// writes for it. The order of an object's fields is left out.
pub enum Json {
    Null,
    Bool(bool),
    Number(Seq<char>),
    Text(Seq<char>),
    Array(Seq<Json>),
    Object(Map<Seq<char>, Json>),
}

/// The contents of a JSON document.
pub uninterp spec fn contents(value: serde_json::Value) -> Json;

/// The document that a JSON text denotes, or `None` where the text is not valid
/// JSON. It is what [`serde_json::from_str`] finds.
pub uninterp spec fn parsed(text: Seq<char>) -> Option<Json>;

/// Fields may be assigned in a document that is an object or null.
pub open spec fn takes_fields(json: Json) -> bool {
    json is Object || json is Null
}

/// The fields of an object. Any other document has none.
pub open spec fn fields(json: Json) -> Map<Seq<char>, Json> {
    match json {
        Json::Object(map) => map,
        _ => Map::empty(),
    }
}

/// The contents of each document of a list.
pub open spec fn all_contents(list: Seq<serde_json::Value>) -> Seq<Json> {
    list.map_values(|v: serde_json::Value| contents(v))
}

/// `serde_json::Value::clone` (derived there) copies the document: the copy has the
/// same contents.
pub assume_specification[ <serde_json::Value as Clone>::clone ](value: &serde_json::Value) -> (res:
    serde_json::Value)
    ensures
        contents(res) == contents(*value),
;

/// [`serde_json::Value::as_bool`] returns the boolean that the document is, and
/// `None` for every other document.
pub assume_specification[ serde_json::Value::as_bool ](value: &serde_json::Value) -> (res: Option<
    bool,
>)
    ensures
        res == (match contents(*value) {
            Json::Bool(b) => Some(b),
            _ => None,
        }),
;

/// [`serde_json::Value::is_object`] tells whether the document is an object.
pub assume_specification[ serde_json::Value::is_object ](value: &serde_json::Value) -> (res: bool)
    ensures
        res == (contents(*value) is Object),
;

/// [`serde_json::Value::is_null`] tells whether the document is null.
pub assume_specification[ serde_json::Value::is_null ](value: &serde_json::Value) -> (res: bool)
    ensures
        res == (contents(*value) is Null),
;

/// [`serde_json::Value::get`] with a string: the field of that name where the
/// document is an object that has one, and `None` otherwise.
#[verifier::external_body]
pub(crate) fn get_field<'a>(value: &'a Value, key: &str) -> (res: Option<&'a Value>)
    ensures
        match res {
            Some(field) => fields(contents(*value)).contains_key(key@) && contents(*field)
                == fields(contents(*value))[key@],
            None => !fields(contents(*value)).contains_key(key@),
        },
{
    value.get(key)
}

/// Assignment through `IndexMut` of [`serde_json::Value`] with a string: the field is
/// inserted or replaced and the others stay. Null is treated as an empty object. On
/// any other document the assignment panics, so it is left out.
#[verifier::external_body]
pub(crate) fn set_field(value: &mut Value, key: &str, field: Value)
    requires
        takes_fields(contents(*old(value))),
    ensures
        contents(*final(value)) == Json::Object(
            fields(contents(*old(value))).insert(key@, contents(field)),
        ),
{
    value[key] = field;
}

/// The constructor `serde_json::Value::String`: a document that is the given text.
#[verifier::external_body]
pub(crate) fn string_value(text: String) -> (res: Value)
    ensures
        contents(res) == Json::Text(text@),
{
    Value::String(text)
}

/// The constructor `serde_json::Value::Array`: a document that holds the given ones
/// in order.
#[verifier::external_body]
pub(crate) fn array_value(items: Vec<Value>) -> (res: Value)
    ensures
        contents(res) == Json::Array(all_contents(items@)),
{
    Value::Array(items)
}

/// The constructor `serde_json::Value::Object` on [`serde_json::Map::new`]: an object
/// without fields.
#[verifier::external_body]
pub(crate) fn object_value() -> (res: Value)
    ensures
        contents(res) == Json::Object(Map::empty()),
{
    Value::Object(serde_json::Map::new())
}

/// [`serde_json::from_str`] into a [`serde_json::Value`]: the document that the text
/// denotes, or an error where it is not valid JSON. What the error says is left open.
#[verifier::external_body]
pub(crate) fn parse_document(text: &str) -> (res: Result<Value, serde_json::Error>)
    ensures
        match res {
            Ok(value) => parsed(text@) == Some(contents(value)),
            Err(_) => parsed(text@) is None,
        },
{
    serde_json::from_str::<Value>(text)
}

} // verus!
