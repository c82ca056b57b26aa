//! JSON values as the hub sees them.
//!
//! Messages travel through the hub as `serde_json::Value`. Verus cannot look
//! inside such a value, so this module gives every value a mathematical
//! meaning, [`json_of`], and states over it what each `serde_json` call used
//! by the hub returns. Nothing in this module is proved: the contracts here
//! are the assumptions that the rest of the crate rests on.
use vstd::prelude::*;

verus! {

/// The mathematical content of a JSON value.
pub ghost enum Json {
    Null,
    Bool(bool),
    /// A number, kept as the text that stands for it.
    Number(Seq<char>),
    String(Seq<char>),
    Array(Seq<Json>),
    Object(Map<Seq<char>, Json>),
}

#[verifier::external_type_specification]
#[verifier::external_body]
pub struct ExValue(serde_json::Value);

#[verifier::external_type_specification]
#[verifier::external_body]
pub struct ExJsonError(serde_json::Error);

/// What a `serde_json::Value` holds.
pub uninterp spec fn json_of(value: serde_json::Value) -> Json;

/// What `Value::from_str` makes of a text: the value it parses to, or `None`
/// where it reports an error.
pub uninterp spec fn parsed_json(text: Seq<char>) -> Option<Json>;

/// The text that `Value::to_string` writes for a value with this content.
pub uninterp spec fn json_text(json: Json) -> Seq<char>;

/// The members of an object; a value that is no object has none.
pub open spec fn members(json: Json) -> Map<Seq<char>, Json> {
    match json {
        Json::Object(m) => m,
        _ => Map::empty(),
    }
}

/// The member under `key`, or `Null` where there is none.
pub open spec fn member(json: Json, key: Seq<char>) -> Json {
    if members(json).contains_key(key) {
        members(json)[key]
    } else {
        Json::Null
    }
}

/// The text of a string value; `None` for every other value.
pub open spec fn text_of(json: Json) -> Option<Seq<char>> {
    match json {
        Json::String(s) => Some(s),
        _ => None,
    }
}

/// Whether a member can be set on the value: it is an object, or `Null`,
/// which becomes an object on the first write.
pub open spec fn accepts_members(json: Json) -> bool {
    json is Object || json is Null
}

/// `Value::from_str`: the result is `Ok` exactly where the text parses, and
/// then holds the parsed value.
#[verifier::external_body]
pub(crate) fn parse(text: &str) -> (r: Result<serde_json::Value, serde_json::Error>)
    ensures
        match r {
            Ok(value) => parsed_json(text@) == Some(json_of(value)),
            Err(_) => parsed_json(text@) is None,
        },
{
    <serde_json::Value as std::str::FromStr>::from_str(text)
}

/// `Value::to_string`: the compact text of the value.
#[verifier::external_body]
pub(crate) fn render(value: &serde_json::Value) -> (r: String)
    ensures
        r@ == json_text(json_of(*value)),
{
    value.to_string()
}

/// Indexing a value by a string (`value[key]`): the member of an object under
/// that key; `Null` where the key is missing or the value is no object.
#[verifier::external_body]
pub(crate) fn get<'a>(value: &'a serde_json::Value, key: &str) -> (r: &'a serde_json::Value)
    ensures
        json_of(*r) == member(json_of(*value), key@),
{
    &value[key]
}

/// `Value::as_str`: the text of a string value, `None` for any other.
#[verifier::external_body]
pub(crate) fn as_text(value: &serde_json::Value) -> (r: Option<String>)
    ensures
        match r {
            Some(s) => text_of(json_of(*value)) == Some(s@),
            None => text_of(json_of(*value)) is None,
        },
{
    match value.as_str() {
        Some(text) => Some(text.to_owned()),
        None => None,
    }
}

/// Comparing a value with a string (`value == text`): true exactly of the
/// string value with that text.
#[verifier::external_body]
pub(crate) fn is_text(value: &serde_json::Value, text: &str) -> (r: bool)
    ensures
        r == (text_of(json_of(*value)) == Some(text@)),
{
    *value == *text
}

/// `Value::is_object`.
#[verifier::external_body]
pub(crate) fn is_object(value: &serde_json::Value) -> (r: bool)
    ensures
        r == (json_of(*value) is Object),
{
    value.is_object()
}

/// `Value::is_null`.
#[verifier::external_body]
pub(crate) fn is_null(value: &serde_json::Value) -> (r: bool)
    ensures
        r == (json_of(*value) is Null),
{
    value.is_null()
}

/// `Value::clone`: a value with the same content.
#[verifier::external_body]
pub(crate) fn copy(value: &serde_json::Value) -> (r: serde_json::Value)
    ensures
        json_of(r) == json_of(*value),
{
    value.clone()
}

/// `Value::from(String)`: the string value with that text.
#[verifier::external_body]
pub(crate) fn string(text: String) -> (r: serde_json::Value)
    ensures
        json_of(r) == Json::String(text@),
{
    serde_json::Value::from(text)
}

/// `Value::from(Vec<String>)`: the array of the string values, in order.
#[verifier::external_body]
pub(crate) fn strings(texts: Vec<String>) -> (r: serde_json::Value)
    ensures
        json_of(r) == Json::Array(Seq::new(texts@.len(), |i: int| Json::String(texts@[i]@))),
{
    serde_json::Value::from(texts)
}

/// `Value::from(Map::new())`: the object without members.
#[verifier::external_body]
pub(crate) fn object() -> (r: serde_json::Value)
    ensures
        json_of(r) == Json::Object(Map::empty()),
{
    serde_json::Value::from(serde_json::Map::new())
}

/// Assigning through a string index (`value[key] = member`): the value is
/// afterwards the object with the members it had and `member` under `key`.
/// The assignment panics on a value that is neither an object nor `Null`.
#[verifier::external_body]
pub(crate) fn set(value: &mut serde_json::Value, key: &str, member: serde_json::Value)
    requires
        accepts_members(json_of(*old(value))),
    ensures
        json_of(*final(value)) == Json::Object(
            members(json_of(*old(value))).insert(key@, json_of(member)),
        ),
{
    value[key] = member;
}

} // verus!
