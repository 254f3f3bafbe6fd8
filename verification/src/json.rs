//! JSON values, built with `serde_json`.
//!
//! The values themselves are opaque here. What they hold is named by
//! [`json_of`] and [`members_of`], and nothing is known of these two but what
//! the functions of this module state of the values that they build. None of
//! these functions is verified: each states what the function of
//! `serde_json` that it calls is documented to do.
use vstd::prelude::*;

verus! {

#[verifier::external_type_specification]
#[verifier::external_body]
pub struct ExValue(serde_json::Value);

#[verifier::external_type_specification]
#[verifier::external_body]
#[verifier::reject_recursive_types(K)]
#[verifier::reject_recursive_types(V)]
pub struct ExMap<K, V>(serde_json::Map<K, V>);

/// A JSON document as a mathematical value.
pub ghost enum Json {
    Null,
    Bool(bool),
    Integer(int),
    Text(Seq<char>),
    Array(Seq<Json>),
    Object(Map<Seq<char>, Json>),
}

/// The document that a `serde_json::Value` holds: its variant, and what the
/// variant carries.
pub uninterp spec fn json_of(value: serde_json::Value) -> Json;

/// The members that a `serde_json::Map` holds, each under its key.
pub uninterp spec fn members_of(object: serde_json::Map<String, serde_json::Value>) -> Map<
    Seq<char>,
    Json,
>;

/// `serde_json::Value::from` on a `String`: the JSON string with the same
/// characters.
#[verifier::external_body]
pub(crate) fn text(s: String) -> (value: serde_json::Value)
    ensures
        json_of(value) == Json::Text(s@),
{
    serde_json::Value::from(s)
}

/// `serde_json::Value::from` on a `u32`: the JSON number with the same value.
#[verifier::external_body]
pub(crate) fn integer(n: u32) -> (value: serde_json::Value)
    ensures
        json_of(value) == Json::Integer(n as int),
{
    serde_json::Value::from(n)
}

/// `serde_json::Value::Array` on a vector of values: the JSON array of the
/// same documents in the same order.
#[verifier::external_body]
pub(crate) fn array(items: Vec<serde_json::Value>) -> (value: serde_json::Value)
    ensures
        json_of(value) == Json::Array(Seq::new(items@.len(), |i: int| json_of(items@[i]))),
{
    serde_json::Value::Array(items)
}

/// `serde_json::Value::Object` on a map: the JSON object with the same
/// members.
#[verifier::external_body]
pub(crate) fn object(fields: serde_json::Map<String, serde_json::Value>) -> (value: serde_json::Value)
    ensures
        json_of(value) == Json::Object(members_of(fields)),
{
    serde_json::Value::Object(fields)
}

/// The members of an object that has none.
pub open spec fn no_members() -> Map<Seq<char>, Json> {
    Map::empty()
}

/// `serde_json::Map::new`: a map without members.
#[verifier::external_body]
pub(crate) fn members() -> (fields: serde_json::Map<String, serde_json::Value>)
    ensures
        members_of(fields) == no_members(),
{
    serde_json::Map::new()
}

/// `serde_json::Map::insert`: afterwards the map holds `value` under `key`,
/// in place of what it held there, and its other members as before.
#[verifier::external_body]
pub(crate) fn insert(
    fields: &mut serde_json::Map<String, serde_json::Value>,
    key: String,
    value: serde_json::Value,
)
    ensures
        members_of(*final(fields)) == members_of(*old(fields)).insert(key@, json_of(value)),
{
    fields.insert(key, value);
}

} // verus!
