//! What this library relies on from `serde_json`: JSON values and JSON objects
//! are kept as `serde_json` holds them, and read through the few operations
//! declared here.

use serde_json::Value;
use vstd::prelude::*;

verus! {

/// `serde_json::Value`, a JSON value of any shape. Its inside is read only
/// through [`value_as_object`] and [`value_as_str`].
#[verifier::external_type_specification]
#[verifier::external_body]
pub struct ExValue(serde_json::Value);

/// `serde_json::Map`, the map from keys to values that holds a JSON object.
#[verifier::external_type_specification]
#[verifier::external_body]
#[verifier::reject_recursive_types(K)]
#[verifier::reject_recursive_types(V)]
pub struct ExMap<K, V>(serde_json::Map<K, V>);

/// `Clone` for `serde_json::Map<String, Value>`: the copy is the same object,
/// entry for entry.
pub assume_specification[ <serde_json::Map<String, Value> as Clone>::clone ](
    object: &serde_json::Map<String, Value>,
) -> (copy: serde_json::Map<String, Value>)
    ensures
        copy == *object,
;

/// The entries of a JSON object, each key with its value, in the order in
/// which the object hands them out. No key stands in two entries.
pub uninterp spec fn object_entries(object: serde_json::Map<String, Value>) -> Seq<(Seq<char>, Value)>;

/// The object that a JSON value holds, if the value is an object.
pub uninterp spec fn object_of(value: Value) -> Option<serde_json::Map<String, Value>>;

/// The characters that a JSON value holds, if the value is a string.
pub uninterp spec fn string_of(value: Value) -> Option<Seq<char>>;

/// The value of the first entry of `entries` under `key`, if there is one.
pub open spec fn entries_lookup(entries: Seq<(Seq<char>, Value)>, key: Seq<char>) -> Option<Value>
    decreases entries.len(),
{
    if entries.len() == 0 {
        None
    } else if entries[0].0 == key {
        Some(entries[0].1)
    } else {
        entries_lookup(entries.drop_first(), key)
    }
}

/// `serde_json::Map::get`: the value that the object holds under `key`, or
/// `None` where it holds none. An object holds each key once, so this is the
/// value of the one entry with that key.
#[verifier::external_body]
pub(crate) fn object_get<'a>(object: &'a serde_json::Map<String, Value>, key: &str) -> (found: Option<&'a Value>)
    ensures
        match found {
            Some(value) => entries_lookup(object_entries(*object), key@) == Some(*value),
            None => entries_lookup(object_entries(*object), key@) is None,
        },
{
    object.get(key)
}

/// `serde_json::Map::iter`: every entry of the object in the object's own
/// order, the key copied and the value borrowed.
#[verifier::external_body]
pub(crate) fn object_iter<'a>(object: &'a serde_json::Map<String, Value>) -> (entries: Vec<(String, &'a Value)>)
    ensures
        entries@.len() == object_entries(*object).len(),
        forall|i: int|
            0 <= i < entries@.len() ==> (#[trigger] entries@[i]).0@ == object_entries(*object)[i].0
                && *entries@[i].1 == object_entries(*object)[i].1,
{
    object.iter().map(|(key, value)| (key.clone(), value)).collect()
}

/// `serde_json::Value::as_object`: the map inside the value where the value
/// is an object, `None` for every other shape.
#[verifier::external_body]
pub(crate) fn value_as_object<'a>(value: &'a Value) -> (object: Option<&'a serde_json::Map<String, Value>>)
    ensures
        match object {
            Some(map) => object_of(*value) == Some(*map),
            None => object_of(*value) is None,
        },
{
    value.as_object()
}

/// `serde_json::Value::as_str`: the text inside the value where the value is
/// a string, `None` for every other shape.
#[verifier::external_body]
pub(crate) fn value_as_str<'a>(value: &'a Value) -> (text: Option<&'a str>)
    ensures
        match text {
            Some(chars) => string_of(*value) == Some(chars@),
            None => string_of(*value) is None,
        },
{
    value.as_str()
}

} // verus!
