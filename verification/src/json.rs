//! JSON values and objects of `serde_json`, and what they hold.
//!
//! Both types stay opaque here. What a value or an object holds is given by
//! [`json`] and [`entries`], and the functions below that call `serde_json`
//! say over these two what each call does.
use vstd::prelude::*;

use crate::text::{optional_view, texts_view};

verus! {

/// `serde_json::Value`.
#[verifier::external_type_specification]
#[verifier::external_body]
pub struct ExValue(serde_json::Value);

/// `serde_json::Map`.
#[verifier::external_type_specification]
#[verifier::external_body]
#[verifier::reject_recursive_types(K)]
#[verifier::reject_recursive_types(V)]
pub struct ExMap<K, V>(serde_json::Map<K, V>);

/// A JSON document as a mathematical value.
pub enum Json {
    Null,
    Bool(bool),
    /// An integer that is not negative.
    Unsigned(u64),
    /// An integer below zero.
    Negative(i64),
    /// Any other number, by the bit pattern of its binary64 form.
    Float(u64),
    Text(Seq<char>),
    List(Seq<Json>),
    Object(Map<Seq<char>, Json>),
}

/// What a `serde_json` value holds.
pub uninterp spec fn json(value: serde_json::Value) -> Json;

/// What a `serde_json` object holds.
pub uninterp spec fn entries(
    object: serde_json::Map<String, serde_json::Value>,
) -> Map<Seq<char>, Json>;

/// What the optional value holds, if it is there.
pub open spec fn optional_json(value: Option<serde_json::Value>) -> Option<Json> {
    match value {
        Some(value) => Some(json(value)),
        None => None,
    }
}

/// What each value of a list holds.
pub open spec fn list_json(values: Seq<serde_json::Value>) -> Seq<Json> {
    values.map_values(|value: serde_json::Value| json(value))
}

/// The object `{}`.
pub open spec fn no_entries() -> Map<Seq<char>, Json> {
    Map::empty()
}

/// The entries with the key bound to the value, if there is one.
pub open spec fn with_optional(
    object: Map<Seq<char>, Json>,
    key: Seq<char>,
    value: Option<Json>,
) -> Map<Seq<char>, Json> {
    match value {
        Some(value) => object.insert(key, value),
        None => object,
    }
}

/// The text as a JSON string, if it is there.
pub open spec fn optional_text(text: Option<Seq<char>>) -> Option<Json> {
    match text {
        Some(text) => Some(Json::Text(text)),
        None => None,
    }
}

/// The number as a JSON number, if it is there.
pub open spec fn optional_unsigned(number: Option<u64>) -> Option<Json> {
    match number {
        Some(number) => Some(Json::Unsigned(number)),
        None => None,
    }
}

/// The texts as a JSON list of strings.
pub open spec fn text_list(texts: Seq<Seq<char>>) -> Json {
    Json::List(texts.map_values(|text: Seq<char>| Json::Text(text)))
}

/// Calls `serde_json::Map::new`, which makes an object without entries.
#[verifier::external_body]
pub(crate) fn new_object() -> (object: serde_json::Map<String, serde_json::Value>)
    ensures
        entries(object) == no_entries(),
{
    serde_json::Map::new()
}

/// Calls `serde_json::Map::insert`, which binds the key to the value, in
/// place of what it was bound to, and leaves every other key as it was.
#[verifier::external_body]
pub(crate) fn insert_value(
    object: &mut serde_json::Map<String, serde_json::Value>,
    key: String,
    value: serde_json::Value,
)
    ensures
        entries(*final(object)) == entries(*old(object)).insert(key@, json(value)),
{
    let _ = object.insert(key, value);
}

/// Calls `extend` on a `serde_json::Map`, which inserts each entry of the
/// other object: where both bind a key, the other object's value stays.
#[verifier::external_body]
pub(crate) fn extend_object(
    object: &mut serde_json::Map<String, serde_json::Value>,
    other: serde_json::Map<String, serde_json::Value>,
)
    ensures
        entries(*final(object)) == entries(*old(object)).union_prefer_right(entries(other)),
{
    object.extend(other);
}

/// Calls `serde_json::Map::get`, which finds the value that the key is bound
/// to, and nothing if it is not bound.
#[verifier::external_body]
pub(crate) fn get_value<'a>(
    object: &'a serde_json::Map<String, serde_json::Value>,
    key: &str,
) -> (found: Option<&'a serde_json::Value>)
    ensures
        found is Some <==> entries(*object).contains_key(key@),
        found is Some ==> json(*found->0) == entries(*object)[key@],
{
    object.get(key)
}

/// Makes a `serde_json::Value::String`, which holds the given text.
#[verifier::external_body]
pub(crate) fn text_value(text: String) -> (value: serde_json::Value)
    ensures
        json(value) == Json::Text(text@),
{
    serde_json::Value::String(text)
}

/// Calls `serde_json::Value::from` on a `u64`, which makes the JSON number
/// that is this integer.
#[verifier::external_body]
pub(crate) fn unsigned_value(number: u64) -> (value: serde_json::Value)
    ensures
        json(value) == Json::Unsigned(number),
{
    serde_json::Value::from(number)
}

/// Makes a `serde_json::Value::Object`, which holds the given object.
#[verifier::external_body]
pub(crate) fn object_value(
    object: serde_json::Map<String, serde_json::Value>,
) -> (value: serde_json::Value)
    ensures
        json(value) == Json::Object(entries(object)),
{
    serde_json::Value::Object(object)
}

/// Makes a `serde_json::Value::Array`, which holds the given values in order.
#[verifier::external_body]
pub(crate) fn list_value(values: Vec<serde_json::Value>) -> (value: serde_json::Value)
    ensures
        json(value) == Json::List(list_json(values@)),
{
    serde_json::Value::Array(values)
}

/// Tells a `serde_json::Value::Object` from the other kinds of value: the
/// object inside it, or else the value itself.
#[verifier::external_body]
pub(crate) fn into_object(
    value: serde_json::Value,
) -> (object: Result<serde_json::Map<String, serde_json::Value>, serde_json::Value>)
    ensures
        object is Ok <==> json(value) is Object,
        object is Ok ==> json(value) == Json::Object(entries(object->Ok_0)),
        object is Err ==> json(object->Err_0) == json(value),
{
    match value {
        serde_json::Value::Object(object) => Ok(object),
        other => Err(other),
    }
}

/// Calls `serde_json::Value::as_str`, which gives the text of a JSON string,
/// and nothing for any other kind of value.
#[verifier::external_body]
pub(crate) fn value_text(value: &serde_json::Value) -> (text: Option<&str>)
    ensures
        text is Some <==> json(*value) is Text,
        text is Some ==> json(*value) == Json::Text(text->0@),
{
    value.as_str()
}

/// `clone` on a `serde_json::Value` makes a value that holds the same.
pub assume_specification[ <serde_json::Value as Clone>::clone ](
    value: &serde_json::Value,
) -> (copy: serde_json::Value)
    ensures
        json(copy) == json(*value),
;

/// The same value once more, if it is there.
pub(crate) fn copy_optional_value(value: &Option<serde_json::Value>) -> (copy: Option<
    serde_json::Value,
>)
    ensures
        optional_json(copy) == optional_json(*value),
{
    match value {
        Some(value) => Some(value.clone()),
        None => None,
    }
}

/// Binds the key to the text.
pub(crate) fn put_text(
    object: &mut serde_json::Map<String, serde_json::Value>,
    key: &str,
    text: &str,
)
    ensures
        entries(*final(object)) == entries(*old(object)).insert(key@, Json::Text(text@)),
{
    insert_value(object, key.to_string(), text_value(text.to_string()));
}

/// Binds the key to the text, if there is one.
pub(crate) fn put_optional_text(
    object: &mut serde_json::Map<String, serde_json::Value>,
    key: &str,
    text: &Option<String>,
)
    ensures
        entries(*final(object)) == with_optional(
            entries(*old(object)),
            key@,
            optional_text(optional_view(*text)),
        ),
{
    if let Some(text) = text {
        put_text(object, key, text.as_str());
    }
}

/// Binds the key to the number, if there is one.
pub(crate) fn put_optional_unsigned(
    object: &mut serde_json::Map<String, serde_json::Value>,
    key: &str,
    number: Option<u64>,
)
    ensures
        entries(*final(object)) == with_optional(
            entries(*old(object)),
            key@,
            optional_unsigned(number),
        ),
{
    if let Some(number) = number {
        insert_value(object, key.to_string(), unsigned_value(number));
    }
}

/// Binds the key to the list of the texts.
pub(crate) fn put_texts(
    object: &mut serde_json::Map<String, serde_json::Value>,
    key: &str,
    texts: &Vec<String>,
)
    ensures
        entries(*final(object)) == entries(*old(object)).insert(key@, text_list(texts_view(texts@))),
{
    let mut values: Vec<serde_json::Value> = Vec::new();
    for i in 0..texts.len()
        invariant
            values.len() == i,
            forall|j: int| 0 <= j < i ==> json(#[trigger] values@[j]) == Json::Text(texts@[j]@),
    {
        values.push(text_value(texts[i].clone()));
    }
    proof {
        assert(Json::List(list_json(values@)) == text_list(texts_view(texts@))) by {
            assert(list_json(values@) =~= texts_view(texts@).map_values(
                |text: Seq<char>| Json::Text(text),
            ));
        }
    }
    insert_value(object, key.to_string(), list_value(values));
}

/// What a merge of `incoming` into `target` leaves: two objects become one, in
/// which the incoming entries win; anything else that comes in replaces what
/// was there.
pub open spec fn merged_metadata(target: Option<Json>, incoming: Option<Json>) -> Option<Json> {
    match incoming {
        None => target,
        Some(Json::Object(new)) => match target {
            Some(Json::Object(existing)) => Some(Json::Object(existing.union_prefer_right(new))),
            _ => Some(Json::Object(new)),
        },
        Some(other) => Some(other),
    }
}

/// Merges `incoming` into `target`.
pub fn merge_metadata(target: &mut Option<serde_json::Value>, incoming: Option<serde_json::Value>)
    ensures
        optional_json(*final(target)) == merged_metadata(
            optional_json(*old(target)),
            optional_json(incoming),
        ),
{
    let incoming = match incoming {
        Some(incoming) => incoming,
        None => {
            return;
        },
    };
    match into_object(incoming) {
        Ok(new) => {
            if let Some(current) = target.take() {
                if let Ok(mut existing) = into_object(current) {
                    extend_object(&mut existing, new);
                    *target = Some(object_value(existing));
                    return;
                }
            }
            *target = Some(object_value(new));
        },
        Err(other) => {
            *target = Some(other);
        },
    }
}

} // verus!
