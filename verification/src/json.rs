//! JSON arguments: the model of a `serde_json::Value` and the few operations
//! that the template logic performs on one.
use vstd::prelude::*;

verus! {

#[verifier::external_type_specification]
#[verifier::external_body]
pub struct ExJsonValue(serde_json::Value);

/// What a JSON value holds, as plain values. A number is represented by its
/// decimal text; an object maps each key to its value.
pub enum Json {
    Null,
    Bool(bool),
    Number(Seq<char>),
    Str(Seq<char>),
    Array(Seq<Json>),
    Object(Map<Seq<char>, Json>),
}

/// What a `serde_json::Value` holds.
pub uninterp spec fn json_model(v: serde_json::Value) -> Json;

/// The compact text that `serde_json` prints for a value holding `j`.
pub uninterp spec fn json_text(j: Json) -> Seq<char>;

/// The object that inserting `entries` in order into an empty object yields
/// (a later entry replaces an earlier one with the same key).
pub open spec fn object_of(entries: Seq<(Seq<char>, Json)>) -> Map<Seq<char>, Json>
    decreases entries.len(),
{
    if entries.len() == 0 {
        Map::empty()
    } else {
        object_of(entries.drop_last()).insert(entries.last().0, entries.last().1)
    }
}

/// Key-value entries as plain values.
pub open spec fn entry_views(entries: Seq<(String, serde_json::Value)>) -> Seq<(Seq<char>, Json)> {
    Seq::new(entries.len(), |i: int| (entries[i].0@, json_model(entries[i].1)))
}

/// `serde_json::Value::as_array`: the items of an array, `None` for any other value.
#[verifier::external_body]
pub(crate) fn json_as_array(v: &serde_json::Value) -> (r: Option<&Vec<serde_json::Value>>)
    ensures
        match json_model(*v) {
            Json::Array(items) => r matches Some(a) && a@.len() == items.len()
                && forall|i: int| 0 <= i < items.len() ==> #[trigger] json_model(a@[i]) == items[i],
            _ => r is None,
        },
{
    v.as_array()
}

/// `<serde_json::Value as Clone>::clone`.
#[verifier::external_body]
pub(crate) fn json_clone(v: &serde_json::Value) -> (r: serde_json::Value)
    ensures
        json_model(r) == json_model(*v),
{
    v.clone()
}

/// `serde_json::Value::Object` built by collecting `entries` into a
/// `serde_json::Map`.
#[verifier::external_body]
pub(crate) fn json_object(entries: Vec<(String, serde_json::Value)>) -> (r: serde_json::Value)
    ensures
        json_model(r) == Json::Object(object_of(entry_views(entries@))),
{
    serde_json::Value::Object(entries.into_iter().collect())
}

/// `<serde_json::Value as Display>::to_string`: the compact JSON text.
#[verifier::external_body]
pub(crate) fn json_to_text(v: &serde_json::Value) -> (r: String)
    ensures
        r@ == json_text(json_model(*v)),
{
    v.to_string()
}

} // verus!
