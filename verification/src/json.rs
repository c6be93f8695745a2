//! JSON objects of named counts, written by `serde_json`.

use std::fmt::Write;
use vstd::prelude::*;

verus! {

/// `serde_json::Map`, the fields of a JSON object. Nothing is known of
/// what is inside but what the functions below say.
#[verifier::external_type_specification]
#[verifier::external_body]
#[verifier::reject_recursive_types(K)]
#[verifier::reject_recursive_types(V)]
pub struct ExJsonMap<K, V>(serde_json::Map<K, V>);

/// `serde_json::Value`, a JSON value.
#[verifier::external_type_specification]
#[verifier::external_body]
pub struct ExJsonValue(serde_json::Value);

/// The numbers that a JSON object holds, by the names of its fields.
pub uninterp spec fn json_numbers(object: serde_json::Map<String, serde_json::Value>) -> Map<
    Seq<char>,
    int,
>;

/// Every field of a JSON object holds a number that was made from a `u64`.
pub uninterp spec fn json_counts_only(object: serde_json::Map<String, serde_json::Value>) -> bool;

/// The text that `serde_json` writes for a JSON object whose fields hold
/// the numbers `fields`, in its compact form, and nothing where it reports
/// an error.
pub uninterp spec fn json_object_text(fields: Map<Seq<char>, int>) -> Option<Seq<char>>;

/// The fields of an object that has none.
pub open spec fn no_fields() -> Map<Seq<char>, int> {
    Map::empty()
}

/// `serde_json::Map::new` makes an object without fields.
#[verifier::external_body]
pub(crate) fn json_object_new() -> (object: serde_json::Map<String, serde_json::Value>)
    ensures
        json_numbers(object) == no_fields(),
        json_counts_only(object),
{
    serde_json::Map::new()
}

/// `serde_json::Map::insert` with a number made by `serde_json::Value::from`
/// sets the field `name` to `count`, whether or not the object had such a
/// field, and leaves the other fields as they were; an object that held
/// counts only still does.
#[verifier::external_body]
pub(crate) fn json_object_set(
    object: &mut serde_json::Map<String, serde_json::Value>,
    name: &str,
    count: u64,
)
    ensures
        json_numbers(*final(object)) == json_numbers(*old(object)).insert(name@, count as int),
        json_counts_only(*old(object)) ==> json_counts_only(*final(object)),
{
    object.insert(name.to_owned(), serde_json::Value::from(count));
}

/// Writes the object through `Display` of `serde_json::Value`, which is its
/// compact JSON text. Of an object that holds counts only, the text is a
/// function of the fields' names and numbers alone.
#[verifier::external_body]
pub(crate) fn json_object_write(object: serde_json::Map<String, serde_json::Value>) -> (text:
    Option<String>)
    requires
        json_counts_only(object),
    ensures
        json_object_text(json_numbers(object)) == match text {
            Some(t) => Some(t@),
            None => None::<Seq<char>>,
        },
{
    let mut text = String::new();
    match write!(text, "{}", serde_json::Value::Object(object)) {
        Ok(()) => Some(text),
        Err(_) => None,
    }
}

} // verus!
