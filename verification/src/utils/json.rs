//! JSON objects whose members are texts.
use vstd::prelude::*;

verus! {

#[verifier::external_type_specification]
#[verifier::external_body]
pub struct ExJsonValue(serde_json::Value);

#[verifier::external_type_specification]
#[verifier::external_body]
#[verifier::reject_recursive_types(K)]
#[verifier::reject_recursive_types(V)]
pub struct ExJsonMap<K, V>(serde_json::Map<K, V>);

/// The members of an object by their names, if all of them are texts.
pub uninterp spec fn json_members(
    object: serde_json::Map<String, serde_json::Value>,
) -> Option<Map<Seq<char>, Seq<char>>>;

/// The compact text of an object whose members are all texts.
pub uninterp spec fn json_text(members: Map<Seq<char>, Seq<char>>) -> Seq<char>;

pub open spec fn no_members() -> Map<Seq<char>, Seq<char>> {
    Map::empty()
}

/// Calls `serde_json::Map::new`: an object without members.
#[verifier::external_body]
pub(crate) fn json_object() -> (r: serde_json::Map<String, serde_json::Value>)
    ensures
        json_members(r) == Some(no_members()),
{
    serde_json::Map::new()
}

/// Calls `serde_json::Map::insert` with a text value: the member is set, whatever it was before, and
/// the others stay.
#[verifier::external_body]
pub(crate) fn json_insert(
    object: &mut serde_json::Map<String, serde_json::Value>,
    name: String,
    value: String,
)
    requires
        json_members(*old(object)) is Some,
    ensures
        json_members(*final(object)) == Some(
            json_members(*old(object)).unwrap().insert(name@, value@),
        ),
{
    object.insert(name, serde_json::Value::String(value));
}

/// Calls `to_string` on `serde_json::Value::Object`. Objects keep their members in the order of their
/// names, so the text of one whose members are all texts depends on those alone.
#[verifier::external_body]
pub(crate) fn json_to_text(object: serde_json::Map<String, serde_json::Value>) -> (r: String)
    requires
        json_members(object) is Some,
    ensures
        r@ == json_text(json_members(object).unwrap()),
{
    serde_json::Value::Object(object).to_string()
}

} // verus!
