use vstd::prelude::*;
use crate::json::{
    empty_object, items_view, members_map, members_view, Json, JsonObject, JsonValue,
};

verus! {

/// `serde_json::Value`, a JSON value, carried through without looking inside.
#[verifier::external_type_specification]
#[verifier::external_body]
pub struct ExValue(serde_json::Value);

/// `serde_json::Map`, a JSON object, carried through without looking inside.
#[verifier::external_type_specification]
#[verifier::external_body]
#[verifier::reject_recursive_types(K)]
#[verifier::reject_recursive_types(V)]
pub struct ExMap<K, V>(serde_json::Map<K, V>);

/// The content of a `serde_json::Value`: which kind of value it is, and what
/// it holds.
pub uninterp spec fn value_content(value: serde_json::Value) -> Json;

/// The content of a `serde_json::Map`: what it holds at each key.
pub uninterp spec fn map_content(map: serde_json::Map<String, serde_json::Value>) -> Map<
    Seq<char>,
    Json,
>;

/// The canonical serialization of an object, as `serde_jcs::to_vec` writes
/// it: members sorted by key, one spelling for each string and number, no
/// white space. `None` where `serde_jcs::to_vec` gives an error.
pub uninterp spec fn canonical_json(content: Map<Seq<char>, Json>) -> Option<Seq<u8>>;

/// What an optional byte string holds.
pub open spec fn bytes_view(bytes: Option<Vec<u8>>) -> Option<Seq<u8>> {
    match bytes {
        Some(b) => Some(b@),
        None => None,
    }
}

/// The variant `serde_json::Value::Null`: its content is null.
#[verifier::external_body]
fn serde_null() -> (value: serde_json::Value)
    ensures
        value_content(value) == Json::Null,
{
    serde_json::Value::Null
}

/// The variant `serde_json::Value::Bool`: its content is the boolean given.
#[verifier::external_body]
fn serde_bool(b: bool) -> (value: serde_json::Value)
    ensures
        value_content(value) == Json::Bool(b),
{
    serde_json::Value::Bool(b)
}

/// The variant `serde_json::Value::Number`, made of a clone of the number:
/// its content is that number.
#[verifier::external_body]
fn serde_number(n: &serde_json::Number) -> (value: serde_json::Value)
    ensures
        value_content(value) == Json::Number(*n),
{
    serde_json::Value::Number(n.clone())
}

/// The variant `serde_json::Value::String`, made of a copy of the text: its
/// content is the string with those characters.
#[verifier::external_body]
fn serde_string(s: &str) -> (value: serde_json::Value)
    ensures
        value_content(value) == Json::String(s@),
{
    serde_json::Value::String(s.to_owned())
}

/// The variant `serde_json::Value::Array`: its content is the array of the
/// contents of the items, in their order.
#[verifier::external_body]
fn serde_array(items: Vec<serde_json::Value>) -> (value: serde_json::Value)
    ensures
        value_content(value) == Json::Array(
            Seq::new(items@.len(), |i: int| value_content(items@[i])),
        ),
{
    serde_json::Value::Array(items)
}

/// The variant `serde_json::Value::Object`: its content is the object with
/// the content of the map.
#[verifier::external_body]
fn serde_object(map: serde_json::Map<String, serde_json::Value>) -> (value: serde_json::Value)
    ensures
        value_content(value) == Json::Object(map_content(map)),
{
    serde_json::Value::Object(map)
}

/// `serde_json::Map::new`: a map that holds nothing.
#[verifier::external_body]
fn serde_map_new() -> (map: serde_json::Map<String, serde_json::Value>)
    ensures
        map_content(map) == empty_object(),
{
    serde_json::Map::new()
}

/// `serde_json::Map::insert`, on a copy of the key: the map then holds the
/// value at that key, in place of what it held there before, and is
/// otherwise unchanged.
#[verifier::external_body]
fn serde_map_insert(
    map: &mut serde_json::Map<String, serde_json::Value>,
    key: &str,
    value: serde_json::Value,
)
    ensures
        map_content(*final(map)) == map_content(*old(map)).insert(key@, value_content(value)),
{
    map.insert(key.to_owned(), value);
}

/// `serde_jcs::to_vec` on a `serde_json::Map`, with its error dropped: what
/// it writes depends on the content of the map alone.
#[verifier::external_body]
fn serde_jcs_to_vec(map: &serde_json::Map<String, serde_json::Value>) -> (bytes: Option<Vec<u8>>)
    ensures
        bytes_view(bytes) == canonical_json(map_content(*map)),
{
    serde_jcs::to_vec(map).ok()
}

/// Builds the `serde_json::Value` with the content of `value`.
fn to_serde_value(value: &JsonValue) -> (out: serde_json::Value)
    ensures
        value_content(out) == value@,
    decreases value,
{
    match value {
        JsonValue::Null => serde_null(),
        JsonValue::Bool(b) => serde_bool(*b),
        JsonValue::Number(n) => serde_number(n),
        JsonValue::String(s) => serde_string(s.as_str()),
        JsonValue::Array(items) => {
            let mut out: Vec<serde_json::Value> = Vec::new();
            let mut i: usize = 0;
            while i < items.len()
                invariant
                    i <= items.len(),
                    value is Array,
                    value->Array_0 == *items,
                    out@.len() == i,
                    forall|j: int| 0 <= j < i ==> value_content(out@[j]) == items@[j]@,
                decreases items.len() - i,
            {
                let item = to_serde_value(&items[i]);
                out.push(item);
                i += 1;
            }
            assert(Seq::new(out@.len(), |j: int| value_content(out@[j])) =~= items_view(items@));
            serde_array(out)
        },
        JsonValue::Object(object) => serde_object(to_serde_map(object)),
    }
}

/// Builds the `serde_json::Map` with the content of `object`.
fn to_serde_map(object: &JsonObject) -> (out: serde_json::Map<String, serde_json::Value>)
    ensures
        map_content(out) == object@,
    decreases object,
{
    let mut out = serde_map_new();
    let mut i: usize = 0;
    while i < object.members.len()
        invariant
            i <= object.members.len(),
            map_content(out) == members_map(members_view(object.members@).take(i as int)),
        decreases object.members.len() - i,
    {
        let value = to_serde_value(&object.members[i].1);
        serde_map_insert(&mut out, object.members[i].0.as_str(), value);
        proof {
            let all = members_view(object.members@);
            assert(all.take(i + 1).drop_last() =~= all.take(i as int));
        }
        i += 1;
    }
    proof {
        let all = members_view(object.members@);
        assert(all.take(i as int) =~= all);
    }
    out
}

/// The canonical serialization of `object`; `None` where it has none.
pub fn canonical_bytes(object: &JsonObject) -> (bytes: Option<Vec<u8>>)
    ensures
        bytes_view(bytes) == canonical_json(object@),
{
    let map = to_serde_map(object);
    serde_jcs_to_vec(&map)
}

} // verus!
