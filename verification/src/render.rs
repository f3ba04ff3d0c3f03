//! JSON values written out as text, by `serde_json`.

use vstd::prelude::*;

use crate::json::{items_view, number_view, Json, JsonValue};

verus! {

/// A `serde_json::Value`.
#[verifier::external_type_specification]
#[verifier::external_body]
pub struct ExSerdeValue(serde_json::Value);

/// A `serde_json::Map`.
#[verifier::external_type_specification]
#[verifier::external_body]
#[verifier::reject_recursive_types(K)]
#[verifier::reject_recursive_types(V)]
pub struct ExSerdeMap<K, V>(serde_json::Map<K, V>);

/// What a `serde_json::Value` holds.
pub uninterp spec fn held_value(value: serde_json::Value) -> Json;

/// What a `serde_json::Map` holds.
pub uninterp spec fn held_members(
    members: serde_json::Map<String, serde_json::Value>,
) -> Map<Seq<char>, Json>;

/// The compact text of a JSON value.
pub uninterp spec fn json_text(value: Json) -> Seq<char>;

/// `serde_json::Value::Null` holds null.
#[verifier::external_body]
fn null_value() -> (r: serde_json::Value)
    ensures
        held_value(r) == Json::Null,
{
    serde_json::Value::Null
}

/// `serde_json::Value::Bool` holds the truth value.
#[verifier::external_body]
fn bool_value(value: bool) -> (r: serde_json::Value)
    ensures
        held_value(r) == Json::Bool(value),
{
    serde_json::Value::Bool(value)
}

/// `serde_json::Value::Number` holds the number.
#[verifier::external_body]
fn number_value(number: serde_json::Number) -> (r: serde_json::Value)
    ensures
        held_value(r) == number_view(number),
{
    serde_json::Value::Number(number)
}

/// `serde_json::Value::String` holds the text.
#[verifier::external_body]
fn string_value(text: String) -> (r: serde_json::Value)
    ensures
        held_value(r) == Json::Str(text@),
{
    serde_json::Value::String(text)
}

/// `serde_json::Value::Object` holds the members.
#[verifier::external_body]
fn object_value(members: serde_json::Map<String, serde_json::Value>) -> (r: serde_json::Value)
    ensures
        held_value(r) == Json::Object(held_members(members)),
{
    serde_json::Value::Object(members)
}

/// `serde_json::Map::new` holds no members.
#[verifier::external_body]
fn no_members() -> (r: serde_json::Map<String, serde_json::Value>)
    ensures
        forall|name: Seq<char>| !held_members(r).dom().contains(name),
{
    serde_json::Map::new()
}

/// `serde_json::Map::insert` sets the member `name`.
#[verifier::external_body]
fn insert_member(
    members: &mut serde_json::Map<String, serde_json::Value>,
    name: String,
    value: serde_json::Value,
)
    ensures
        held_members(*final(members)) == held_members(*old(members)).insert(
            name@,
            held_value(value),
        ),
{
    members.insert(name, value);
}

/// `serde_json::Value::Array` holds what its items hold.
#[verifier::external_body]
fn array_value(items: Vec<serde_json::Value>) -> (r: serde_json::Value)
    ensures
        held_value(r) == Json::Array(items@.map_values(|item: serde_json::Value| held_value(item))),
{
    serde_json::Value::Array(items)
}

/// `serde_json::Value`'s `Display`, through `to_string`: the compact JSON text, which depends on
/// what the value holds alone. The members of an object come in the order of their names: the
/// map is sorted, as `serde_json` keeps it unless its feature `preserve_order` is switched on.
#[verifier::external_body]
fn value_text(value: &serde_json::Value) -> (r: String)
    ensures
        r@ == json_text(held_value(*value)),
{
    value.to_string()
}

/// The same value, as `serde_json` holds it.
fn serde_value(value: &JsonValue) -> (r: serde_json::Value)
    ensures
        held_value(r) == value@,
    decreases value,
{
    match value {
        JsonValue::Null => null_value(),
        JsonValue::Bool(b) => bool_value(*b),
        JsonValue::Number(n) => number_value(n.clone()),
        JsonValue::String(s) => string_value(s.clone()),
        JsonValue::Array(items) => {
            let mut out: Vec<serde_json::Value> = Vec::new();
            let mut i: usize = 0;
            while i < items.len()
                invariant
                    i <= items@.len(),
                    out@.len() == i,
                    forall|j: int| 0 <= j < i ==> held_value(#[trigger] out@[j]) == items@[j]@,
                    *value == JsonValue::Array(*items),
                decreases items.len() - i,
            {
                assert(decreases_to!(*value => (*value)->Array_0));
                assert(decreases_to!(*items => items@));
                assert(decreases_to!(items@ => items@[i as int]));
                out.push(serde_value(&items[i]));
                i += 1;
            }
            assert(out@.map_values(|item: serde_json::Value| held_value(item)) =~= items_view(
                items@,
            ));
            array_value(out)
        },
        JsonValue::Object(object) => {
            let count = object.len();
            let mut out = no_members();
            let mut i: usize = 0;
            assert(held_members(out) =~= object.first(0));
            while i < count
                invariant
                    i <= count,
                    count == object.size(),
                    held_members(out) == object.first(i as int),
                    *value == JsonValue::Object(*object),
                decreases count - i,
            {
                assert(decreases_to!(*value => (*value)->Object_0));
                let (name, item) = object.nth(i);
                insert_member(&mut out, name.clone(), serde_value(item));
                i += 1;
            }
            object_value(out)
        },
    }
}

impl JsonValue {
    /// The compact text of the value, as `serde_json` writes it.
    pub fn to_text(&self) -> (r: String)
        ensures
            r@ == json_text(self@),
    {
        value_text(&serde_value(self))
    }
}

} // verus!
