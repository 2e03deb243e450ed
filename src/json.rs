//! JSON text, read and written through serde_json.
use vstd::prelude::*;

verus! {

/// serde_json's value type, carried through unopened.
#[verifier::external_type_specification]
#[verifier::external_body]
pub struct ExJsonValue(serde_json::Value);

/// serde_json's object type, carried through unopened.
#[verifier::external_type_specification]
#[verifier::external_body]
#[verifier::reject_recursive_types(K)]
#[verifier::reject_recursive_types(V)]
pub struct ExJsonMap<K, V>(serde_json::Map<K, V>);

/// serde_json's error type, carried through unopened.
#[verifier::external_type_specification]
#[verifier::external_body]
pub struct ExJsonError(serde_json::Error);

/// Whether serde_json reads `s` as one JSON value.
pub uninterp spec fn json_value_parses(s: Seq<char>) -> bool;

/// Whether serde_json reads `s` as one JSON object.
pub uninterp spec fn json_object_parses(s: Seq<char>) -> bool;

/// The value that serde_json reads from `s`.
pub uninterp spec fn json_value_of(s: Seq<char>) -> serde_json::Value;

/// The compact JSON text that serde_json writes for `v`.
pub uninterp spec fn json_text(v: serde_json::Value) -> Seq<char>;

/// The object that serde_json reads from `s`.
pub uninterp spec fn json_object_of(s: Seq<char>) -> serde_json::Map<String, serde_json::Value>;

/// The object `m` after serde_json's `Map::remove` of `key`.
pub uninterp spec fn json_map_without(
    m: serde_json::Map<String, serde_json::Value>,
    key: Seq<char>,
) -> serde_json::Map<String, serde_json::Value>;

/// The compact JSON text that serde_json writes for the object `m`.
pub uninterp spec fn json_object_text(m: serde_json::Map<String, serde_json::Value>) -> Seq<char>;

/// The JSON text of the object `text` without its top-level member `key`.
pub open spec fn json_without_member(text: Seq<char>, key: Seq<char>) -> Seq<char> {
    json_object_text(json_map_without(json_object_of(text), key))
}

/// Relies on `serde_json::from_str::<Value>`: whether it succeeds, and the
/// value it reads, depend on the text alone.
#[verifier::external_body]
fn value_from_str(s: &str) -> (r: Result<serde_json::Value, serde_json::Error>)
    ensures
        r is Ok <==> json_value_parses(s@),
        r is Ok ==> r->Ok_0 == json_value_of(s@),
{
    serde_json::from_str::<serde_json::Value>(s)
}

/// Relies on `serde_json::to_string` for a value: it writes into a `Vec`,
/// which cannot fail, and a value's object keys are strings, so it succeeds.
#[verifier::external_body]
fn value_to_string(v: &serde_json::Value) -> (r: Result<String, serde_json::Error>)
    ensures
        r is Ok,
        r is Ok ==> r->Ok_0@ == json_text(*v),
{
    serde_json::to_string(v)
}

/// Relies on `serde_json::from_str::<Map<String, Value>>`, which reads one
/// JSON object: whether it succeeds, and the object it reads, depend on the
/// text alone.
#[verifier::external_body]
fn object_from_str(s: &str) -> (r: Result<serde_json::Map<String, serde_json::Value>, serde_json::Error>)
    ensures
        r is Ok <==> json_object_parses(s@),
        r is Ok ==> r->Ok_0 == json_object_of(s@),
{
    serde_json::from_str::<serde_json::Map<String, serde_json::Value>>(s)
}

/// Relies on `serde_json::Map::remove`: the object afterwards depends on the
/// object and the key alone.
#[verifier::external_body]
fn remove_member(m: &mut serde_json::Map<String, serde_json::Value>, key: &str)
    ensures
        *final(m) == json_map_without(*old(m), key@),
{
    m.remove(key);
}

/// Relies on `serde_json::to_string` for an object: it writes into a `Vec`,
/// which cannot fail, and the keys are strings, so it succeeds.
#[verifier::external_body]
fn object_to_string(m: &serde_json::Map<String, serde_json::Value>) -> (r: Result<String, serde_json::Error>)
    ensures
        r is Ok,
        r is Ok ==> r->Ok_0@ == json_object_text(*m),
{
    serde_json::to_string(m)
}

/// The JSON value that `body` holds, or `None` when it is not JSON.
pub fn parse_json(body: &str) -> (r: Option<serde_json::Value>)
    ensures
        r is Some <==> json_value_parses(body@),
        r is Some ==> r->Some_0 == json_value_of(body@),
{
    match value_from_str(body) {
        Ok(v) => Some(v),
        Err(_) => None,
    }
}

/// The compact JSON text of `data`; empty if serde_json cannot write it.
pub fn generate_json_response(data: serde_json::Value) -> (r: String)
    ensures
        r@ == json_text(data),
{
    match value_to_string(&data) {
        Ok(s) => s,
        Err(_) => String::new(),
    }
}

/// The JSON object of `text` without its top-level member `key`, written
/// back as text; `None` when `text` is not a JSON object.
pub fn remove_json_member(text: &str, key: &str) -> (r: Option<String>)
    ensures
        match r {
            Some(s) => json_object_parses(text@) && s@ == json_without_member(text@, key@),
            None => !json_object_parses(text@),
        },
{
    match object_from_str(text) {
        Ok(mut m) => {
            remove_member(&mut m, key);
            match object_to_string(&m) {
                Ok(s) => Some(s),
                Err(_) => Some(String::new()),
            }
        },
        Err(_) => None,
    }
}

} // verus!
