//! The JSON documents that the proxy reads and writes, held in serde_json's
//! types. Verus sees these types as opaque; what the library relies on of
//! them is stated over the names below.
use vstd::prelude::*;

verus! {

#[verifier::external_type_specification]
#[verifier::external_body]
pub struct ExValue(serde_json::Value);

#[verifier::external_type_specification]
#[verifier::external_body]
#[verifier::reject_recursive_types(K)]
#[verifier::reject_recursive_types(V)]
pub struct ExObject<K, V>(serde_json::Map<K, V>);

#[verifier::external_type_specification]
#[verifier::external_body]
pub struct ExJsonError(serde_json::Error);

/// The entries of a JSON object map, by key.
pub uninterp spec fn entries(m: serde_json::Map<String, serde_json::Value>) -> Map<
    Seq<char>,
    serde_json::Value,
>;

/// An object without entries.
pub open spec fn no_entries() -> Map<Seq<char>, serde_json::Value> {
    Map::empty()
}

/// The entries of the JSON object that the bytes denote, or `None` where the
/// bytes are not a well-formed JSON object.
pub uninterp spec fn json_object_of(b: Seq<u8>) -> Option<Map<Seq<char>, serde_json::Value>>;

/// The compact JSON text of the object with these entries.
pub uninterp spec fn json_text_of(e: Map<Seq<char>, serde_json::Value>) -> Seq<u8>;

/// The text of a JSON string value; `None` for a value of any other kind.
pub uninterp spec fn str_of(v: serde_json::Value) -> Option<Seq<char>>;

/// The entries of a JSON object value; `None` for a value of any other kind.
pub uninterp spec fn object_of(v: serde_json::Value) -> Option<Map<Seq<char>, serde_json::Value>>;

/// The JSON string value with this text.
pub uninterp spec fn string_value(s: Seq<char>) -> serde_json::Value;

/// The JSON array value with these items, in order.
pub uninterp spec fn array_value(items: Seq<serde_json::Value>) -> serde_json::Value;

/// The JSON object value with these entries.
pub uninterp spec fn object_with(e: Map<Seq<char>, serde_json::Value>) -> serde_json::Value;

/// Relies on `serde_json::from_slice` into `serde_json::Map`: it succeeds
/// exactly on a well-formed JSON object.
#[verifier::external_body]
pub fn parse_object(b: &[u8]) -> (r: Result<serde_json::Map<String, serde_json::Value>, serde_json::Error>)
    ensures
        r is Ok == json_object_of(b@) is Some,
        r matches Ok(m) ==> json_object_of(b@) == Some(entries(m)),
{
    serde_json::from_slice(b)
}

/// Relies on `serde_json::to_vec`: the JSON text of the map. It cannot fail
/// on a `Map<String, Value>`: keys are strings, `Value` serializes without
/// error, and writing to a `Vec` cannot fail.
#[verifier::external_body]
pub fn object_text(m: &serde_json::Map<String, serde_json::Value>) -> (r: Result<Vec<u8>, serde_json::Error>)
    ensures
        r is Ok,
        r matches Ok(t) ==> t@ == json_text_of(entries(*m)),
{
    serde_json::to_vec(m)
}

/// Relies on `serde_json::Map::new`: a map without entries.
#[verifier::external_body]
pub fn new_object() -> (r: serde_json::Map<String, serde_json::Value>)
    ensures
        entries(r) == no_entries(),
{
    serde_json::Map::new()
}

/// Relies on `serde_json::Map::get`: the value under the key, if there is one.
#[verifier::external_body]
pub fn get_entry<'a>(m: &'a serde_json::Map<String, serde_json::Value>, key: &str) -> (r: Option<&'a serde_json::Value>)
    ensures
        r is Some == entries(*m).contains_key(key@),
        r matches Some(v) ==> *v == entries(*m)[key@],
{
    m.get(key)
}

/// Relies on `serde_json::Map::insert`: the key now holds the value, and no
/// other entry changes.
#[verifier::external_body]
pub fn insert_entry(m: &mut serde_json::Map<String, serde_json::Value>, key: String, v: serde_json::Value)
    ensures
        entries(*final(m)) == entries(*old(m)).insert(key@, v),
{
    m.insert(key, v);
}

/// Relies on `serde_json::Map::remove`: the entry under the key is taken out
/// and handed back, and no other entry changes.
#[verifier::external_body]
pub fn remove_entry(m: &mut serde_json::Map<String, serde_json::Value>, key: &str) -> (r: Option<serde_json::Value>)
    ensures
        entries(*final(m)) == entries(*old(m)).remove(key@),
        r is Some == entries(*old(m)).contains_key(key@),
        r matches Some(v) ==> v == entries(*old(m))[key@],
{
    m.remove(key)
}

/// Relies on `serde_json::Value::as_str`: the text of a JSON string, and
/// nothing for a value of another kind.
#[verifier::external_body]
pub fn text_of(v: &serde_json::Value) -> (r: Option<String>)
    ensures
        r is Some == str_of(*v) is Some,
        r matches Some(s) ==> str_of(*v) == Some(s@),
{
    match v.as_str() {
        Some(s) => Some(s.to_string()),
        None => None,
    }
}

/// Relies on `serde_json::Value::String`: a JSON string, which `as_str`
/// reads back as the same text.
#[verifier::external_body]
pub fn text_value(s: String) -> (r: serde_json::Value)
    ensures
        r == string_value(s@),
        str_of(r) == Some(s@),
        object_of(r) is None,
{
    serde_json::Value::String(s)
}

/// Relies on `serde_json::Value::Array`: a JSON array of the items, in order.
#[verifier::external_body]
pub fn list_value(items: Vec<serde_json::Value>) -> (r: serde_json::Value)
    ensures
        r == array_value(items@),
        object_of(r) is None,
{
    serde_json::Value::Array(items)
}

/// Relies on `serde_json::Value::Object`: a JSON object, determined by its
/// entries (the map is ordered by key), which `as_object` reads back
/// unchanged.
#[verifier::external_body]
pub fn object_value(m: serde_json::Map<String, serde_json::Value>) -> (r: serde_json::Value)
    ensures
        r == object_with(entries(m)),
        object_of(r) == Some(entries(m)),
{
    serde_json::Value::Object(m)
}

/// Relies on the `serde_json::Value::Object` variant: the map of an object
/// value, or the value itself handed back where it is no object.
#[verifier::external_body]
pub fn into_object(v: serde_json::Value) -> (r: Result<serde_json::Map<String, serde_json::Value>, serde_json::Value>)
    ensures
        r matches Ok(m) ==> object_of(v) == Some(entries(m)) && v == object_with(entries(m)),
        r matches Err(w) ==> object_of(v) is None && w == v,
{
    match v {
        serde_json::Value::Object(m) => Ok(m),
        other => Err(other),
    }
}

} // verus!
