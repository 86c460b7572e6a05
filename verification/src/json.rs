//! JSON, read and written with `serde_json`.

use vstd::prelude::*;

verus! {

/// The map type that `serde_json` keeps objects in.
#[verifier::external_type_specification]
#[verifier::external_body]
#[verifier::reject_recursive_types(K)]
#[verifier::reject_recursive_types(V)]
pub struct ExJsonMap<K, V>(serde_json::Map<K, V>);

/// The value type of `serde_json`.
#[verifier::external_type_specification]
#[verifier::external_body]
pub struct ExJsonValue(serde_json::Value);

/// A value of a flat object.
pub ghost enum JsonValue {
    Text(Seq<char>),
    Number(int),
}

/// What an object holds, by key.
pub uninterp spec fn json_contents(map: serde_json::Map<String, serde_json::Value>) -> Map<
    Seq<char>,
    JsonValue,
>;

/// The compact text of a value.
pub uninterp spec fn value_text(value: serde_json::Value) -> Seq<char>;

/// What reading a text comes to: the compact text of the value, or the text of
/// the error where it is not JSON.
pub uninterp spec fn json_read(s: Seq<char>) -> Result<Seq<char>, Seq<char>>;

/// The compact text of the object with these contents.
pub uninterp spec fn json_text(contents: Map<Seq<char>, JsonValue>) -> Seq<char>;

/// The contents of an object without keys.
pub open spec fn no_contents() -> Map<Seq<char>, JsonValue> {
    Map::empty()
}

/// Calls `serde_json::Map::new`, which makes an object that holds nothing.
#[verifier::external_body]
fn empty_object() -> (r: serde_json::Map<String, serde_json::Value>)
    ensures
        json_contents(r) == no_contents(),
{
    serde_json::Map::new()
}

/// Calls `serde_json::Map::insert` with a string: the key now holds it, and the
/// other keys hold what they did.
#[verifier::external_body]
fn insert_text(map: &mut serde_json::Map<String, serde_json::Value>, key: &str, value: &str)
    ensures
        json_contents(*final(map)) == json_contents(*old(map)).insert(
            key@,
            JsonValue::Text(value@),
        ),
{
    map.insert(key.to_owned(), serde_json::Value::from(value));
}

/// Calls `serde_json::Map::insert` with an unsigned number: the key now holds
/// it, and the other keys hold what they did.
#[verifier::external_body]
fn insert_unsigned(map: &mut serde_json::Map<String, serde_json::Value>, key: &str, value: u64)
    ensures
        json_contents(*final(map)) == json_contents(*old(map)).insert(
            key@,
            JsonValue::Number(value as int),
        ),
{
    map.insert(key.to_owned(), serde_json::Value::from(value));
}

/// Calls `serde_json::Map::insert` with a signed number: the key now holds it,
/// and the other keys hold what they did.
#[verifier::external_body]
fn insert_signed(map: &mut serde_json::Map<String, serde_json::Value>, key: &str, value: i64)
    ensures
        json_contents(*final(map)) == json_contents(*old(map)).insert(
            key@,
            JsonValue::Number(value as int),
        ),
{
    map.insert(key.to_owned(), serde_json::Value::from(value));
}

/// Makes an object a value with `serde_json::Value::Object`. The map keeps its
/// keys in order, so the text of the value is a function of the contents alone;
/// how strings are escaped and keys are ordered is not said.
#[verifier::external_body]
fn object_value(map: serde_json::Map<String, serde_json::Value>) -> (r: serde_json::Value)
    ensures
        value_text(r) == json_text(json_contents(map)),
{
    serde_json::Value::Object(map)
}

/// Writes a value with the `Display` of `serde_json::Value`, which gives its
/// compact text.
#[verifier::external_body]
pub(crate) fn write_value(value: &serde_json::Value) -> (r: String)
    ensures
        r@ == value_text(*value),
{
    value.to_string()
}

/// Reads a value with `serde_json::from_str`; the error is handed on as its
/// text. Whether the text can be read, what was read, and the text of the error
/// are functions of the text alone; the grammar is not said.
#[verifier::external_body]
pub(crate) fn read_value(s: &str) -> (r: Result<serde_json::Value, String>)
    ensures
        match json_read(s@) {
            Ok(t) => r is Ok && value_text(r->Ok_0) == t,
            Err(e) => r is Err && r->Err_0@ == e,
        },
{
    match serde_json::from_str(s) {
        Ok(value) => Ok(value),
        Err(e) => Err(e.to_string()),
    }
}

/// A flat JSON object under construction.
pub struct JsonObject {
    map: serde_json::Map<String, serde_json::Value>,
}

impl View for JsonObject {
    type V = Map<Seq<char>, JsonValue>;

    closed spec fn view(&self) -> Map<Seq<char>, JsonValue> {
        json_contents(self.map)
    }
}

impl JsonObject {
    /// An object that holds nothing.
    pub fn new() -> (r: Self)
        ensures
            r@ == Map::<Seq<char>, JsonValue>::empty(),
    {
        JsonObject { map: empty_object() }
    }

    /// Sets a key to a string.
    pub fn text(&mut self, key: &str, value: &str)
        ensures
            final(self)@ == old(self)@.insert(key@, JsonValue::Text(value@)),
    {
        insert_text(&mut self.map, key, value);
    }

    /// Sets a key to an unsigned number.
    pub fn unsigned(&mut self, key: &str, value: u64)
        ensures
            final(self)@ == old(self)@.insert(key@, JsonValue::Number(value as int)),
    {
        insert_unsigned(&mut self.map, key, value);
    }

    /// Sets a key to a signed number.
    pub fn signed(&mut self, key: &str, value: i64)
        ensures
            final(self)@ == old(self)@.insert(key@, JsonValue::Number(value as int)),
    {
        insert_signed(&mut self.map, key, value);
    }

    /// The compact text of the object.
    pub fn into_text(self) -> (r: String)
        ensures
            r@ == json_text(self@),
    {
        let value = object_value(self.map);
        write_value(&value)
    }
}

} // verus!
