//! JSON documents of the crate serde_json, by their contents.
use serde_json::Value;
use vstd::prelude::*;
use vstd::utf8::{decode_utf8, valid_utf8};
use crate::text::text_eq;

verus! {

/// A JSON value of the crate serde_json.
#[verifier::external_type_specification]
#[verifier::external_body]
pub struct ExValue(serde_json::Value);

/// The contents of a JSON value. Of a number only its value as an unsigned
/// 64-bit integer counts, where it has one.
pub enum JsonTree {
    Null,
    Bool(bool),
    Number(Option<u64>),
    Text(Seq<char>),
    Array(Seq<JsonTree>),
    Object(Map<Seq<char>, JsonTree>),
}

/// The contents of a JSON value.
pub uninterp spec fn json_tree(value: serde_json::Value) -> JsonTree;

/// The contents of the JSON document that a text is, where it is one.
pub uninterp spec fn parsed_json(text: Seq<char>) -> Option<JsonTree>;

/// The compact encoding of a JSON document.
pub uninterp spec fn json_encoding(tree: JsonTree) -> Option<Seq<u8>>;

impl JsonTree {
    /// The value under a key of an object.
    pub open spec fn get(self, key: Seq<char>) -> Option<JsonTree> {
        match self {
            JsonTree::Object(map) => if map.contains_key(key) {
                Some(map[key])
            } else {
                None
            },
            _ => None,
        }
    }

    /// The text of a string.
    pub open spec fn text(self) -> Option<Seq<char>> {
        match self {
            JsonTree::Text(text) => Some(text),
            _ => None,
        }
    }

    /// The text under a key of an object.
    pub open spec fn text_at(self, key: Seq<char>) -> Option<Seq<char>> {
        match self.get(key) {
            Some(value) => value.text(),
            None => None,
        }
    }

    /// The truth value under a key of an object.
    pub open spec fn bool_at(self, key: Seq<char>) -> Option<bool> {
        match self.get(key) {
            Some(JsonTree::Bool(b)) => Some(b),
            _ => None,
        }
    }

    /// The number under a key of an object.
    pub open spec fn number_at(self, key: Seq<char>) -> Option<u64> {
        match self.get(key) {
            Some(JsonTree::Number(n)) => n,
            _ => None,
        }
    }

    /// Texts and objects of such, nested at most so deep. Without numbers the
    /// contents determine the encoding.
    pub open spec fn textual(self, depth: nat) -> bool
        decreases depth,
    {
        match self {
            JsonTree::Text(_) => true,
            JsonTree::Object(map) => depth > 0 && forall|k: Seq<char>| #[trigger]
                map.contains_key(k) ==> map[k].textual((depth - 1) as nat),
            _ => false,
        }
    }
}

/// `serde_json::from_str` gives the document that a text is, and an error
/// where it is none.
#[verifier::external_body]
pub(crate) fn parse_json(text: &str) -> (r: Option<serde_json::Value>)
    ensures
        match r {
            Some(value) => parsed_json(text@) == Some(json_tree(value)),
            None => parsed_json(text@) is None,
        },
{
    serde_json::from_str::<Value>(text).ok()
}

/// The contents of the JSON document that bytes are, or the complaint about
/// them.
pub uninterp spec fn json_document(bytes: Seq<u8>) -> Result<JsonTree, Seq<char>>;

/// `serde_json::from_slice` gives the document that bytes are, and an error
/// where they are none.
#[verifier::external_body]
pub(crate) fn parse_json_bytes(bytes: &[u8]) -> (r: Result<serde_json::Value, String>)
    ensures
        match r {
            Ok(value) => json_document(bytes@) == Ok::<JsonTree, Seq<char>>(json_tree(value)),
            Err(message) => json_document(bytes@) == Err::<JsonTree, Seq<char>>(message@),
        },
{
    serde_json::from_slice::<Value>(bytes).map_err(|error| error.to_string())
}

/// `Value::get` with a string gives the value under that key where the value
/// is an object that has it, and nothing otherwise.
#[verifier::external_body]
pub(crate) fn json_get<'a>(value: &'a serde_json::Value, key: &str) -> (r: Option<
    &'a serde_json::Value,
>)
    ensures
        match r {
            Some(inner) => json_tree(*value).get(key@) == Some(json_tree(*inner)),
            None => json_tree(*value).get(key@) is None,
        },
{
    value.get(key)
}

/// `Value::as_str` gives the text of a string, and nothing of another value.
#[verifier::external_body]
pub(crate) fn json_str(value: &serde_json::Value) -> (r: Option<&str>)
    ensures
        match r {
            Some(text) => json_tree(*value) == JsonTree::Text(text@),
            None => !(json_tree(*value) is Text),
        },
{
    value.as_str()
}

/// `Value::as_bool` gives the truth value of a boolean, and nothing of
/// another value.
#[verifier::external_body]
pub(crate) fn json_bool(value: &serde_json::Value) -> (r: Option<bool>)
    ensures
        match r {
            Some(b) => json_tree(*value) == JsonTree::Bool(b),
            None => !(json_tree(*value) is Bool),
        },
{
    value.as_bool()
}

/// `Value::as_u64` gives the value of a number that is an unsigned 64-bit
/// integer, and nothing of another value.
#[verifier::external_body]
pub(crate) fn json_u64(value: &serde_json::Value) -> (r: Option<u64>)
    ensures
        match r {
            Some(n) => json_tree(*value) == JsonTree::Number(Some(n)),
            None => !(json_tree(*value) is Number) || json_tree(*value) == JsonTree::Number(None),
        },
{
    value.as_u64()
}

/// `Value::as_array` gives the elements of an array in order, and nothing of
/// another value.
#[verifier::external_body]
pub(crate) fn json_array(value: &serde_json::Value) -> (r: Option<&Vec<serde_json::Value>>)
    ensures
        match r {
            Some(list) => json_tree(*value) == JsonTree::Array(trees(list@)),
            None => !(json_tree(*value) is Array),
        },
{
    value.as_array()
}

/// `Value::String` makes the JSON string of a text.
#[verifier::external_body]
pub(crate) fn json_text_value(text: String) -> (r: serde_json::Value)
    ensures
        json_tree(r) == JsonTree::Text(text@),
{
    Value::String(text)
}

/// `Value::Object` of a new map makes the empty JSON object.
#[verifier::external_body]
pub(crate) fn json_empty_object() -> (r: serde_json::Value)
    ensures
        json_tree(r) == JsonTree::Object(Map::empty()),
{
    Value::Object(serde_json::Map::new())
}

/// Assignment to an index of a `Value` that is an object stores the value
/// under that key.
#[verifier::external_body]
pub(crate) fn json_put(object: &mut serde_json::Value, key: &str, value: serde_json::Value)
    requires
        json_tree(*old(object)) is Object,
    ensures
        json_tree(*final(object)) == JsonTree::Object(
            json_tree(*old(object))->Object_0.insert(key@, json_tree(value)),
        ),
{
    object[key] = value;
}

/// `serde_json::to_vec` gives the compact encoding of a document: UTF-8 text
/// that parses to the same contents. Control characters are escaped in it, so
/// that it holds neither a line feed nor a carriage return.
#[verifier::external_body]
pub(crate) fn json_bytes(value: &serde_json::Value) -> (r: Option<Vec<u8>>)
    requires
        json_tree(*value).textual(4),
    ensures
        match r {
            Some(bytes) => {
                &&& json_encoding(json_tree(*value)) == Some(bytes@)
                &&& valid_utf8(bytes@)
                &&& parsed_json(decode_utf8(bytes@)) == Some(json_tree(*value))
                &&& !bytes@.contains(10)
                &&& !bytes@.contains(13)
            },
            None => json_encoding(json_tree(*value)) is None,
        },
{
    serde_json::to_vec(value).ok()
}

/// The contents of a list of JSON values.
pub open spec fn trees(list: Seq<serde_json::Value>) -> Seq<JsonTree> {
    list.map_values(|v: serde_json::Value| json_tree(v))
}

/// The text under a key of an object.
pub fn text_at<'a>(value: &'a serde_json::Value, key: &str) -> (r: Option<&'a str>)
    ensures
        match r {
            Some(text) => json_tree(*value).text_at(key@) == Some(text@),
            None => json_tree(*value).text_at(key@) is None,
        },
{
    match json_get(value, key) {
        Some(inner) => json_str(inner),
        None => None,
    }
}

/// Whether the text under a key of an object is the given one.
pub fn text_at_is(value: &serde_json::Value, key: &str, expected: &str) -> (r: bool)
    ensures
        r == (json_tree(*value).text_at(key@) == Some(expected@)),
{
    match text_at(value, key) {
        Some(text) => text_eq(text, expected),
        None => false,
    }
}

/// Whether a key of an object holds `true`.
pub fn true_at(value: &serde_json::Value, key: &str) -> (r: bool)
    ensures
        r == (json_tree(*value).bool_at(key@) == Some(true)),
{
    match json_get(value, key) {
        Some(inner) => match json_bool(inner) {
            Some(b) => b,
            None => false,
        },
        None => false,
    }
}

} // verus!
