//! JSON documents, which `serde_json` holds, reads and writes.
//!
//! A `serde_json::Value` is modelled by the tree that it holds. The functions
//! here are what the rest of the library uses of that crate.

use serde_json::Value;
use vstd::prelude::*;

use crate::text::{decimal, is_white_space, signed_decimal};

verus! {

#[verifier::external_type_specification]
#[verifier::external_body]
pub struct ExValue(serde_json::Value);

#[verifier::external_type_specification]
#[verifier::external_body]
pub struct ExError(serde_json::Error);

/// What a JSON document holds. A number is modelled by the text that writes
/// it, an object by its members.
pub enum JsonModel {
    Null,
    Bool(bool),
    Number(Seq<char>),
    Text(Seq<char>),
    Array(Seq<JsonModel>),
    Object(Map<Seq<char>, JsonModel>),
}

/// What a `serde_json::Value` holds.
pub uninterp spec fn json_of(value: Value) -> JsonModel;

/// What an error of `serde_json` says: the words of its `to_string`.
pub uninterp spec fn json_error_words(error: serde_json::Error) -> Seq<char>;

/// What `serde_json::from_str` reads from a text, or what its error says if
/// the text is not a JSON document that it accepts.
pub uninterp spec fn parsed_json(text: Seq<char>) -> Result<JsonModel, Seq<char>>;

/// What `serde_json::to_string` writes for a document.
pub uninterp spec fn compact_json(document: JsonModel) -> Seq<char>;

/// What `serde_json::to_string_pretty` writes for a document.
pub uninterp spec fn pretty_json(document: JsonModel) -> Seq<char>;

/// How deep a document may be for it to be read: lists and objects can be
/// nested this often.
pub const MAX_JSON_DEPTH: u64 = 127;

/// Whether a number is written as a whole one that 64 bits hold.
pub open spec fn is_whole_number(text: Seq<char>) -> bool {
    ||| exists|n: u64| text == decimal(n as nat)
    ||| exists|n: i64| text == signed_decimal(n as int)
}

/// Whether the numbers in a document are whole ones and its lists and objects
/// are nested at most `depth` times.
pub open spec fn is_within(document: JsonModel, depth: nat) -> bool
    decreases depth,
{
    match document {
        JsonModel::Number(text) => is_whole_number(text),
        JsonModel::Array(items) => depth > 0 && forall|i: int|
            0 <= i < items.len() ==> is_within(#[trigger] items[i], (depth - 1) as nat),
        JsonModel::Object(members) => depth > 0 && forall|key: Seq<char>| #[trigger]
            members.contains_key(key) ==> is_within(members[key], (depth - 1) as nat),
        _ => true,
    }
}

/// Whether a document is read back from what is written of it: its numbers are
/// whole ones, and it is not too deep to be read.
pub open spec fn reads_back(document: JsonModel) -> bool {
    is_within(document, MAX_JSON_DEPTH as nat)
}

/// The documents in a list.
pub open spec fn items_of(items: Seq<Value>) -> Seq<JsonModel> {
    Seq::new(items.len(), |i: int| json_of(items[i]))
}

/// The value of a member of an object.
pub open spec fn member_of(document: JsonModel, key: Seq<char>) -> Option<JsonModel> {
    match document {
        JsonModel::Object(members) => if members.contains_key(key) {
            Some(members[key])
        } else {
            None
        },
        _ => None,
    }
}

/// The text that a document is, if it is one.
pub open spec fn text_in(document: JsonModel) -> Option<Seq<char>> {
    match document {
        JsonModel::Text(text) => Some(text),
        _ => None,
    }
}

/// Calls `serde_json::from_str`. It either reads a document, always the same
/// one from the same text, or fails, always with the same words. Which texts
/// it accepts is left to the crate.
#[verifier::external_body]
pub(crate) fn parse_json(text: &str) -> (outcome: Result<Value, serde_json::Error>)
    ensures
        match outcome {
            Ok(value) => parsed_json(text@) == Ok::<JsonModel, Seq<char>>(json_of(value)),
            Err(error) => parsed_json(text@) == Err::<JsonModel, Seq<char>>(
                json_error_words(error),
            ),
        },
{
    serde_json::from_str(text)
}

/// Calls `to_string` on an error of `serde_json`.
#[verifier::external_body]
pub(crate) fn json_error_text(error: &serde_json::Error) -> (text: String)
    ensures
        text@ == json_error_words(*error),
{
    error.to_string()
}

/// Calls `Value::get` with a member's name: the value of that member, if the
/// document is an object that has it.
#[verifier::external_body]
pub(crate) fn get_member<'a>(value: &'a Value, key: &str) -> (member: Option<&'a Value>)
    ensures
        match member {
            Some(found) => member_of(json_of(*value), key@) == Some(json_of(*found)),
            None => member_of(json_of(*value), key@) is None,
        },
{
    value.get(key)
}

/// Calls `Value::as_str`: the text, if the document is one.
#[verifier::external_body]
pub(crate) fn as_text(value: &Value) -> (text: Option<&str>)
    ensures
        match text {
            Some(found) => text_in(json_of(*value)) == Some(found@),
            None => text_in(json_of(*value)) is None,
        },
{
    value.as_str()
}

/// Calls `Value::is_null`.
#[verifier::external_body]
pub(crate) fn is_null(value: &Value) -> (null: bool)
    ensures
        null == (json_of(*value) == JsonModel::Null),
{
    value.is_null()
}

/// Calls `Value::clone`: the copy holds the same document.
#[verifier::external_body]
pub(crate) fn copy_value(value: &Value) -> (copy: Value)
    ensures
        json_of(copy) == json_of(*value),
{
    value.clone()
}

/// Calls `serde_json::to_string`, which does not fail on a document. The text
/// stands on one line, since every control character in it is escaped, and
/// never ends with white space. It is read back as the document if the numbers
/// in it are whole ones and the parser's limit on nesting is kept.
#[verifier::external_body]
pub(crate) fn write_compact(value: &Value) -> (outcome: Result<String, serde_json::Error>)
    ensures
        match outcome {
            Ok(text) => {
                &&& text@ == compact_json(json_of(*value))
                &&& !text@.contains('\n')
                &&& text@.len() > 0
                &&& !is_white_space(text@.last())
                &&& reads_back(json_of(*value)) ==> parsed_json(text@) == Ok::<
                    JsonModel,
                    Seq<char>,
                >(json_of(*value))
            },
            Err(_) => false,
        },
{
    serde_json::to_string(value)
}

/// Calls `serde_json::to_string_pretty`, which does not fail on a document.
#[verifier::external_body]
pub(crate) fn write_pretty(value: &Value) -> (outcome: Result<String, serde_json::Error>)
    ensures
        match outcome {
            Ok(text) => text@ == pretty_json(json_of(*value)),
            Err(_) => false,
        },
{
    serde_json::to_string_pretty(value)
}

/// The constant `Value::Null`.
#[verifier::external_body]
pub(crate) fn null_value() -> (value: Value)
    ensures
        json_of(value) == JsonModel::Null,
{
    Value::Null
}

/// Calls `Value::from` on a flag.
#[verifier::external_body]
pub(crate) fn bool_value(flag: bool) -> (value: Value)
    ensures
        json_of(value) == JsonModel::Bool(flag),
{
    Value::from(flag)
}

/// Calls `Value::from` on an unsigned number, which is written in decimal.
#[verifier::external_body]
pub(crate) fn number_value(number: u64) -> (value: Value)
    ensures
        json_of(value) == JsonModel::Number(decimal(number as nat)),
{
    Value::from(number)
}

/// Calls `Value::from` on a signed number, which is written in decimal.
#[verifier::external_body]
pub(crate) fn signed_value(number: i64) -> (value: Value)
    ensures
        json_of(value) == JsonModel::Number(signed_decimal(number as int)),
{
    Value::from(number)
}

/// Calls `Value::from` on a text.
#[verifier::external_body]
pub(crate) fn text_value(text: &str) -> (value: Value)
    ensures
        json_of(value) == JsonModel::Text(text@),
{
    Value::from(text)
}

/// Calls `Value::from` on a list of documents.
#[verifier::external_body]
pub(crate) fn array_value(items: Vec<Value>) -> (value: Value)
    ensures
        json_of(value) == JsonModel::Array(items_of(items@)),
{
    Value::from(items)
}

/// Calls `serde_json::Map::new` for an object without members.
#[verifier::external_body]
pub(crate) fn empty_object() -> (value: Value)
    ensures
        json_of(value) == JsonModel::Object(Map::empty()),
{
    Value::Object(serde_json::Map::new())
}

/// Assigns through `Value`'s `IndexMut`, which sets a member of an object,
/// new or not, and leaves the others alone.
#[verifier::external_body]
pub(crate) fn set_member(object: &mut Value, key: &str, value: Value)
    requires
        json_of(*old(object)) is Object,
    ensures
        json_of(*final(object)) == JsonModel::Object(
            json_of(*old(object))->Object_0.insert(key@, json_of(value)),
        ),
{
    object[key] = value;
}

} // verus!
