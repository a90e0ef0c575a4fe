use serde_json::Error as JsonError;
use serde_json::Value;
use vstd::prelude::*;

verus! {

/// `serde_json::Value`, a JSON value. Nothing inside it is visible here.
#[verifier::external_type_specification]
#[verifier::external_body]
pub struct ExValue(serde_json::Value);

/// `serde_json::Error`, why a text was not read.
#[verifier::external_type_specification]
#[verifier::external_body]
pub struct ExJsonError(JsonError);

/// The shape of a JSON value: which kind it is, the text of a string, the
/// items of an array, the members of an object. What a number holds is left out.
pub enum JsonTree {
    Null,
    Bool(bool),
    Number,
    Text(Seq<char>),
    Array(Seq<JsonTree>),
    Object(Map<Seq<char>, JsonTree>),
}

/// The shape of the JSON value that `value` holds.
pub uninterp spec fn json_tree(value: Value) -> JsonTree;

/// What `serde_json::from_str` makes of a text: the shape of the value it
/// reads from it, or `None` where it reports an error.
pub uninterp spec fn json_parsed(text: Seq<char>) -> Option<JsonTree>;

/// `serde_json::from_str`, reading a `serde_json::Value`. The same text is
/// always read the same way: it gives a value of the shape `json_parsed`
/// names, or an error where `json_parsed` names none.
#[verifier::external_body]
pub(crate) fn from_str(text: &str) -> (r: Result<Value, JsonError>)
    ensures
        match r {
            Ok(value) => json_parsed(text@) == Some(json_tree(value)),
            Err(_) => json_parsed(text@) is None,
        },
{
    serde_json::from_str(text)
}

/// `serde_json::Value::get` with a string index: the member of that name
/// where the value is an object that has one, else `None`.
#[verifier::external_body]
pub(crate) fn member<'a>(value: &'a Value, key: &str) -> (r: Option<&'a Value>)
    ensures
        match json_tree(*value) {
            JsonTree::Object(members) => if members.contains_key(key@) {
                r matches Some(found) && json_tree(*found) == members[key@]
            } else {
                r is None
            },
            _ => r is None,
        },
{
    value.get(key)
}

/// `serde_json::Value::as_str`: the text where the value is a string, else
/// `None`.
#[verifier::external_body]
pub(crate) fn as_str<'a>(value: &'a Value) -> (r: Option<&'a str>)
    ensures
        match json_tree(*value) {
            JsonTree::Text(text) => r matches Some(found) && found@ == text,
            _ => r is None,
        },
{
    value.as_str()
}

} // verus!
