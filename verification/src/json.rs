//! The boundary to `serde_json`: a mathematical model of a JSON value, and the
//! few calls into the crate that the codec is built on.
//!
//! Nothing in this file is proved about `serde_json` itself. Each function
//! marked `external_body` states what the call it makes is taken to do.

use serde_json::Value;
use vstd::prelude::*;

verus! {

/// A JSON value as mathematics. An object keeps its members in order.
pub enum Json {
    Null,
    Bool(bool),
    /// A number, by the text that JSON writes for it.
    Number(Seq<char>),
    Text(Seq<char>),
    Array(Seq<Json>),
    Object(Seq<(Seq<char>, Json)>),
}

/// `serde_json::Value`, taken as it is: nothing inside it is seen from here.
#[verifier::external_type_specification]
#[verifier::external_body]
pub struct ExValue(serde_json::Value);

/// `serde_json::Error`, taken as it is.
#[verifier::external_type_specification]
#[verifier::external_body]
pub struct ExError(serde_json::Error);

/// The JSON value that a `serde_json::Value` holds. The members of an object
/// stand in the order in which its map yields them; with the feature
/// `preserve_order`, which this crate asks for, that is the order of
/// insertion.
pub uninterp spec fn json_of(v: Value) -> Json;

/// What `serde_json::from_str` reads from a text: the value, or `None` where
/// it reports an error.
pub uninterp spec fn json_parse(text: Seq<char>) -> Option<Json>;

/// The compact text that `serde_json` writes for a value: no white space, the
/// members of an object in their order.
pub uninterp spec fn json_text(j: Json) -> Seq<char>;

/// The values of a list, each as the JSON it holds.
pub open spec fn items_of(items: Seq<Value>) -> Seq<Json> {
    items.map_values(|v: Value| json_of(v))
}

/// The members of a list of pairs, each key by its characters and each value
/// as the JSON it holds.
pub open spec fn members_of(members: Seq<(String, Value)>) -> Seq<(Seq<char>, Json)> {
    members.map_values(|m: (String, Value)| (m.0@, json_of(m.1)))
}

/// One level of a `serde_json::Value`: which kind of value it is, with what it
/// holds directly. Arrays and objects hold their parts unopened.
pub enum Node {
    Null,
    Bool(bool),
    Number,
    Text(String),
    Array(Vec<Value>),
    Object(Vec<(String, Value)>),
}

impl Node {
    /// Whether this is the top level of the JSON value `j`.
    pub open spec fn opens(self, j: Json) -> bool {
        match self {
            Node::Null => j == Json::Null,
            Node::Bool(b) => j == Json::Bool(b),
            Node::Number => j is Number,
            Node::Text(s) => j == Json::Text(s@),
            Node::Array(items) => j == Json::Array(items_of(items@)),
            Node::Object(members) => j == Json::Object(members_of(members@)),
        }
    }
}

/// `serde_json::from_str` at type `Value`. It returns `Ok` with the value that
/// the text denotes exactly when `json_parse` names one, and `Err` otherwise.
#[verifier::external_body]
pub(crate) fn parse_json(text: &str) -> (r: Result<Value, serde_json::Error>)
    ensures
        match r {
            Ok(v) => json_parse(text@) == Some(json_of(v)),
            Err(_) => json_parse(text@) is None,
        },
{
    serde_json::from_str::<Value>(text)
}

/// `Value`'s `Display`, through `to_string`: the compact JSON text of the
/// value, which `json_text` names.
#[verifier::external_body]
pub(crate) fn print_json(v: &Value) -> (r: String)
    ensures
        r@ == json_text(json_of(*v)),
{
    v.to_string()
}

/// Tells the variants of `Value` apart and hands out what the variant holds.
/// A number's digits are left behind; the members of an object come in the
/// order in which the map yields them.
#[verifier::external_body]
pub(crate) fn open_json(v: Value) -> (r: Node)
    ensures
        r.opens(json_of(v)),
{
    match v {
        Value::Null => Node::Null,
        Value::Bool(b) => Node::Bool(b),
        Value::Number(_) => Node::Number,
        Value::String(s) => Node::Text(s),
        Value::Array(items) => Node::Array(items),
        Value::Object(members) => Node::Object(members.into_iter().collect()),
    }
}

/// `Value::String`: the JSON string with the given characters.
#[verifier::external_body]
pub(crate) fn json_string(s: String) -> (r: Value)
    ensures
        json_of(r) == Json::Text(s@),
{
    Value::String(s)
}

/// `Value::Array`: the JSON array of the given values, in their order.
#[verifier::external_body]
pub(crate) fn json_array(items: Vec<Value>) -> (r: Value)
    ensures
        json_of(r) == Json::Array(items_of(items@)),
{
    Value::Array(items)
}

/// `Value::Object` over a map collected from the pairs. With no key given
/// twice the object holds exactly these members, in this order.
#[verifier::external_body]
pub(crate) fn json_object(members: Vec<(String, Value)>) -> (r: Value)
    requires
        forall|i: int, j: int|
            0 <= i < j < members.len() ==> (#[trigger] members[i]).0@ != (#[trigger] members[j]).0@,
    ensures
        json_of(r) == Json::Object(members_of(members@)),
{
    Value::Object(members.into_iter().collect())
}

} // verus!
