//! JSON documents as the decoder sees them.
//!
//! Documents are parsed and held by `serde_json`. This module gives them a
//! mathematical model, [`Json`], and states for each operation of
//! `serde_json` that the crate calls what it returns in terms of that model.
//! Those statements are believed, not proved: they are the boundary between
//! the verified code of this crate and `serde_json`.
use serde_json::Value;
use vstd::prelude::*;

use crate::proto::mighty_proto::Double;

verus! {

/// `serde_json::Value`: a parsed JSON document. Verus sees nothing inside
/// it; what it holds is named by [`json_model`].
#[verifier::external_type_specification]
#[verifier::external_body]
pub struct ExValue(serde_json::Value);

/// `serde_json::Error`: why a text is not a JSON document.
#[verifier::external_type_specification]
#[verifier::external_body]
pub struct ExJsonError(serde_json::Error);

/// A JSON number. `integer` is its value where `serde_json` holds the
/// number as an integer, which it can for every integer from `i64::MIN` to
/// `u64::MAX`, and `None` where it holds a floating-point number; `double`
/// is the number in double precision.
pub struct JsonNumber {
    pub integer: Option<int>,
    pub double: Double,
}

/// The mathematical model of a JSON document.
pub enum Json {
    Null,
    Bool(bool),
    Number(JsonNumber),
    String(Seq<char>),
    Array(Seq<Json>),
    Object(Map<Seq<char>, Json>),
}

impl Json {
    /// The member `key` of an object; `None` for a missing key and for
    /// whatever is not an object.
    pub open spec fn get(self, key: Seq<char>) -> Option<Json> {
        match self {
            Json::Object(members) => if members.contains_key(key) {
                Some(members[key])
            } else {
                None
            },
            _ => None,
        }
    }

    /// The elements of an array.
    pub open spec fn as_array(self) -> Option<Seq<Json>> {
        match self {
            Json::Array(items) => Some(items),
            _ => None,
        }
    }

    /// The members of an object.
    pub open spec fn as_object(self) -> Option<Map<Seq<char>, Json>> {
        match self {
            Json::Object(members) => Some(members),
            _ => None,
        }
    }

    /// The characters of a string.
    pub open spec fn as_str(self) -> Option<Seq<char>> {
        match self {
            Json::String(s) => Some(s),
            _ => None,
        }
    }

    /// The value of an integer that fits in `i64`.
    pub open spec fn as_i64(self) -> Option<i64> {
        match self {
            Json::Number(JsonNumber { integer: Some(n), .. }) => if i64::MIN <= n <= i64::MAX {
                Some(n as i64)
            } else {
                None
            },
            _ => None,
        }
    }

    /// The value of an integer that fits in `u64`.
    pub open spec fn as_u64(self) -> Option<u64> {
        match self {
            Json::Number(JsonNumber { integer: Some(n), .. }) => if 0 <= n <= u64::MAX {
                Some(n as u64)
            } else {
                None
            },
            _ => None,
        }
    }

    /// Any number, in double precision.
    pub open spec fn as_double(self) -> Option<Double> {
        match self {
            Json::Number(n) => Some(n.double),
            _ => None,
        }
    }
}

/// The model of a parsed document: what `serde_json` holds in it.
pub uninterp spec fn json_model(v: Value) -> Json;

/// The compact text that `serde_json` writes for a document: no white space
/// between tokens, the members of an object in the order of their keys.
pub uninterp spec fn json_text(m: Json) -> Seq<char>;

/// The document that `serde_json` reads from a text, `None` where it
/// rejects the text.
pub uninterp spec fn json_parse(text: Seq<char>) -> Option<Json>;

/// The models of a sequence of documents, in order.
pub open spec fn json_models(items: Seq<Value>) -> Seq<Json> {
    items.map_values(|v: Value| json_model(v))
}

/// Whether `entries` lists the members of an object exactly: every entry is
/// a member, no key comes twice, and every member has an entry.
pub open spec fn lists_members(
    entries: Seq<(&String, &Value)>,
    members: Map<Seq<char>, Json>,
) -> bool {
    &&& forall|i: int|
        0 <= i < entries.len() ==> members.contains_key(#[trigger] entries[i].0@)
            && members[entries[i].0@] == json_model(*entries[i].1)
    &&& forall|i: int, j: int|
        0 <= i < j < entries.len() ==> #[trigger] entries[i].0@ != #[trigger] entries[j].0@
    &&& forall|key: Seq<char>| #[trigger]
        members.contains_key(key) ==> exists|i: int|
            0 <= i < entries.len() && #[trigger] entries[i].0@ == key
}

/// `Value::as_array`: the elements of an array, in order, and `None` for
/// whatever is not an array.
pub assume_specification[ serde_json::Value::as_array ](v: &Value) -> (items: Option<&Vec<Value>>)
    ensures
        match items {
            Some(items) => json_model(*v).as_array() == Some(json_models(items@)),
            None => json_model(*v).as_array() is None,
        },
;

/// `Value::as_str`: the characters of a string, and `None` for whatever is
/// not a string.
pub assume_specification[ serde_json::Value::as_str ](v: &Value) -> (s: Option<&str>)
    ensures
        match s {
            Some(s) => json_model(*v).as_str() == Some(s@),
            None => json_model(*v).as_str() is None,
        },
;

/// `Value::as_i64`: the value of a number that is held as an integer and
/// fits in `i64`, and `None` for any other document.
pub assume_specification[ serde_json::Value::as_i64 ](v: &Value) -> (n: Option<i64>)
    ensures
        n == json_model(*v).as_i64(),
;

/// `Value::as_u64`: the value of a number that is held as an integer and
/// fits in `u64`, and `None` for any other document.
pub assume_specification[ serde_json::Value::as_u64 ](v: &Value) -> (n: Option<u64>)
    ensures
        n == json_model(*v).as_u64(),
;

/// `Value::get` with a string key: the member of an object under that key,
/// and `None` where the key is missing or the document is not an object.
#[verifier::external_body]
pub(crate) fn value_get<'a>(v: &'a Value, key: &str) -> (member: Option<&'a Value>)
    ensures
        match member {
            Some(member) => json_model(*v).get(key@) == Some(json_model(*member)),
            None => json_model(*v).get(key@) is None,
        },
{
    v.get(key)
}

/// `Value::as_f64`: any number in double precision, handed out as its bit
/// pattern, and `None` for whatever is not a number.
#[verifier::external_body]
pub(crate) fn value_as_double(v: &Value) -> (number: Option<Double>)
    ensures
        number == json_model(*v).as_double(),
{
    match v.as_f64() {
        Some(x) => Some(Double { bits: x.to_bits() }),
        None => None,
    }
}

/// `Value::as_object` and `Map::iter`: the members of an object, each key
/// once, and `None` for whatever is not an object. The order of the entries
/// is left open.
#[verifier::external_body]
pub(crate) fn value_entries<'a>(v: &'a Value) -> (entries: Option<Vec<(&'a String, &'a Value)>>)
    ensures
        match entries {
            Some(entries) => json_model(*v).as_object() matches Some(members) && lists_members(
                entries@,
                members,
            ),
            None => json_model(*v).as_object() is None,
        },
{
    match v.as_object() {
        Some(members) => Some(members.iter().collect()),
        None => None,
    }
}

/// `Value`'s `Display`, through `to_string`: the compact text of the
/// document. That the text depends on the model alone holds of `serde_json`
/// as this crate builds it, with its default features: objects are kept in
/// the order of their keys and numbers as integers or doubles. With
/// `preserve_order` or `arbitrary_precision` turned on it would not hold.
#[verifier::external_body]
pub(crate) fn value_to_string(v: &Value) -> (text: String)
    ensures
        text@ == json_text(json_model(*v)),
{
    v.to_string()
}

/// `serde_json::from_str` for a `Value`: the document that the text
/// denotes, or the reason why it denotes none. Which of the two depends on
/// the text alone.
#[verifier::external_body]
pub(crate) fn parse_json(text: &str) -> (parsed: Result<Value, serde_json::Error>)
    ensures
        match parsed {
            Ok(v) => json_parse(text@) == Some(json_model(v)),
            Err(_) => json_parse(text@) is None,
        },
{
    serde_json::from_str::<Value>(text)
}

/// `serde_json::Error`'s `Display`: the reason in words. Nothing is stated
/// of the wording.
#[verifier::external_body]
pub(crate) fn json_error_text(error: &serde_json::Error) -> String {
    error.to_string()
}

} // verus!
