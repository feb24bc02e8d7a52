//! The JSON values that the frontend sends, held as plain data.
//!
//! Objects keep their members in the order serde_json iterates them (sorted
//! by key, each key once). Arrays and objects also carry their compact JSON
//! text, which is what a cell shows when one of them is written as its
//! value; floating-point numbers likewise carry their JSON text.

use vstd::prelude::*;
use crate::text::{decimal, signed_decimal, str_eq, u64_text, i64_text};
use serde_json::Value;

verus! {

/// A JSON number, split the way serde_json stores it.
#[derive(Debug)]
pub enum JsonNumber {
    /// A non-negative integer.
    PosInt(u64),
    /// A negative integer.
    NegInt(i64),
    /// Any other number, by its JSON text (e.g. `12.5`).
    Float(String),
}

/// A JSON value.
#[derive(Debug)]
pub enum Json {
    Null,
    Bool(bool),
    Number(JsonNumber),
    String(String),
    /// The elements, and the compact JSON text of the whole array.
    Array { items: Vec<Json>, text: String },
    /// The members in iteration order, and the compact JSON text of the whole
    /// object.
    Object { members: Vec<(String, Json)>, text: String },
}

/// The first member named `key`, if any.
pub open spec fn member_spec(members: Seq<(String, Json)>, key: Seq<char>) -> Option<Json>
    decreases members.len(),
{
    if members.len() == 0 {
        None
    } else if members[0].0@ == key {
        Some(members[0].1)
    } else {
        member_spec(members.drop_first(), key)
    }
}

impl JsonNumber {
    /// A copy of this number.
    pub fn copy(&self) -> (res: JsonNumber)
        ensures
            res == *self,
    {
        match self {
            JsonNumber::PosInt(n) => JsonNumber::PosInt(*n),
            JsonNumber::NegInt(n) => JsonNumber::NegInt(*n),
            JsonNumber::Float(t) => JsonNumber::Float(t.clone()),
        }
    }
}

impl Json {
    /// `Value::as_str`: the text of a string value.
    pub open spec fn str_spec(self) -> Option<Seq<char>> {
        match self {
            Json::String(s) => Some(s@),
            _ => None,
        }
    }

    /// `Value::as_u64`: a non-negative integer.
    pub open spec fn u64_spec(self) -> Option<u64> {
        match self {
            Json::Number(JsonNumber::PosInt(n)) => Some(n),
            _ => None,
        }
    }

    /// `Value::get` with a string key: a member of an object.
    pub open spec fn get_spec(self, key: Seq<char>) -> Option<Json> {
        match self {
            Json::Object { members, .. } => member_spec(members@, key),
            _ => None,
        }
    }

    /// The text a value shows as cell content: a string without quotes,
    /// nothing for null, and the JSON text of anything else.
    pub open spec fn text_spec(self) -> Seq<char> {
        match self {
            Json::Null => Seq::empty(),
            Json::Bool(b) => if b { "true"@ } else { "false"@ },
            Json::Number(JsonNumber::PosInt(n)) => decimal(n as nat),
            Json::Number(JsonNumber::NegInt(n)) => signed_decimal(n as int),
            Json::Number(JsonNumber::Float(t)) => t@,
            Json::String(s) => s@,
            Json::Array { text, .. } => text@,
            Json::Object { text, .. } => text@,
        }
    }

    /// The text of a string value.
    pub fn as_str(&self) -> (res: Option<&str>)
        ensures
            match res {
                Some(s) => self.str_spec() == Some(s@),
                None => self.str_spec() is None,
            },
    {
        match self {
            Json::String(s) => Some(s.as_str()),
            _ => None,
        }
    }

    /// The value of a non-negative integer.
    pub fn as_u64(&self) -> (res: Option<u64>)
        ensures
            res == self.u64_spec(),
    {
        match self {
            Json::Number(JsonNumber::PosInt(n)) => Some(*n),
            _ => None,
        }
    }

    /// Whether this is an object.
    pub fn is_object(&self) -> (res: bool)
        ensures
            res == (self is Object),
    {
        match self {
            Json::Object { .. } => true,
            _ => false,
        }
    }

    /// The member of an object named `key`.
    pub fn get(&self, key: &str) -> (res: Option<&Json>)
        ensures
            match res {
                Some(v) => self.get_spec(key@) == Some(*v),
                None => self.get_spec(key@) is None,
            },
    {
        match self {
            Json::Object { members, .. } => {
                let n = members.len();
                let mut i: usize = 0;
                assert(members@.skip(0) =~= members@);
                while i < n
                    invariant
                        n == members@.len(),
                        i <= n,
                        self.get_spec(key@) == member_spec(members@.skip(i as int), key@),
                    decreases n - i,
                {
                    assert(members@.skip(i as int).drop_first() =~= members@.skip(i + 1));
                    assert(members@.skip(i as int)[0] == members@[i as int]);
                    if str_eq(members[i].0.as_str(), key) {
                        return Some(&members[i].1);
                    }
                    i = i + 1;
                }
                None
            },
            _ => None,
        }
    }

    /// Renders the value as cell text: strings lose their quotes and null
    /// becomes empty, everything else is its JSON text.
    pub fn as_text(&self) -> (res: String)
        ensures
            res@ == self.text_spec(),
    {
        match self {
            Json::String(s) => s.clone(),
            Json::Null => String::new(),
            Json::Bool(b) => {
                proof {
                    reveal_strlit("true");
                    reveal_strlit("false");
                }
                if *b { String::from_str("true") } else { String::from_str("false") }
            },
            Json::Number(JsonNumber::PosInt(n)) => u64_text(*n),
            Json::Number(JsonNumber::NegInt(n)) => i64_text(*n),
            Json::Number(JsonNumber::Float(t)) => t.clone(),
            Json::Array { text, .. } => text.clone(),
            Json::Object { text, .. } => text.clone(),
        }
    }
}

#[verifier::external_type_specification]
#[verifier::external_body]
pub struct ExValue(serde_json::Value);

#[verifier::external_type_specification]
#[verifier::external_body]
pub struct ExNumber(serde_json::Number);

/// What `serde_json::from_str` gives for a text, as a `serde_json::Value`
/// read into [`Json`] variant by variant; `None` where it refuses the text.
pub uninterp spec fn parsed_json(text: Seq<char>) -> Option<Json>;

/// Parses JSON text with `serde_json::from_str` into a `serde_json::Value`,
/// and reads that into [`Json`]: objects keep serde_json's member order,
/// and arrays, objects and floats carry the text that `Value::to_string`
/// and `Number::to_string` give.
#[verifier::external_body]
pub(crate) fn parse_json(text: &str) -> (res: Option<Json>)
    ensures
        res == parsed_json(text@),
{
    serde_json::from_str::<Value>(text).ok().map(|value| json_of_value(&value))
}

/// A `serde_json::Value` as [`Json`], one variant for each.
#[verifier::external_body]
fn json_of_value(value: &Value) -> Json {
    match value {
        Value::Null => Json::Null,
        Value::Bool(b) => Json::Bool(*b),
        Value::Number(n) => Json::Number(json_number_of(n)),
        Value::String(s) => Json::String(s.clone()),
        Value::Array(items) => Json::Array { items: items.iter().map(json_of_value).collect(), text: value.to_string() },
        Value::Object(map) => Json::Object {
            members: map.iter().map(|(key, member)| (key.clone(), json_of_value(member))).collect(),
            text: value.to_string(),
        },
    }
}

/// A `serde_json::Number` as [`JsonNumber`], by the kind serde_json stored
/// it as: `as_u64` for a non-negative integer, `as_i64` for a negative one,
/// and its text for a float.
#[verifier::external_body]
fn json_number_of(n: &serde_json::Number) -> JsonNumber {
    match (n.as_u64(), n.as_i64()) {
        (Some(u), _) => JsonNumber::PosInt(u),
        (None, Some(i)) => JsonNumber::NegInt(i),
        (None, None) => JsonNumber::Float(n.to_string()),
    }
}

} // verus!
