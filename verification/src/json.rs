//! JSON values as plain data, and what is read out of them.

use crate::collections;
use crate::model::Real;
use crate::text::str_eq;
use vstd::prelude::*;
use vstd::string::*;

verus! {

/// A JSON value. A number keeps its value as a signed and as an unsigned integer, where it is one
/// that fits, and the bit pattern of its double-precision value.
pub enum Json {
    Null,
    Bool(bool),
    Number { integer: Option<i64>, unsigned: Option<u64>, bits: u64 },
    Text(String),
    Array(Vec<Json>),
    Object(Vec<(String, Json)>),
}

/// `serde_json::Value`.
#[verifier::external_type_specification]
#[verifier::external_body]
pub struct ExJsonValue(serde_json::Value);

/// What a `serde_json::Value` holds.
pub uninterp spec fn json_tree(value: serde_json::Value) -> Json;

/// What `serde_json::from_str` reads from a text: `None` where the text is not JSON.
pub uninterp spec fn parsed_json(text: Seq<char>) -> Option<Json>;

/// Calls `serde_json::from_str` for a `serde_json::Value`. What it reads depends on the text alone.
#[verifier::external_body]
pub(crate) fn json_value(text: &str) -> (r: Option<serde_json::Value>)
    ensures
        match r {
            Some(value) => parsed_json(text@) == Some(json_tree(value)),
            None => parsed_json(text@) is None,
        },
{
    serde_json::from_str(text).ok()
}

/// Moves a `serde_json::Value` into a `Json`, part by part. Object members come in the order in
/// which `serde_json::Map` yields them, each key once.
#[verifier::external_body]
pub(crate) fn json_of_value(value: &serde_json::Value) -> (r: Json)
    ensures
        r == json_tree(*value),
{
    match value {
        serde_json::Value::Null => Json::Null,
        serde_json::Value::Bool(b) => Json::Bool(*b),
        serde_json::Value::Number(n) => Json::Number {
            integer: n.as_i64(),
            unsigned: n.as_u64(),
            bits: n.as_f64().unwrap_or_default().to_bits(),
        },
        serde_json::Value::String(s) => Json::Text(s.clone()),
        serde_json::Value::Array(a) => Json::Array(a.iter().map(json_of_value).collect()),
        serde_json::Value::Object(m) => Json::Object(
            m.iter().map(|(k, v)| (k.clone(), json_of_value(v))).collect(),
        ),
    }
}

/// Reads a JSON text.
pub fn parse_json(text: &str) -> (r: Option<Json>)
    ensures
        r == parsed_json(text@),
{
    match json_value(text) {
        Some(value) => Some(json_of_value(&value)),
        None => None,
    }
}

/// The text that `serde_json::to_string` writes for a value.
pub uninterp spec fn written_json(value: Json) -> Seq<char>;

/// Calls `serde_json::to_string` for a `serde_json::Value`, which cannot fail. What is written
/// depends on what the value holds alone. That it reads back as the same value is not claimed: a
/// number with a fraction may come back as one of its neighbours.
#[verifier::external_body]
pub(crate) fn value_text(value: &serde_json::Value) -> (r: String)
    ensures
        r@ == written_json(json_tree(*value)),
{
    serde_json::to_string(value).unwrap_or_default()
}

/// The message of the error with which `serde_json::from_str` refuses a text.
pub uninterp spec fn json_error(text: Seq<char>) -> Seq<char>;

/// Calls `serde_json::from_str` on a text that it refuses and returns the error's message, which
/// depends on the text alone.
#[verifier::external_body]
pub(crate) fn json_error_message(text: &str) -> (r: String)
    requires
        parsed_json(text@) is None,
    ensures
        r@ == json_error(text@),
{
    serde_json::from_str::<serde_json::Value>(text).err().map(|e| e.to_string()).unwrap_or_default()
}

/// The JSON array that `serde_json::to_string` writes for a list of texts.
pub uninterp spec fn text_list_json(items: Seq<Seq<char>>) -> Seq<char>;

/// The list of texts that `serde_json::from_str` reads: `None` where the text is not a JSON array
/// of strings.
pub uninterp spec fn parsed_text_list(text: Seq<char>) -> Option<Seq<Seq<char>>>;

/// Calls `serde_json::to_string` on a list of texts, which cannot fail. What is written is not empty
/// and reads back as the same list.
#[verifier::external_body]
pub(crate) fn text_list_to_json(items: &Vec<String>) -> (r: String)
    ensures
        r@ == text_list_json(collections::texts(items@)),
        r@.len() > 0,
        parsed_text_list(r@) == Some(collections::texts(items@)),
{
    serde_json::to_string(items).unwrap_or_default()
}

/// Calls `serde_json::from_str` for a list of texts.
#[verifier::external_body]
pub(crate) fn text_list_from_json(text: &str) -> (r: Option<Vec<String>>)
    ensures
        match r {
            Some(items) => parsed_text_list(text@) == Some(collections::texts(items@)),
            None => parsed_text_list(text@) is None,
        },
{
    serde_json::from_str(text).ok()
}

/// The list that a stored JSON text holds: none where it is not a list of texts.
pub open spec fn stored_list(text: Seq<char>) -> Seq<Seq<char>> {
    match parsed_text_list(text) {
        Some(items) => items,
        None => Seq::empty(),
    }
}

/// Reads a stored list of texts; what is not one counts as empty.
pub fn read_stored_list(text: &str) -> (r: Vec<String>)
    ensures
        collections::texts(r@) == stored_list(text@),
{
    match text_list_from_json(text) {
        Some(items) => items,
        None => {
            let r: Vec<String> = Vec::new();
            assert(collections::texts(r@) =~= Seq::empty());
            r
        },
    }
}

/// The first of the members `from..` whose key is `key`.
pub open spec fn member_from(members: Seq<(String, Json)>, key: Seq<char>, from: int) -> Option<Json>
    decreases members.len() - from,
{
    if from < 0 || from >= members.len() {
        None
    } else if members[from].0@ == key {
        Some(members[from].1)
    } else {
        member_from(members, key, from + 1)
    }
}

impl Json {
    /// The member of an object under a key; nothing where this is no object or has no such key.
    pub open spec fn member(self, key: Seq<char>) -> Option<Json> {
        match self {
            Json::Object(members) => member_from(members@, key, 0),
            _ => None,
        }
    }

    /// The characters of a string value.
    pub open spec fn text(self) -> Option<Seq<char>> {
        match self {
            Json::Text(s) => Some(s@),
            _ => None,
        }
    }

    /// The integer of a number that is one.
    pub open spec fn integer(self) -> Option<i64> {
        match self {
            Json::Number { integer, .. } => integer,
            _ => None,
        }
    }

    /// The characters of the string member under a key.
    pub open spec fn member_text(self, key: Seq<char>) -> Option<Seq<char>> {
        match self.member(key) {
            Some(v) => v.text(),
            None => None,
        }
    }

    /// The number of a number value.
    pub open spec fn number(self) -> Option<Real> {
        match self {
            Json::Number { bits, .. } => Some(Real { bits }),
            _ => None,
        }
    }

    /// The characters of the string member under a key, or a default.
    pub open spec fn text_or(self, key: Seq<char>, default: Seq<char>) -> Seq<char> {
        match self.member_text(key) {
            Some(s) => s,
            None => default,
        }
    }

    /// The integer member under a key, or a default.
    pub open spec fn int_or(self, key: Seq<char>, default: i64) -> i64 {
        match self.member(key) {
            Some(v) => match v.integer() {
                Some(n) => n,
                None => default,
            },
            None => default,
        }
    }

    /// The number member under a key.
    pub open spec fn member_real(self, key: Seq<char>) -> Option<Real> {
        match self.member(key) {
            Some(v) => v.number(),
            None => None,
        }
    }

    /// The truth value member under a key, or false.
    pub open spec fn member_true(self, key: Seq<char>) -> bool {
        self.member(key) == Some(Json::Bool(true))
    }

    /// Looks up a member.
    pub fn get(&self, key: &str) -> (r: Option<&Json>)
        ensures
            match r {
                Some(v) => self.member(key@) == Some(*v),
                None => self.member(key@) is None,
            },
    {
        match self {
            Json::Object(members) => {
                let mut i: usize = 0;
                while i < members.len()
                    invariant
                        i <= members.len(),
                        *self == Json::Object(*members),
                        member_from(members@, key@, 0) == member_from(members@, key@, i as int),
                    decreases members.len() - i,
                {
                    if str_eq(members[i].0.as_str(), key) {
                        return Some(&members[i].1);
                    }
                    i = i + 1;
                }
                None
            },
            _ => None,
        }
    }

    /// The string, where the value is one.
    pub fn as_str(&self) -> (r: Option<&str>)
        ensures
            match r {
                Some(s) => self.text() == Some(s@),
                None => self.text() is None,
            },
    {
        match self {
            Json::Text(s) => Some(s.as_str()),
            _ => None,
        }
    }

    /// The signed integer, where the value is a number that is one.
    pub fn as_i64(&self) -> (r: Option<i64>)
        ensures
            r == self.integer(),
    {
        match self {
            Json::Number { integer, .. } => *integer,
            _ => None,
        }
    }

    /// The string member under a key, or a default.
    pub fn get_text(&self, key: &str, default: &str) -> (r: String)
        ensures
            r@ == self.text_or(key@, default@),
    {
        match self.get_str(key) {
            Some(s) => s.to_owned(),
            None => default.to_owned(),
        }
    }

    /// The string member under a key, where there is one.
    pub fn get_opt_text(&self, key: &str) -> (r: Option<String>)
        ensures
            match r {
                Some(s) => self.member_text(key@) == Some(s@),
                None => self.member_text(key@) is None,
            },
    {
        match self.get_str(key) {
            Some(s) => Some(s.to_owned()),
            None => None,
        }
    }

    /// The integer member under a key, or a default.
    pub fn get_i64(&self, key: &str, default: i64) -> (r: i64)
        ensures
            r == self.int_or(key@, default),
    {
        match self.get(key) {
            Some(v) => match v.as_i64() {
                Some(n) => n,
                None => default,
            },
            None => default,
        }
    }

    /// The number member under a key.
    pub fn get_real(&self, key: &str) -> (r: Option<Real>)
        ensures
            r == self.member_real(key@),
    {
        match self.get(key) {
            Some(Json::Number { bits, .. }) => Some(Real { bits: *bits }),
            _ => None,
        }
    }

    /// The truth value member under a key, or false.
    pub fn get_bool(&self, key: &str) -> (r: bool)
        ensures
            r == self.member_true(key@),
    {
        match self.get(key) {
            Some(Json::Bool(b)) => *b,
            _ => false,
        }
    }

    /// The string member under a key.
    pub fn get_str(&self, key: &str) -> (r: Option<&str>)
        ensures
            match r {
                Some(s) => self.member_text(key@) == Some(s@),
                None => self.member_text(key@) is None,
            },
    {
        match self.get(key) {
            Some(v) => v.as_str(),
            None => None,
        }
    }
}

} // verus!
