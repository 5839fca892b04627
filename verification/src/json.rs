//! JSON documents as plain data, and the reading of fields from them.

use vstd::prelude::*;
use crate::text::str_eq;

verus! {

/// A JSON value. A number is held exactly when it is an integer; of any
/// other number only the fact that it is one is kept.
#[derive(Debug, PartialEq, Eq)]
pub enum Json {
    Null,
    Bool(bool),
    Int(i128),
    Float,
    Str(String),
    Array(Vec<Json>),
    Object(Vec<Member>),
}

/// One `key: value` pair of an object.
#[derive(Debug, PartialEq, Eq)]
pub struct Member {
    pub key: String,
    pub value: Json,
}

/// `serde_json::Value`, of which nothing is known here: a parsed document
/// is carried over into [`Json`] before it is read.
#[verifier::external_type_specification]
#[verifier::external_body]
pub struct ExValue(serde_json::Value);

/// The document that `serde_json` reads from a text, or `None` where it
/// does not take the text for JSON.
pub uninterp spec fn json_document(text: Seq<char>) -> Option<Json>;

/// `serde_json::from_str` at `serde_json::Value`: the parse of `text`, which
/// depends on the text alone, carried over into [`Json`]. A text that the
/// parser rejects gives `None`.
#[verifier::external_body]
pub(crate) fn parse_value(text: &str) -> (r: Option<Json>)
    ensures
        r == json_document(text@),
{
    match serde_json::from_str::<serde_json::Value>(text) {
        Ok(value) => Some(json_of_value(&value)),
        Err(_) => None,
    }
}

/// Carries a `serde_json::Value` over into [`Json`], variant by variant:
/// `Number::as_i128` tells the integers from the other numbers, and the
/// members of an object come in the order in which its map yields them.
#[verifier::external_body]
pub(crate) fn json_of_value(value: &serde_json::Value) -> Json {
    match value {
        serde_json::Value::Null => Json::Null,
        serde_json::Value::Bool(b) => Json::Bool(*b),
        serde_json::Value::Number(n) => match n.as_i128() {
            Some(i) => Json::Int(i),
            None => Json::Float,
        },
        serde_json::Value::String(s) => Json::Str(s.clone()),
        serde_json::Value::Array(items) => Json::Array(items.iter().map(json_of_value).collect()),
        serde_json::Value::Object(map) => Json::Object(
            map.iter().map(|(k, v)| Member { key: k.clone(), value: json_of_value(v) }).collect(),
        ),
    }
}

/// The position of the first member at or after `from` whose key is `key`;
/// the number of members where there is none.
pub open spec fn key_index(members: Seq<Member>, key: Seq<char>, from: int) -> int
    decreases members.len() - from,
{
    if from < 0 || from >= members.len() {
        members.len() as int
    } else if members[from].key@ == key {
        from
    } else {
        key_index(members, key, from + 1)
    }
}

impl Json {
    /// The value under `key`, where this is an object that has the key.
    pub open spec fn field(&self, key: Seq<char>) -> Option<Json> {
        match self {
            Json::Object(members) => {
                let i = key_index(members@, key, 0);
                if 0 <= i < members@.len() {
                    Some(members@[i].value)
                } else {
                    None
                }
            },
            _ => None,
        }
    }

    /// The text, where this is a string.
    pub open spec fn text(&self) -> Option<Seq<char>> {
        match self {
            Json::Str(s) => Some(s@),
            _ => None,
        }
    }

    /// The integer, where this is one.
    pub open spec fn integer(&self) -> Option<int> {
        match self {
            Json::Int(i) => Some(*i as int),
            _ => None,
        }
    }

    /// The items, where this is an array.
    pub open spec fn items(&self) -> Option<Seq<Json>> {
        match self {
            Json::Array(items) => Some(items@),
            _ => None,
        }
    }

    /// The text under `key`: `None` where the key is missing or holds
    /// anything but a string.
    pub open spec fn text_field(&self, key: Seq<char>) -> Option<Seq<char>> {
        match self.field(key) {
            Some(v) => v.text(),
            None => None,
        }
    }

    /// The integer under `key`: `None` where the key is missing or holds
    /// anything but an integer.
    pub open spec fn int_field(&self, key: Seq<char>) -> Option<int> {
        match self.field(key) {
            Some(v) => v.integer(),
            None => None,
        }
    }

    /// An optional text under `key`. A missing key and `null` both stand for
    /// "no text" (`Some(None)`); a value of another kind is an error (`None`).
    pub open spec fn optional_text_field(&self, key: Seq<char>) -> Option<Option<Seq<char>>> {
        match self.field(key) {
            None => Some(None),
            Some(Json::Null) => Some(None),
            Some(Json::Str(s)) => Some(Some(s@)),
            Some(_) => None,
        }
    }

    /// Looks up `key` in an object.
    pub fn get(&self, key: &str) -> (r: Option<&Json>)
        ensures
            match r {
                Some(v) => self.field(key@) == Some(*v),
                None => self.field(key@).is_none(),
            },
    {
        match self {
            Json::Object(members) => {
                let mut i: usize = 0;
                while i < members.len()
                    invariant
                        i <= members@.len(),
                        *self == Json::Object(*members),
                        key_index(members@, key@, 0) == key_index(members@, key@, i as int),
                    decreases members@.len() - i,
                {
                    if str_eq(members[i].key.as_str(), key) {
                        return Some(&members[i].value);
                    }
                    i += 1;
                }
                None
            },
            _ => None,
        }
    }

    /// The text of a string value.
    pub fn as_str(&self) -> (r: Option<&str>)
        ensures
            match r {
                Some(s) => self.text() == Some(s@),
                None => self.text().is_none(),
            },
    {
        match self {
            Json::Str(s) => Some(s.as_str()),
            _ => None,
        }
    }

    /// The items of an array value.
    pub fn as_array(&self) -> (r: Option<&Vec<Json>>)
        ensures
            match r {
                Some(items) => self.items() == Some(items@),
                None => self.items().is_none(),
            },
    {
        match self {
            Json::Array(items) => Some(items),
            _ => None,
        }
    }

    /// The integer, where it fits in an `i64`.
    pub fn as_i64(&self) -> (r: Option<i64>)
        ensures
            r == match self.integer() {
                Some(i) if i64::MIN <= i <= i64::MAX => Some(i as i64),
                _ => None,
            },
    {
        match self {
            Json::Int(i) => {
                if -0x8000_0000_0000_0000i128 <= *i && *i <= 0x7fff_ffff_ffff_ffffi128 {
                    Some(*i as i64)
                } else {
                    None
                }
            },
            _ => None,
        }
    }

    /// The integer, where it fits in a `u64`.
    pub fn as_u64(&self) -> (r: Option<u64>)
        ensures
            r == match self.integer() {
                Some(i) if 0 <= i <= u64::MAX => Some(i as u64),
                _ => None,
            },
    {
        match self {
            Json::Int(i) => {
                if 0i128 <= *i && *i <= 0xffff_ffff_ffff_ffffi128 {
                    Some(*i as u64)
                } else {
                    None
                }
            },
            _ => None,
        }
    }

    /// The text under `key`.
    pub fn get_str(&self, key: &str) -> (r: Option<&str>)
        ensures
            match r {
                Some(s) => self.text_field(key@) == Some(s@),
                None => self.text_field(key@).is_none(),
            },
    {
        match self.get(key) {
            Some(v) => v.as_str(),
            None => None,
        }
    }

    /// The optional text under `key`; `Err` where the key holds a value that
    /// is neither a string nor `null`.
    pub fn get_optional_str(&self, key: &str) -> (r: Result<Option<&str>, ()>)
        ensures
            match r {
                Ok(Some(s)) => self.optional_text_field(key@) == Some(Some(s@)),
                Ok(None) => self.optional_text_field(key@) == Some(None::<Seq<char>>),
                Err(_) => self.optional_text_field(key@).is_none(),
            },
    {
        match self.get(key) {
            None => Ok(None),
            Some(Json::Null) => Ok(None),
            Some(Json::Str(s)) => Ok(Some(s.as_str())),
            Some(_) => Err(()),
        }
    }
}

/// Parses a text as a JSON document.
pub fn parse_json(text: &str) -> (r: Option<Json>)
    ensures
        r == json_document(text@),
{
    parse_value(text)
}

} // verus!
