//! JSON documents as plain values.
//!
//! Reading JSON text is the `serde_json` crate's. What it reads is handed over
//! as a [`Json`] value, and everything that is looked up in a document is
//! looked up here, in that value.

use vstd::prelude::*;
use crate::text::{chars_of, equals};

verus! {

#[verifier::external_type_specification]
#[verifier::external_body]
pub struct ExValue(serde_json::Value);

/// A JSON document. A number is kept as the text that denotes it, and the
/// members of an object as pairs of a name and a value, each name once.
#[derive(Debug, PartialEq, Eq)]
pub enum Json {
    Null,
    Bool(bool),
    Number(String),
    Text(String),
    Array(Vec<Json>),
    Object(Vec<(String, Json)>),
}

/// What `serde_json` reads out of a text: the document that the text
/// denotes, or `None` where the text is not JSON.
pub uninterp spec fn parsed_json(text: Seq<char>) -> Option<Json>;

/// The value of the first of `fields` that is named `name`.
pub open spec fn field_named(fields: Seq<(String, Json)>, name: Seq<char>) -> Option<Json>
    decreases fields.len(),
{
    if fields.len() == 0 {
        None
    } else if fields[0].0@ == name {
        Some(fields[0].1)
    } else {
        field_named(fields.skip(1), name)
    }
}

/// The member `name` of the document `of`, where that is an object which
/// has one.
pub open spec fn member_of(of: Option<Json>, name: Seq<char>) -> Option<Json> {
    match of {
        Some(Json::Object(fields)) => field_named(fields@, name),
        _ => None,
    }
}

/// The first element of the document `of`, where that is an array which is
/// not empty.
pub open spec fn first_of(of: Option<Json>) -> Option<Json> {
    match of {
        Some(Json::Array(items)) => if items@.len() > 0 {
            Some(items@[0])
        } else {
            None
        },
        _ => None,
    }
}

/// The text of the document `of`, where that is a string.
pub open spec fn text_in(of: Option<Json>) -> Option<Seq<char>> {
    match of {
        Some(Json::Text(s)) => Some(s@),
        _ => None,
    }
}

/// The document behind a reference that may be absent.
pub open spec fn referred(r: Option<&Json>) -> Option<Json> {
    match r {
        Some(j) => Some(*j),
        None => None,
    }
}

/// Copies a `serde_json::Value` into a `Json`, variant by variant: a number
/// by `Number::to_string`, the members of an object in the order of
/// `Map::iter`.
#[verifier::external_body]
pub(crate) fn json_from(value: &serde_json::Value) -> Json {
    match value {
        serde_json::Value::Null => Json::Null,
        serde_json::Value::Bool(b) => Json::Bool(*b),
        serde_json::Value::Number(n) => Json::Number(n.to_string()),
        serde_json::Value::String(s) => Json::Text(s.clone()),
        serde_json::Value::Array(items) => Json::Array(items.iter().map(json_from).collect()),
        serde_json::Value::Object(fields) => Json::Object(
            fields.iter().map(|(k, v)| (k.clone(), json_from(v))).collect(),
        ),
    }
}

/// Calls `serde_json::from_str` for a `serde_json::Value`. Believed: what
/// comes back depends on `text` alone.
#[verifier::external_body]
pub(crate) fn parse_json(text: &str) -> (r: Option<Json>)
    ensures
        r == parsed_json(text@),
{
    match serde_json::from_str::<serde_json::Value>(text) {
        Ok(value) => Some(json_from(&value)),
        Err(_) => None,
    }
}

/// The member `name` of `json`.
pub fn member<'a>(json: Option<&'a Json>, name: &str) -> (r: Option<&'a Json>)
    ensures
        referred(r) == member_of(referred(json), name@),
{
    match json {
        Some(Json::Object(fields)) => {
            let wanted = chars_of(name);
            let mut i: usize = 0;
            proof {
                assert(fields@.skip(0) == fields@);
            }
            while i < fields.len()
                invariant
                    i <= fields.len(),
                    wanted@ == name@,
                    referred(json) == Some(Json::Object(*fields)),
                    field_named(fields@, name@) == field_named(fields@.skip(i as int), name@),
                decreases fields.len() - i,
            {
                proof {
                    assert(fields@.skip(i as int).skip(1) == fields@.skip(i + 1));
                }
                let here = chars_of(fields[i].0.as_str());
                proof {
                    assert(fields@.skip(i as int)[0] == fields@[i as int]);
                }
                if equals(&here, &wanted) {
                    return Some(&fields[i].1);
                }
                i += 1;
            }
            None
        },
        _ => None,
    }
}

/// The first element of `json`.
pub fn first<'a>(json: Option<&'a Json>) -> (r: Option<&'a Json>)
    ensures
        referred(r) == first_of(referred(json)),
{
    match json {
        Some(Json::Array(items)) => if items.len() > 0 {
            Some(&items[0])
        } else {
            None
        },
        _ => None,
    }
}

/// The text of `json`.
pub fn text<'a>(json: Option<&'a Json>) -> (r: Option<&'a String>)
    ensures
        match r {
            Some(s) => text_in(referred(json)) == Some(s@),
            None => text_in(referred(json)) is None,
        },
{
    match json {
        Some(Json::Text(s)) => Some(s),
        _ => None,
    }
}

} // verus!
