//! Decoding of JSON documents into records.
//!
//! A record is an object, or an array with its fields in order. A field that is
//! missing or `null` is absent. A field of another type than the record's makes
//! the document no such record.

use crate::clock::{parse_timestamp, timestamp_of, Timestamp};
use crate::json::{member, Json, JsonNumber};
use vstd::prelude::*;

verus! {

/// Whether a document can be a record with this many fields.
pub open spec fn is_record(json: Json, fields: nat) -> bool {
    match json {
        Json::Object(_) => true,
        Json::Array(items) => items@.len() <= fields,
        _ => false,
    }
}

/// Decides whether a document can be a record with this many fields.
pub fn record_like(json: &Json, fields: usize) -> (r: bool)
    ensures
        r == is_record(*json, fields as nat),
{
    match json {
        Json::Object(_) => true,
        Json::Array(items) => items.len() <= fields,
        _ => false,
    }
}

/// A field of a record, by its name and by its position.
pub open spec fn field(json: Json, name: Seq<char>, index: int) -> Option<Json> {
    match json {
        Json::Array(items) => if 0 <= index < items@.len() {
            Some(items@[index])
        } else {
            None
        },
        _ => member(json, name),
    }
}

/// The document behind a reference that may be missing.
pub open spec fn target(json: Option<&Json>) -> Option<Json> {
    match json {
        Some(j) => Some(*j),
        None => None,
    }
}

/// Reads a field of a record.
pub fn read_field<'a>(json: &'a Json, name: &str, index: usize) -> (r: Option<&'a Json>)
    ensures
        target(r) == field(*json, name@, index as int),
{
    match json {
        Json::Array(items) => if index < items.len() {
            Some(&items[index])
        } else {
            None
        },
        _ => json.get(name),
    }
}

/// An optional text: absent, present, or (`None`) of another type.
pub open spec fn text_field(value: Option<Json>) -> Option<Option<String>> {
    match value {
        None => Some(None),
        Some(Json::Null) => Some(None),
        Some(Json::Text(t)) => Some(Some(t)),
        _ => None,
    }
}

/// Decodes an optional text.
pub fn decode_text(value: Option<&Json>) -> (r: Option<Option<String>>)
    ensures
        r == text_field(target(value)),
{
    match value {
        None => Some(None),
        Some(Json::Null) => Some(None),
        Some(Json::Text(t)) => Some(Some(t.clone())),
        _ => None,
    }
}

/// An optional truth value.
pub open spec fn bool_field(value: Option<Json>) -> Option<Option<bool>> {
    match value {
        None => Some(None),
        Some(Json::Null) => Some(None),
        Some(Json::Bool(b)) => Some(Some(b)),
        _ => None,
    }
}

/// Decodes an optional truth value.
pub fn decode_bool(value: Option<&Json>) -> (r: Option<Option<bool>>)
    ensures
        r == bool_field(target(value)),
{
    match value {
        None => Some(None),
        Some(Json::Null) => Some(None),
        Some(Json::Bool(b)) => Some(Some(*b)),
        _ => None,
    }
}

/// An optional count.
pub open spec fn count_field(value: Option<Json>) -> Option<Option<u64>> {
    match value {
        None => Some(None),
        Some(Json::Null) => Some(None),
        Some(Json::Number(JsonNumber::Unsigned(n))) => Some(Some(n)),
        _ => None,
    }
}

/// Decodes an optional count.
pub fn decode_count(value: Option<&Json>) -> (r: Option<Option<u64>>)
    ensures
        r == count_field(target(value)),
{
    match value {
        None => Some(None),
        Some(Json::Null) => Some(None),
        Some(Json::Number(JsonNumber::Unsigned(n))) => Some(Some(*n)),
        _ => None,
    }
}

/// An optional time.
pub open spec fn time_field(value: Option<Json>) -> Option<Option<Timestamp>> {
    match value {
        None => Some(None),
        Some(Json::Null) => Some(None),
        Some(Json::Text(t)) => match timestamp_of(t@) {
            Some(timestamp) => Some(Some(timestamp)),
            None => None,
        },
        _ => None,
    }
}

/// Decodes an optional time.
pub fn decode_time(value: Option<&Json>) -> (r: Option<Option<Timestamp>>)
    ensures
        r == time_field(target(value)),
{
    match value {
        None => Some(None),
        Some(Json::Null) => Some(None),
        Some(Json::Text(t)) => match parse_timestamp(t.as_str()) {
            Some(timestamp) => Some(Some(timestamp)),
            None => None,
        },
        _ => None,
    }
}

/// An optional document of any type.
pub open spec fn value_field(value: Option<Json>) -> Option<Json> {
    match value {
        Some(Json::Null) => None,
        _ => value,
    }
}

/// Decodes an optional document of any type.
pub fn decode_value<'a>(value: Option<&'a Json>) -> (r: Option<&'a Json>)
    ensures
        target(r) == value_field(target(value)),
{
    match value {
        Some(Json::Null) => None,
        _ => value,
    }
}

} // verus!
