//! Structured values read from JSON and TOML documents, as plain values.
use vstd::prelude::*;
use crate::text::str_eq;

verus! {

/// A value of a JSON or TOML document. Numbers and dates are kept as their
/// text; a table holds each key once, in the order in which the parser's map
/// yields them (sorted by key, with the features this crate enables).
#[derive(Debug)]
pub enum DataValue {
    Null,
    Bool(bool),
    Scalar(String),
    Text(String),
    Array(Vec<DataValue>),
    Table(Vec<(String, DataValue)>),
}

#[verifier::external_type_specification]
#[verifier::external_body]
pub struct ExJsonValue(serde_json::Value);

#[verifier::external_type_specification]
#[verifier::external_body]
pub struct ExTomlValue(toml::Value);

/// What `serde_json::from_str::<serde_json::Value>` gives for `text`, as a
/// plain value; `None` when the text is not JSON.
pub uninterp spec fn json_document(text: Seq<char>) -> Option<DataValue>;

/// What `str::parse::<toml::Value>` gives for `text` (a TOML document read
/// as a table), as a plain value; `None` when the text is not TOML.
pub uninterp spec fn toml_document(text: Seq<char>) -> Option<DataValue>;

/// Parses `text` with `serde_json::from_str::<serde_json::Value>` and
/// converts the value. The contract names the result: it depends on the
/// text alone.
#[verifier::external_body]
pub(crate) fn parse_json(text: &str) -> (r: Option<DataValue>)
    ensures
        r == json_document(text@),
{
    serde_json::from_str::<serde_json::Value>(text).ok().map(|value| from_json(&value))
}

/// Parses `text` as a TOML document with `str::parse::<toml::Value>` and
/// converts the value. The contract names the result: it depends on the
/// text alone.
#[verifier::external_body]
pub(crate) fn parse_toml(text: &str) -> (r: Option<DataValue>)
    ensures
        r == toml_document(text@),
{
    text.parse::<toml::Value>().ok().map(|value| from_toml(&value))
}

/// Converts a `serde_json::Value` variant by variant.
#[verifier::external_body]
fn from_json(value: &serde_json::Value) -> DataValue {
    match value {
        serde_json::Value::Null => DataValue::Null,
        serde_json::Value::Bool(b) => DataValue::Bool(*b),
        serde_json::Value::Number(n) => DataValue::Scalar(n.to_string()),
        serde_json::Value::String(s) => DataValue::Text(s.clone()),
        serde_json::Value::Array(a) => DataValue::Array(a.iter().map(from_json).collect()),
        serde_json::Value::Object(o) => DataValue::Table(
            o.iter().map(|(k, v)| (k.clone(), from_json(v))).collect(),
        ),
    }
}

/// Converts a `toml::Value` variant by variant.
#[verifier::external_body]
fn from_toml(value: &toml::Value) -> DataValue {
    match value {
        toml::Value::String(s) => DataValue::Text(s.clone()),
        toml::Value::Integer(i) => DataValue::Scalar(i.to_string()),
        toml::Value::Float(f) => DataValue::Scalar(f.to_string()),
        toml::Value::Boolean(b) => DataValue::Bool(*b),
        toml::Value::Datetime(d) => DataValue::Scalar(d.to_string()),
        toml::Value::Array(a) => DataValue::Array(a.iter().map(from_toml).collect()),
        toml::Value::Table(t) => DataValue::Table(
            t.iter().map(|(k, v)| (k.clone(), from_toml(v))).collect(),
        ),
    }
}

/// The first entry of `entries[from..]` under `key`.
pub open spec fn entry_with_key(entries: Seq<(String, DataValue)>, key: Seq<char>, from: int) -> Option<DataValue>
    decreases entries.len() - from,
{
    if from < 0 || from >= entries.len() {
        None
    } else if entries[from].0@ == key {
        Some(entries[from].1)
    } else {
        entry_with_key(entries, key, from + 1)
    }
}

/// The value under `key` when `value` is a table.
pub open spec fn get_spec(value: DataValue, key: Seq<char>) -> Option<DataValue> {
    match value {
        DataValue::Table(entries) => entry_with_key(entries@, key, 0),
        _ => None,
    }
}

impl DataValue {
    /// The value under `key` when this is a table.
    pub fn get(&self, key: &str) -> (r: Option<&DataValue>)
        ensures
            match r {
                Some(v) => get_spec(*self, key@) == Some(*v),
                None => get_spec(*self, key@) is None,
            },
    {
        match self {
            DataValue::Table(entries) => {
                let mut i: usize = 0;
                while i < entries.len()
                    invariant
                        0 <= i <= entries@.len(),
                        get_spec(*self, key@) == entry_with_key(entries@, key@, 0),
                        entry_with_key(entries@, key@, 0) == entry_with_key(
                            entries@,
                            key@,
                            i as int,
                        ),
                    decreases entries@.len() - i,
                {
                    if str_eq(entries[i].0.as_str(), key) {
                        assert(entries@[i as int].0@ == key@);
                        assert(entry_with_key(entries@, key@, i as int) == Some(entries@[i as int].1));
                        return Some(&entries[i].1);
                    }
                    i = i + 1;
                }
                None
            },
            _ => None,
        }
    }
}

} // verus!
