//! Reading one field of a JSON document.

use vstd::prelude::*;
use crate::text::{opt_view, strings_view};

verus! {

/// A value found in a JSON document: its compact JSON text, and what it is
/// when it is a string, an unsigned integer or null.
#[derive(Debug)]
pub struct JsonValue {
    pub text: String,
    pub as_str: Option<String>,
    pub as_u64: Option<u64>,
    pub is_null: bool,
}

/// The outcome of looking a key up in a JSON document.
#[derive(Debug)]
pub enum JsonField {
    /// The document is not JSON.
    Invalid,
    /// The document is not an object, or has no such key.
    Missing,
    Present(JsonValue),
}

pub struct JsonValueView {
    pub text: Seq<char>,
    pub as_str: Option<Seq<char>>,
    pub as_u64: Option<u64>,
    pub is_null: bool,
}

pub enum JsonFieldView {
    Invalid,
    Missing,
    Present(JsonValueView),
}

impl View for JsonValue {
    type V = JsonValueView;

    open spec fn view(&self) -> JsonValueView {
        JsonValueView { text: self.text@, as_str: opt_view(self.as_str), as_u64: self.as_u64, is_null: self.is_null }
    }
}

impl View for JsonField {
    type V = JsonFieldView;

    open spec fn view(&self) -> JsonFieldView {
        match self {
            JsonField::Invalid => JsonFieldView::Invalid,
            JsonField::Missing => JsonFieldView::Missing,
            JsonField::Present(v) => JsonFieldView::Present(v@),
        }
    }
}

/// What `serde_json` finds under `key` in the document `doc`.
pub uninterp spec fn json_field_of(doc: Seq<char>, key: Seq<char>) -> JsonFieldView;

/// Parses `doc` with `serde_json::from_str` into a `serde_json::Value` and
/// looks `key` up with `Value::get`; a found value is reported by its compact
/// text (`Value::to_string`), `Value::as_str`, `Value::as_u64` and
/// `Value::is_null`. The contract claims only that the outcome is a function of
/// the document and the key, named `json_field_of`; JSON syntax is not stated.
#[verifier::external_body]
pub(crate) fn json_field(doc: &str, key: &str) -> (r: JsonField)
    ensures
        r@ == json_field_of(doc@, key@),
{
    match serde_json::from_str::<serde_json::Value>(doc) {
        Err(_) => JsonField::Invalid,
        Ok(v) => match v.get(key) {
            None => JsonField::Missing,
            Some(x) => JsonField::Present(JsonValue {
                text: x.to_string(),
                as_str: x.as_str().map(String::from),
                as_u64: x.as_u64(),
                is_null: x.is_null(),
            }),
        },
    }
}

/// The string under `key`, if the document is an object holding a string there.
pub open spec fn str_field(doc: Seq<char>, key: Seq<char>) -> Option<Seq<char>> {
    match json_field_of(doc, key) {
        JsonFieldView::Present(v) => v.as_str,
        _ => None,
    }
}

/// The string under `key` of a JSON document, as `get(key).and_then(as_str)` gives it.
pub fn json_str_field(doc: &str, key: &str) -> (r: Option<String>)
    ensures
        opt_view(r) == str_field(doc@, key@),
{
    match json_field(doc, key) {
        JsonField::Present(v) => v.as_str,
        _ => None,
    }
}

/// The compact JSON text of an object whose fields hold the given strings.
pub uninterp spec fn json_object_text(fields: Seq<(Seq<char>, Seq<char>)>) -> Seq<char>;

pub open spec fn field_views(fields: Seq<(String, String)>) -> Seq<(Seq<char>, Seq<char>)> {
    Seq::new(fields.len(), |i: int| (fields[i].0@, fields[i].1@))
}

/// Builds a `serde_json::Map` with a `Value::String` under each key (a later
/// field of a key replaces an earlier one) and writes it with `Value::to_string`.
/// Claimed: the text is a function of the fields, named `json_object_text`.
#[verifier::external_body]
pub(crate) fn json_object(fields: &Vec<(String, String)>) -> (r: String)
    ensures
        r@ == json_object_text(field_views(fields@)),
{
    let mut map = serde_json::Map::new();
    for (k, v) in fields {
        map.insert(k.clone(), serde_json::Value::String(v.clone()));
    }
    serde_json::Value::Object(map).to_string()
}


/// The message `serde_json` gives for a text that is not a JSON document;
/// nothing for a JSON document.
pub uninterp spec fn json_error_of(doc: Seq<char>) -> Option<Seq<char>>;

/// Parses `doc` with `serde_json::from_str::<serde_json::Value>` and hands back
/// the error's message. This is the parse `json_field` makes, so it fails
/// exactly where `json_field` reports an invalid document, whatever the key.
#[verifier::external_body]
pub(crate) fn json_parse_error(doc: &str) -> (r: Option<String>)
    ensures
        opt_view(r) == json_error_of(doc@),
        forall|k: Seq<char>| (#[trigger] json_field_of(doc@, k) == JsonFieldView::Invalid) <==> r is Some,
{
    match serde_json::from_str::<serde_json::Value>(doc) {
        Ok(_) => None,
        Err(e) => Some(e.to_string()),
    }
}

/// The compact JSON text of a string value.
pub uninterp spec fn json_string_text(s: Seq<char>) -> Seq<char>;

/// `serde_json::Value::String(s).to_string()`: `s` written as a JSON string.
#[verifier::external_body]
pub(crate) fn json_string(s: &str) -> (r: String)
    ensures
        r@ == json_string_text(s@),
{
    serde_json::Value::String(s.to_owned()).to_string()
}

/// The compact text of the JSON object whose keys are the first halves of
/// `fields` and whose values are the documents their second halves hold;
/// nothing where one of them is not a JSON document.
pub uninterp spec fn json_raw_object_text(fields: Seq<(Seq<char>, Seq<char>)>) -> Option<Seq<char>>;

/// Inserts each value, parsed with `serde_json::from_str`, under its key into a
/// `serde_json::Map`, and gives the object's compact text.
#[verifier::external_body]
pub(crate) fn json_raw_object(fields: &Vec<(String, String)>) -> (r: Option<String>)
    ensures
        opt_view(r) == json_raw_object_text(field_views(fields@)),
{
    let mut map = serde_json::Map::new();
    for (k, v) in fields {
        match serde_json::from_str::<serde_json::Value>(v) {
            Ok(x) => {
                map.insert(k.clone(), x);
            },
            Err(_) => return None,
        }
    }
    Some(serde_json::Value::Object(map).to_string())
}

/// The compact texts of the items of a JSON array; nothing where `doc` is not
/// a JSON array.
pub uninterp spec fn json_items_of(doc: Seq<char>) -> Option<Seq<Seq<char>>>;

/// `serde_json::from_str::<serde_json::Value>` and `Value::as_array`, each item
/// given as its compact text.
#[verifier::external_body]
pub(crate) fn json_items(doc: &str) -> (r: Option<Vec<String>>)
    ensures
        match r {
            Some(v) => json_items_of(doc@) == Some(strings_view(v@)),
            None => json_items_of(doc@) is None,
        },
{
    match serde_json::from_str::<serde_json::Value>(doc) {
        Ok(serde_json::Value::Array(a)) => {
            let mut out = Vec::new();
            for x in a.iter() {
                out.push(x.to_string());
            }
            Some(out)
        },
        _ => None,
    }
}

pub open spec fn entry_views(v: Seq<(String, JsonValue)>) -> Seq<(Seq<char>, JsonValueView)> {
    Seq::new(v.len(), |i: int| (v[i].0@, v[i].1@))
}

/// The entries of a JSON object, in the order `serde_json::Map` keeps them;
/// nothing where `doc` is not a JSON object.
pub uninterp spec fn json_entries_of(doc: Seq<char>) -> Option<Seq<(Seq<char>, JsonValueView)>>;

/// `serde_json::from_str::<serde_json::Value>` and the object's `iter()`.
#[verifier::external_body]
pub(crate) fn json_entries(doc: &str) -> (r: Option<Vec<(String, JsonValue)>>)
    ensures
        match r {
            Some(v) => json_entries_of(doc@) == Some(entry_views(v@)),
            None => json_entries_of(doc@) is None,
        },
{
    match serde_json::from_str::<serde_json::Value>(doc) {
        Ok(serde_json::Value::Object(m)) => {
            let mut out = Vec::new();
            for (k, x) in m.iter() {
                let v = JsonValue { text: x.to_string(), as_str: x.as_str().map(String::from), as_u64: x.as_u64(), is_null: x.is_null() };
                out.push((k.clone(), v));
            }
            Some(out)
        },
        _ => None,
    }
}

/// The compact text `serde_json::to_string` writes for the document `doc`
/// holds; nothing where `doc` is not JSON.
pub uninterp spec fn json_canonical_text(doc: Seq<char>) -> Option<Seq<char>>;

/// `serde_json::from_str::<serde_json::Value>` followed by `serde_json::to_string`.
#[verifier::external_body]
pub(crate) fn json_canonical(doc: &str) -> (r: Option<String>)
    ensures
        opt_view(r) == json_canonical_text(doc@),
{
    match serde_json::from_str::<serde_json::Value>(doc) {
        Ok(v) => serde_json::to_string(&v).ok(),
        Err(_) => None,
    }
}

pub open spec fn record_views(v: Seq<Vec<(String, String)>>) -> Seq<Seq<(Seq<char>, Seq<char>)>> {
    Seq::new(v.len(), |i: int| field_views(v[i]@))
}

/// The pretty-printed JSON array of objects with string values, or the error's message.
pub uninterp spec fn json_pretty_records_text(records: Seq<Seq<(Seq<char>, Seq<char>)>>) -> Result<Seq<char>, Seq<char>>;

/// `serde_json::to_string_pretty` of an array of objects, each built in a
/// `serde_json::Map` from its string fields.
#[verifier::external_body]
pub(crate) fn json_pretty_records(records: &Vec<Vec<(String, String)>>) -> (r: Result<String, String>)
    ensures
        str_result_view(r) == json_pretty_records_text(record_views(records@)),
{
    let mut items = Vec::new();
    for rec in records {
        let mut map = serde_json::Map::new();
        for (k, v) in rec {
            map.insert(k.clone(), serde_json::Value::String(v.clone()));
        }
        items.push(serde_json::Value::Object(map));
    }
    match serde_json::to_string_pretty(&serde_json::Value::Array(items)) {
        Ok(t) => Ok(t),
        Err(e) => Err(e.to_string()),
    }
}

pub open spec fn str_result_view(r: Result<String, String>) -> Result<Seq<char>, Seq<char>> {
    match r {
        Ok(t) => Ok(t@),
        Err(e) => Err(e@),
    }
}

/// The compact text of the JSON document in `doc`, or the error's message.
pub uninterp spec fn json_bytes_text(doc: Seq<u8>) -> Result<Seq<char>, Seq<char>>;

/// `serde_json::from_slice::<serde_json::Value>`, the document given as its compact text.
#[verifier::external_body]
pub(crate) fn json_from_bytes(doc: &[u8]) -> (r: Result<String, String>)
    ensures
        str_result_view(r) == json_bytes_text(doc@),
{
    match serde_json::from_slice::<serde_json::Value>(doc) {
        Ok(v) => Ok(v.to_string()),
        Err(e) => Err(e.to_string()),
    }
}

/// The compact text of the JSON array whose items are the documents `items`
/// holds; nothing where one of them is not a JSON document.
pub uninterp spec fn json_raw_array_text(items: Seq<Seq<char>>) -> Option<Seq<char>>;

/// Parses each item with `serde_json::from_str` into a `Value::Array`, and
/// gives the array's compact text.
#[verifier::external_body]
pub(crate) fn json_raw_array(items: &Vec<String>) -> (r: Option<String>)
    ensures
        opt_view(r) == json_raw_array_text(strings_view(items@)),
{
    let mut out = Vec::new();
    for item in items {
        match serde_json::from_str::<serde_json::Value>(item) {
            Ok(x) => out.push(x),
            Err(_) => return None,
        }
    }
    Some(serde_json::Value::Array(out).to_string())
}

/// The text `serde_json::to_string_pretty` writes for the document `doc`
/// holds; nothing where `doc` is not JSON.
pub uninterp spec fn json_pretty_text(doc: Seq<char>) -> Option<Seq<char>>;

/// `serde_json::from_str::<serde_json::Value>` followed by `serde_json::to_string_pretty`.
#[verifier::external_body]
pub(crate) fn json_pretty(doc: &str) -> (r: Option<String>)
    ensures
        opt_view(r) == json_pretty_text(doc@),
{
    match serde_json::from_str::<serde_json::Value>(doc) {
        Ok(v) => serde_json::to_string_pretty(&v).ok(),
        Err(_) => None,
    }
}

} // verus!
