//! JSON documents as plain values: the tree that `serde_json` reads from a text, the text it
//! writes for a tree, and lookups in a tree.

use vstd::prelude::*;
use serde_json::Value;
use crate::text::{chars_of, eq_chars, str_eq, string_of};

verus! {

/// A JSON value. A number is held as its text (as `serde_json` prints it); an object as its
/// entries in order.
#[derive(Debug)]
pub enum Json {
    Null,
    Bool(bool),
    Num(String),
    Str(String),
    Arr(Vec<Json>),
    Obj(Vec<(String, Json)>),
}

/// The tree `serde_json::from_str::<serde_json::Value>` reads from a text (objects with their
/// keys in ascending order, a repeated key keeping its last value, numbers as printed by
/// `serde_json`), or the text of its error. A function of the text alone.
pub uninterp spec fn json_tree(text: Seq<char>) -> Result<Json, Seq<char>>;

/// The text `serde_json::to_string_pretty` writes for a tree (objects with their keys in
/// ascending order; a number text that is not a JSON number is written as `null`).
pub uninterp spec fn json_text(j: Json) -> Seq<char>;

/// Calls `serde_json::from_str::<serde_json::Value>`; each array element and object value is
/// converted by printing it with `Value::to_string` and reading it back the same way.
#[verifier::external_body]
pub fn parse_json(text: &str) -> (r: Result<Json, String>)
    ensures
        match r {
            Ok(j) => json_tree(text@) == Ok::<Json, Seq<char>>(j),
            Err(e) => json_tree(text@) == Err::<Json, Seq<char>>(e@),
        },
{
    let conv = |x: &Value| parse_json(&x.to_string()).unwrap_or(Json::Null);
    match serde_json::from_str::<Value>(text).map_err(|e| e.to_string())? {
        Value::Null => Ok(Json::Null),
        Value::Bool(b) => Ok(Json::Bool(b)),
        Value::Number(n) => Ok(Json::Num(n.to_string())),
        Value::String(s) => Ok(Json::Str(s)),
        Value::Array(a) => Ok(Json::Arr(a.iter().map(conv).collect())),
        Value::Object(o) => Ok(Json::Obj(o.iter().map(|(k, x)| (k.clone(), conv(x))).collect())),
    }
}

/// Calls `serde_json::to_string_pretty` on the `serde_json::Value` of a tree; each element
/// and object value is converted by writing it with this function and reading it back with
/// `serde_json::from_str`.
#[verifier::external_body]
pub fn write_json(j: &Json) -> (r: String)
    ensures
        r@ == json_text(*j),
{
    let conv = |x: &Json| serde_json::from_str::<Value>(&write_json(x)).unwrap_or(Value::Null);
    let v = match j {
        Json::Null => Value::Null,
        Json::Bool(b) => Value::Bool(*b),
        Json::Num(n) => n.parse::<serde_json::Number>().map(Value::Number).unwrap_or(Value::Null),
        Json::Str(s) => Value::String(s.clone()),
        Json::Arr(a) => Value::Array(a.iter().map(conv).collect()),
        Json::Obj(o) => Value::Object(o.iter().map(|(k, x)| (k.clone(), conv(x))).collect()),
    };
    serde_json::to_string_pretty(&v).unwrap_or_default()
}

/// What `serde_json::from_str::<Vec<serde_json::Value>>` reads from a text: the elements of a
/// JSON array, or the text of its error (also when the text is JSON but not an array). A
/// function of the text alone.
pub uninterp spec fn json_array(text: Seq<char>) -> Result<Seq<Json>, Seq<char>>;

/// What `serde_json::from_str::<Vec<String>>` reads from a text: the strings of a JSON array of
/// strings, or the text of its error. A function of the text alone.
pub uninterp spec fn json_strings(text: Seq<char>) -> Result<Seq<Seq<char>>, Seq<char>>;

/// Calls `serde_json::from_str::<Vec<serde_json::Value>>`; each element is converted as
/// [`parse_json`] converts the elements of an array.
#[verifier::external_body]
pub fn parse_json_array(text: &str) -> (r: Result<Vec<Json>, String>)
    ensures
        match r {
            Ok(v) => json_array(text@) == Ok::<Seq<Json>, Seq<char>>(v@),
            Err(e) => json_array(text@) == Err::<Seq<Json>, Seq<char>>(e@),
        },
{
    let a = serde_json::from_str::<Vec<Value>>(text).map_err(|e| e.to_string())?;
    Ok(a.iter().map(|x| parse_json(&x.to_string()).unwrap_or(Json::Null)).collect())
}

/// Calls `serde_json::from_str::<Vec<String>>`.
#[verifier::external_body]
pub fn parse_string_array(text: &str) -> (r: Result<Vec<String>, String>)
    ensures
        match r {
            Ok(v) => json_strings(text@) == Ok::<Seq<Seq<char>>, Seq<char>>(v@.map_values(|x: String| x@)),
            Err(e) => json_strings(text@) == Err::<Seq<Seq<char>>, Seq<char>>(e@),
        },
{
    serde_json::from_str::<Vec<String>>(text).map_err(|e| e.to_string())
}

/// The value of the first entry with the given key, in an object.
pub open spec fn entry_from(es: Seq<(String, Json)>, key: Seq<char>, i: int) -> Option<Json>
    decreases es.len() - i,
{
    if i < 0 || i >= es.len() {
        None
    } else if es[i].0@ == key {
        Some(es[i].1)
    } else {
        entry_from(es, key, i + 1)
    }
}

/// `j[key]`: the value under the key when `j` is an object holding it.
pub open spec fn field(j: Json, key: Seq<char>) -> Option<Json> {
    match j {
        Json::Obj(es) => entry_from(es@, key, 0),
        _ => None,
    }
}

/// `j[i]`: the element at the index when `j` is an array that long.
pub open spec fn element(j: Json, i: int) -> Option<Json> {
    match j {
        Json::Arr(a) => if 0 <= i < a@.len() {
            Some(a@[i])
        } else {
            None
        },
        _ => None,
    }
}

pub open spec fn field_of(j: Option<Json>, key: Seq<char>) -> Option<Json> {
    match j {
        Some(x) => field(x, key),
        None => None,
    }
}

pub open spec fn element_of(j: Option<Json>, i: int) -> Option<Json> {
    match j {
        Some(x) => element(x, i),
        None => None,
    }
}

/// The text when the value is a string.
pub open spec fn str_of(j: Option<Json>) -> Option<Seq<char>> {
    match j {
        Some(Json::Str(s)) => Some(s@),
        _ => None,
    }
}

/// Looks up a key in an object (the first entry with it).
pub fn get_field<'a>(j: &'a Json, key: &str) -> (r: Option<&'a Json>)
    ensures
        match r {
            Some(x) => field(*j, key@) == Some(*x),
            None => field(*j, key@) is None,
        },
{
    match j {
        Json::Obj(es) => {
            assert(field(*j, key@) == entry_from(es@, key@, 0));
            let mut i: usize = 0;
            while i < es.len()
                invariant
                    i <= es@.len(),
                    entry_from(es@, key@, 0) == entry_from(es@, key@, i as int),
                    field(*j, key@) == entry_from(es@, key@, 0),
                decreases es@.len() - i,
            {
                if str_eq(es[i].0.as_str(), key) {
                    assert(entry_from(es@, key@, i as int) == Some(es@[i as int].1));
                    return Some(&es[i].1);
                }
                i = i + 1;
            }
            None
        },
        _ => None,
    }
}

/// The element at an index of an array.
pub fn get_element(j: &Json, i: usize) -> (r: Option<&Json>)
    ensures
        match r {
            Some(x) => element(*j, i as int) == Some(*x),
            None => element(*j, i as int) is None,
        },
{
    match j {
        Json::Arr(a) => if i < a.len() {
            Some(&a[i])
        } else {
            None
        },
        _ => None,
    }
}

/// The text of a string field, empty when it is missing or not a string (what
/// `j.get(key).and_then(Value::as_str).unwrap_or("")` gives).
pub open spec fn field_str(j: Json, key: Seq<char>) -> Seq<char> {
    match field(j, key) {
        Some(Json::Str(s)) => s@,
        _ => seq![],
    }
}

pub fn field_text(j: &Json, key: &str) -> (r: String)
    ensures
        r@ == field_str(*j, key@),
{
    match get_field(j, key) {
        Some(Json::Str(s)) => string_of(chars_of(s.as_str()).as_slice()),
        _ => String::new(),
    }
}

} // verus!
