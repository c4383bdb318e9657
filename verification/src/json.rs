//! The JSON tree that the decoders read, and its mathematical model.
//!
//! A parsed document is a `serde_json::Value`. The verifier cannot look
//! inside one, so this module names what it holds ([`json_of`]) and states,
//! for each accessor that the decoders call, what the accessor returns in
//! terms of that content. Those statements are taken on trust; everything
//! else in the crate is proved from them.

use vstd::prelude::*;
use serde_json::Value;
use crate::error::{DecodeError, ErrorKind, ErrorModel, Unexpected};

verus! {

/// `serde_json::Value`, a parsed JSON value, carried as it is.
#[verifier::external_type_specification]
#[verifier::external_body]
pub struct ExValue(serde_json::Value);

/// A JSON number, as the parser classified it.
#[derive(Clone, Copy, Debug, PartialEq, Eq, Structural)]
pub enum Number {
    /// A non-negative integer.
    PosInt(u64),
    /// A negative integer.
    NegInt(i64),
    /// Any other finite number: one written with a fraction or an exponent,
    /// or an integer beyond 64 bits. Held as the bits of its IEEE 754 double.
    Float(u64),
}

/// The mathematical content of a JSON tree.
pub enum Json {
    Null,
    Bool(bool),
    Number(Number),
    String(Seq<char>),
    Array(Seq<Json>),
    Object(Map<Seq<char>, Json>),
}

/// The tree that a parsed JSON value holds: its kind, and below it the
/// boolean, the number as the parser classified it, the text, the elements in
/// order, or the members by key. The accessors below say how it is read.
pub uninterp spec fn json_of(v: Value) -> Json;

/// `Value::is_object`: true exactly for an object.
pub assume_specification[ Value::is_object ](value: &Value) -> (r: bool)
    ensures
        r == (json_of(*value) is Object),
;

/// `Value::is_number`: true exactly for a number.
pub assume_specification[ Value::is_number ](value: &Value) -> (r: bool)
    ensures
        r == (json_of(*value) is Number),
;

/// `Value::as_bool`: the boolean of a boolean, nothing for any other value.
pub assume_specification[ Value::as_bool ](value: &Value) -> (r: Option<bool>)
    ensures
        r == match json_of(*value) {
            Json::Bool(b) => Some(b),
            _ => None,
        },
;

/// `Value::as_u64`: the integer of a non-negative integer, nothing for a
/// negative integer, for any other number, or for any other value.
pub assume_specification[ Value::as_u64 ](value: &Value) -> (r: Option<u64>)
    ensures
        r == match json_of(*value) {
            Json::Number(Number::PosInt(n)) => Some(n),
            _ => None,
        },
;

/// `Value::as_i64`: the integer of a negative integer, or of a non-negative
/// one up to `i64::MAX`; nothing for a larger integer, for any other number,
/// or for any other value.
pub assume_specification[ Value::as_i64 ](value: &Value) -> (r: Option<i64>)
    ensures
        r == match json_of(*value) {
            Json::Number(Number::PosInt(n)) => if n <= i64::MAX {
                Some(n as i64)
            } else {
                None
            },
            Json::Number(Number::NegInt(i)) => Some(i),
            _ => None,
        },
;

/// `Value::as_str`: the text of a string, nothing for any other value.
pub assume_specification<'a>[ Value::as_str ](value: &'a Value) -> (r: Option<&'a str>)
    ensures
        match r {
            Some(s) => json_of(*value) == Json::String(s@),
            None => !(json_of(*value) is String),
        },
;

/// `Value::as_array`: the elements of an array, in order; nothing for any
/// other value.
pub assume_specification<'a>[ Value::as_array ](value: &'a Value) -> (r: Option<&'a Vec<Value>>)
    ensures
        match r {
            Some(items) => json_of(*value) == Json::Array(jsons_of(items@)),
            None => !(json_of(*value) is Array),
        },
;

/// `Clone::clone` on a `Value`: a value that holds the same tree.
pub assume_specification[ <Value as Clone>::clone ](value: &Value) -> (r: Value)
    ensures
        json_of(r) == json_of(*value),
;

/// `Value::get` with a string index: the member of an object under that
/// key; nothing where the key is absent or the value is no object.
#[verifier::external_body]
fn object_get<'a>(value: &'a Value, key: &str) -> (r: Option<&'a Value>)
    ensures
        match r {
            Some(x) => json_of(*value) matches Json::Object(m) && m.contains_key(key@)
                && m[key@] == json_of(*x),
            None => !(json_of(*value) matches Json::Object(m) && m.contains_key(key@)),
        },
{
    value.get(key)
}

/// `Value::as_f64` followed by `to_bits`: for a number, the bits of a
/// double; for a number that is held as a double, the bits of that very
/// double. Nothing for any other value.
#[verifier::external_body]
fn double_bits(value: &Value) -> (r: Option<u64>)
    ensures
        r is Some <==> json_of(*value) is Number,
        json_of(*value) matches Json::Number(Number::Float(bits)) ==> r == Some(bits),
{
    value.as_f64().map(|x| x.to_bits())
}

/// The trees that a sequence of parsed values holds, in order.
pub open spec fn jsons_of(values: Seq<Value>) -> Seq<Json> {
    values.map_values(|v: Value| json_of(v))
}

/// The shape of a tree, as an error reports it.
pub open spec fn shape(j: Json) -> Unexpected {
    match j {
        Json::Null => Unexpected::Null,
        Json::Bool(_) => Unexpected::Bool,
        Json::Number(Number::PosInt(n)) => if n <= i64::MAX {
            Unexpected::Signed
        } else {
            Unexpected::Unsigned
        },
        Json::Number(Number::NegInt(_)) => Unexpected::Signed,
        Json::Number(Number::Float(_)) => Unexpected::Float,
        Json::String(_) => Unexpected::Str,
        Json::Array(_) => Unexpected::Array,
        Json::Object(_) => Unexpected::Object,
    }
}

/// The failure of kind `kind` at the tree `j`.
pub open spec fn failure(kind: ErrorKind, j: Json) -> ErrorModel {
    ErrorModel::here(kind, shape(j))
}

/// The failure to find in `j` the shape that was asked for.
pub open spec fn mismatch(j: Json) -> ErrorModel {
    failure(ErrorKind::ShapeMismatch, j)
}

/// The member of the object `j` under `key`. A tree that is no object is a
/// shape mismatch; an object without the key is a missing key.
pub open spec fn member(j: Json, key: Seq<char>) -> Result<Json, ErrorModel> {
    match j {
        Json::Object(m) => if m.contains_key(key) {
            Ok(m[key])
        } else {
            Err(failure(ErrorKind::MissingKey, j))
        },
        _ => Err(mismatch(j)),
    }
}

/// The member of `j` under `key`, read as a non-negative integer.
pub open spec fn member_u64(j: Json, key: Seq<char>) -> Result<u64, ErrorModel> {
    match member(j, key) {
        Ok(Json::Number(Number::PosInt(n))) => Ok(n),
        Ok(x) => Err(mismatch(x)),
        Err(e) => Err(e),
    }
}

/// The member of `j` under `key`, read as an array.
pub open spec fn member_array(j: Json, key: Seq<char>) -> Result<Seq<Json>, ErrorModel> {
    match member(j, key) {
        Ok(Json::Array(items)) => Ok(items),
        Ok(x) => Err(mismatch(x)),
        Err(e) => Err(e),
    }
}

/// The member of `j` under `key`, read as a string.
pub open spec fn member_str(j: Json, key: Seq<char>) -> Result<Seq<char>, ErrorModel> {
    match member(j, key) {
        Ok(Json::String(s)) => Ok(s),
        Ok(x) => Err(mismatch(x)),
        Err(e) => Err(e),
    }
}

/// The number that `j` is, if it is one.
pub open spec fn number(j: Json) -> Option<Number> {
    match j {
        Json::Number(n) => Some(n),
        _ => None,
    }
}

/// Classifies a value for an error report.
pub fn unexpected(value: &Value) -> (r: Unexpected)
    ensures
        r == shape(json_of(*value)),
{
    if value.is_number() {
        if value.as_i64().is_some() {
            Unexpected::Signed
        } else if value.as_u64().is_some() {
            Unexpected::Unsigned
        } else {
            Unexpected::Float
        }
    } else if value.as_bool().is_some() {
        Unexpected::Bool
    } else if value.as_str().is_some() {
        Unexpected::Str
    } else if value.as_array().is_some() {
        Unexpected::Array
    } else if value.is_object() {
        Unexpected::Object
    } else {
        Unexpected::Null
    }
}

/// The error of kind `kind` at `value`.
pub fn fail(kind: ErrorKind, value: &Value) -> (e: DecodeError)
    ensures
        e@ == failure(kind, json_of(*value)),
{
    DecodeError::new(kind, unexpected(value))
}

/// Reads a JSON number as it was classified.
pub fn value_to_number(value: &Value) -> (r: Option<Number>)
    ensures
        r == number(json_of(*value)),
{
    if !value.is_number() {
        return None;
    }
    match value.as_u64() {
        Some(n) => Some(Number::PosInt(n)),
        None => match value.as_i64() {
            Some(i) => Some(Number::NegInt(i)),
            None => match double_bits(value) {
                Some(bits) => Some(Number::Float(bits)),
                None => None,
            },
        },
    }
}

/// Looks up a required key of an object.
pub fn get_key<'a>(value: &'a Value, key: &str) -> (r: Result<&'a Value, DecodeError>)
    ensures
        match r {
            Ok(x) => member(json_of(*value), key@) == Ok::<Json, ErrorModel>(json_of(*x)),
            Err(e) => member(json_of(*value), key@) == Err::<Json, ErrorModel>(e@),
        },
{
    if !value.is_object() {
        return Err(fail(ErrorKind::ShapeMismatch, value));
    }
    match object_get(value, key) {
        Some(x) => Ok(x),
        None => Err(fail(ErrorKind::MissingKey, value)),
    }
}

/// Looks up a required key and reads it as a non-negative integer.
pub fn value_to_u64(value: &Value, key: &str) -> (r: Result<u64, DecodeError>)
    ensures
        match r {
            Ok(n) => member_u64(json_of(*value), key@) == Ok::<u64, ErrorModel>(n),
            Err(e) => member_u64(json_of(*value), key@) == Err::<u64, ErrorModel>(e@),
        },
{
    let inner = get_key(value, key)?;
    match inner.as_u64() {
        Some(n) => Ok(n),
        None => Err(fail(ErrorKind::ShapeMismatch, inner)),
    }
}

/// Looks up a required key and reads it as an array.
pub fn value_to_array<'a>(value: &'a Value, key: &str) -> (r: Result<&'a Vec<Value>, DecodeError>)
    ensures
        match r {
            Ok(items) => member_array(json_of(*value), key@) == Ok::<Seq<Json>, ErrorModel>(
                jsons_of(items@),
            ),
            Err(e) => member_array(json_of(*value), key@) == Err::<Seq<Json>, ErrorModel>(e@),
        },
{
    let inner = get_key(value, key)?;
    match inner.as_array() {
        Some(items) => Ok(items),
        None => Err(fail(ErrorKind::ShapeMismatch, inner)),
    }
}

/// Looks up a required key and reads it as a string.
pub fn value_to_string(value: &Value, key: &str) -> (r: Result<String, DecodeError>)
    ensures
        match r {
            Ok(s) => member_str(json_of(*value), key@) == Ok::<Seq<char>, ErrorModel>(s@),
            Err(e) => member_str(json_of(*value), key@) == Err::<Seq<char>, ErrorModel>(e@),
        },
{
    let inner = get_key(value, key)?;
    match inner.as_str() {
        Some(s) => Ok(s.to_owned()),
        None => Err(fail(ErrorKind::ShapeMismatch, inner)),
    }
}

} // verus!
