//! The JSON values that collectors report and that quality reports record, and the
//! decimal numbers that stand for their fractional values.

use vstd::prelude::*;
use crate::number::{parse_number_decimal, spec_number_decimal};
use serde_json::Value;
use crate::text::{str_chars, chars_eq};

verus! {

/// A decimal number held as a whole number of millionths.  The metric files
/// hold such numbers as floating point; the library holds them exactly to six
/// decimal places.
#[derive(Debug, Clone, Copy, PartialEq, Eq, Structural)]
pub struct Decimal {
    pub micros: i128,
}

/// Millionths in one unit.
pub const MICROS_PER_UNIT: i128 = 1000000;

impl Decimal {
    /// The number zero.
    pub fn zero() -> (r: Decimal)
        ensures
            r.micros == 0,
    {
        Decimal { micros: 0 }
    }

    /// The whole number `n`.
    pub fn from_u64(n: u64) -> (r: Decimal)
        ensures
            r.micros == n * MICROS_PER_UNIT,
    {
        Decimal { micros: (n as i128) * MICROS_PER_UNIT }
    }

    /// The whole number `n` (negative or not).
    pub fn from_i64(n: i64) -> (r: Decimal)
        ensures
            r.micros == n * MICROS_PER_UNIT,
    {
        Decimal { micros: (n as i128) * MICROS_PER_UNIT }
    }

    /// `self >= other`.
    pub fn ge(&self, other: &Decimal) -> (r: bool)
        ensures
            r == (self.micros >= other.micros),
    {
        self.micros >= other.micros
    }
}

/// A JSON value.  Numbers are kept in the three forms JSON readers tell
/// apart: non-negative integers, negative integers and fractional numbers;
/// a fractional number read from a text keeps the text it was written
/// with.
#[derive(Debug)]
pub enum Json {
    Null,
    Bool(bool),
    UInt(u64),
    NegInt(i64),
    Float(Decimal),
    FloatText(String),
    Str(String),
    Array(Vec<Json>),
    Object(Vec<(String, Json)>),
}

/// The value stored under `key` among `entries` (the first entry with that
/// key).
pub open spec fn entries_get(entries: Seq<(String, Json)>, key: Seq<char>) -> Option<Json>
    decreases entries.len(),
{
    if entries.len() == 0 {
        None
    } else if entries[0].0@ == key {
        Some(entries[0].1)
    } else {
        entries_get(entries.drop_first(), key)
    }
}

/// `value[key]` in JSON terms: the member `key` of an object, or `null`
/// when the value is no object or has no such member.
pub open spec fn spec_member(value: Json, key: Seq<char>) -> Json {
    match value {
        Json::Object(entries) => match entries_get(entries@, key) {
            Some(v) => v,
            None => Json::Null,
        },
        _ => Json::Null,
    }
}

/// `value.get(key)`: the member `key` of an object, if there is one.
pub open spec fn spec_get(value: Json, key: Seq<char>) -> Option<Json> {
    match value {
        Json::Object(entries) => entries_get(entries@, key),
        _ => None,
    }
}

/// `value.as_u64()`.
pub open spec fn spec_as_u64(value: Json) -> Option<u64> {
    match value {
        Json::UInt(n) => Some(n),
        _ => None,
    }
}

/// `value.as_f64()`: every JSON number, as a decimal.
pub open spec fn spec_as_decimal(value: Json) -> Option<Decimal> {
    match value {
        Json::UInt(n) => Some(Decimal { micros: (n * MICROS_PER_UNIT) as i128 }),
        Json::NegInt(n) => Some(Decimal { micros: (n * MICROS_PER_UNIT) as i128 }),
        Json::Float(d) => Some(d),
        Json::FloatText(t) => spec_number_decimal(t@),
        _ => None,
    }
}

/// `value.as_str()`.
pub open spec fn spec_as_str(value: Json) -> Option<Seq<char>> {
    match value {
        Json::Str(s) => Some(s@),
        _ => None,
    }
}

/// `value.as_array()`.
pub open spec fn spec_as_array(value: Json) -> Option<Seq<Json>> {
    match value {
        Json::Array(items) => Some(items@),
        _ => None,
    }
}

/// `value.as_u64().unwrap_or(0) as u32`: the low 32 bits of an unsigned
/// integer, zero otherwise.
pub open spec fn spec_u32_or_zero(value: Json) -> u32 {
    match spec_as_u64(value) {
        Some(n) => n as u32,
        None => 0,
    }
}

/// `value.as_u64().unwrap_or(0) as usize`.
pub open spec fn spec_usize_or_zero(value: Json) -> usize {
    match spec_as_u64(value) {
        Some(n) => n as usize,
        None => 0,
    }
}

/// `value.as_str().unwrap_or("")`.
pub open spec fn spec_str_or_empty(value: Json) -> Seq<char> {
    match spec_as_str(value) {
        Some(s) => s,
        None => Seq::empty(),
    }
}

/// The member `key` of `entries`, if any (the first with that key).
pub fn entries_lookup<'a>(entries: &'a Vec<(String, Json)>, key: &str) -> (r: Option<&'a Json>)
    ensures
        match entries_get(entries@, key@) {
            Some(v) => r == Some(&v),
            None => r.is_none(),
        },
{
    let k = str_chars(key);
    let mut i: usize = 0;
    proof {
        assert(entries@.skip(0) =~= entries@);
    }
    while i < entries.len()
        invariant
            i <= entries.len(),
            k@ == key@,
            entries_get(entries@, key@) == entries_get(entries@.skip(i as int), key@),
        decreases entries.len() - i,
    {
        let name = str_chars(entries[i].0.as_str());
        proof {
            assert(entries@.skip(i as int).drop_first() =~= entries@.skip(i + 1));
        }
        if chars_eq(&name, &k) {
            return Some(&entries[i].1);
        }
        i = i + 1;
    }
    None
}

#[verifier::external_type_specification]
#[verifier::external_body]
pub struct ExJsonValue(serde_json::Value);

/// What `serde_json` reads from a text: the JSON value it holds, or the
/// message of the error that stopped the reading.
pub uninterp spec fn json_read(text: Seq<char>) -> Result<Json, Seq<char>>;

/// The library's form of a `serde_json` value: each variant for its own,
/// numbers as `as_u64`, then `as_i64`, tell them apart, and other numbers
/// by their text.  Nothing is stated of it: `read_json`, its one caller,
/// states what the two make of a text.
#[verifier::external_body]
fn json_from_value(v: &Value) -> Json {
    match v {
        Value::Null => Json::Null,
        Value::Bool(b) => Json::Bool(*b),
        Value::Number(n) => match (n.as_u64(), n.as_i64()) {
            (Some(u), _) => Json::UInt(u),
            (None, Some(i)) => Json::NegInt(i),
            (None, None) => Json::FloatText(n.to_string()),
        },
        Value::String(s) => Json::Str(s.clone()),
        Value::Array(items) => Json::Array(items.iter().map(json_from_value).collect()),
        Value::Object(map) => Json::Object(map.iter().map(|(k, x)| (k.clone(), json_from_value(x))).collect()),
    }
}

/// `serde_json::from_str::<serde_json::Value>(text)`: the value is named by
/// the text it was read from (`json_read`), and so is the error message.
#[verifier::external_body]
pub(crate) fn read_json(text: &str) -> (r: Result<Json, String>)
    ensures
        match r {
            Ok(j) => json_read(text@) == Ok::<Json, Seq<char>>(j),
            Err(e) => json_read(text@) == Err::<Json, Seq<char>>(e@),
        },
{
    match serde_json::from_str::<Value>(text) {
        Ok(v) => Ok(json_from_value(&v)),
        Err(e) => Err(e.to_string()),
    }
}

/// The JSON value a text holds, if it holds one.
pub open spec fn json_value(text: Seq<char>) -> Option<Json> {
    match json_read(text) {
        Ok(j) => Some(j),
        Err(_) => None,
    }
}

/// Reads the JSON value a text holds; `None` when it is not JSON.
pub fn parse_json(text: &str) -> (r: Option<Json>)
    ensures
        r == json_value(text@),
{
    match read_json(text) {
        Ok(j) => Some(j),
        Err(_) => None,
    }
}

impl Json {
    /// `self[key]`: the member `key` of an object, `null` otherwise.
    pub fn member(&self, key: &str) -> (r: &Json)
        ensures
            *r == spec_member(*self, key@),
    {
        match self {
            Json::Object(entries) => match entries_lookup(entries, key) {
                Some(v) => v,
                None => &Json::Null,
            },
            _ => &Json::Null,
        }
    }

    /// `self.get(key)`.
    pub fn get(&self, key: &str) -> (r: Option<&Json>)
        ensures
            match spec_get(*self, key@) {
                Some(v) => r == Some(&v),
                None => r.is_none(),
            },
    {
        match self {
            Json::Object(entries) => entries_lookup(entries, key),
            _ => None,
        }
    }

    pub fn as_u64(&self) -> (r: Option<u64>)
        ensures
            r == spec_as_u64(*self),
    {
        match self {
            Json::UInt(n) => Some(*n),
            _ => None,
        }
    }

    pub fn as_decimal(&self) -> (r: Option<Decimal>)
        ensures
            r == spec_as_decimal(*self),
    {
        match self {
            Json::UInt(n) => Some(Decimal::from_u64(*n)),
            Json::NegInt(n) => Some(Decimal::from_i64(*n)),
            Json::Float(d) => Some(*d),
            Json::FloatText(t) => parse_number_decimal(t.as_str()),
            _ => None,
        }
    }

    pub fn as_str(&self) -> (r: Option<&String>)
        ensures
            match spec_as_str(*self) {
                Some(s) => r matches Some(x) && x@ == s,
                None => r.is_none(),
            },
    {
        match self {
            Json::Str(s) => Some(s),
            _ => None,
        }
    }

    pub fn as_array(&self) -> (r: Option<&Vec<Json>>)
        ensures
            match spec_as_array(*self) {
                Some(items) => r matches Some(x) && x@ == items,
                None => r.is_none(),
            },
    {
        match self {
            Json::Array(items) => Some(items),
            _ => None,
        }
    }

    /// `self.as_u64().unwrap_or(0) as u32`.
    pub fn u32_or_zero(&self) -> (r: u32)
        ensures
            r == spec_u32_or_zero(*self),
    {
        match self {
            Json::UInt(n) => *n as u32,
            _ => 0,
        }
    }

    /// `self.as_u64().unwrap_or(0) as usize`.
    pub fn usize_or_zero(&self) -> (r: usize)
        ensures
            r == spec_usize_or_zero(*self),
    {
        match self {
            Json::UInt(n) => *n as usize,
            _ => 0,
        }
    }

    /// `self.as_str().unwrap_or("").to_string()`.
    pub fn string_or_empty(&self) -> (r: String)
        ensures
            r@ == spec_str_or_empty(*self),
    {
        match self {
            Json::Str(s) => s.clone(),
            _ => String::new(),
        }
    }

    /// `self.as_str().map(String::from)`.
    pub fn opt_string(&self) -> (r: Option<String>)
        ensures
            match spec_as_str(*self) {
                Some(s) => r matches Some(x) && x@ == s,
                None => r.is_none(),
            },
    {
        match self {
            Json::Str(s) => Some(s.clone()),
            _ => None,
        }
    }
}

} // verus!

verus! {

/// `j` is an object whose members are `keys` with the values `vals`, in
/// that order.
pub open spec fn object_is(j: Json, keys: Seq<Seq<char>>, vals: Seq<Json>) -> bool {
    j matches Json::Object(e) && e@.len() == keys.len() && keys.len() == vals.len()
        && forall|i: int| 0 <= i < e@.len() ==> (#[trigger] e@[i]).0@ == keys[i] && e@[i].1 == vals[i]
}

/// `j` is an array of the strings `ss`, in order.
pub open spec fn str_array_is(j: Json, ss: Seq<Seq<char>>) -> bool {
    j matches Json::Array(a) && a@.len() == ss.len()
        && forall|i: int| 0 <= i < a@.len() ==> str_is(#[trigger] a@[i], ss[i])
}

/// `j` is the string `s`.
pub open spec fn str_is(j: Json, s: Seq<char>) -> bool {
    match j {
        Json::Str(x) => x@ == s,
        _ => false,
    }
}

/// `j.get(k1).and_then(|v| v.get(k2))`.
pub open spec fn spec_get2(j: Json, k1: Seq<char>, k2: Seq<char>) -> Option<Json> {
    match spec_get(j, k1) {
        Some(v) => spec_get(v, k2),
        None => None,
    }
}

/// `j.get(k1).and_then(|v| v.get(k2)).and_then(|v| v.get(k3))`.
pub open spec fn spec_get3(j: Json, k1: Seq<char>, k2: Seq<char>, k3: Seq<char>) -> Option<Json> {
    match spec_get2(j, k1, k2) {
        Some(v) => spec_get(v, k3),
        None => None,
    }
}

impl Json {
    /// `self.get(k1).and_then(|v| v.get(k2))`.
    pub fn get2(&self, k1: &str, k2: &str) -> (r: Option<&Json>)
        ensures
            match spec_get2(*self, k1@, k2@) {
                Some(v) => r == Some(&v),
                None => r.is_none(),
            },
    {
        match self.get(k1) {
            Some(v) => v.get(k2),
            None => None,
        }
    }

    /// `self.get(k1).and_then(|v| v.get(k2)).and_then(|v| v.get(k3))`.
    pub fn get3(&self, k1: &str, k2: &str, k3: &str) -> (r: Option<&Json>)
        ensures
            match spec_get3(*self, k1@, k2@, k3@) {
                Some(v) => r == Some(&v),
                None => r.is_none(),
            },
    {
        match self.get2(k1, k2) {
            Some(v) => v.get(k3),
            None => None,
        }
    }
}

} // verus!
