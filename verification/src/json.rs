//! A JSON document as the library reads it: the shape of a `serde_json`
//! value, with numbers kept as their unsigned and signed readings.
use vstd::prelude::*;
use vstd::string::*;
use crate::text::str_eq;

verus! {

/// A JSON number by the two integer readings that the logic uses: `as_u64`
/// and `as_i64` (each `None` where the number has no such reading).
#[derive(Debug, Clone)]
pub struct JsonNumber {
    pub as_u64: Option<u64>,
    pub as_i64: Option<i64>,
}

/// A JSON value. An object keeps its members in order, each key once.
#[derive(Debug)]
pub enum JsonValue {
    Null,
    Bool(bool),
    Number(JsonNumber),
    Str(String),
    Array(Vec<JsonValue>),
    Object(Vec<(String, JsonValue)>),
}

/// The value of the first member named `key`.
pub open spec fn lookup(members: Seq<(String, JsonValue)>, key: Seq<char>) -> Option<JsonValue>
    decreases members.len(),
{
    if members.len() == 0 {
        None
    } else if members[0].0@ == key {
        Some(members[0].1)
    } else {
        lookup(members.drop_first(), key)
    }
}

pub open spec fn deref_opt<T>(o: Option<&T>) -> Option<T> {
    match o {
        Some(x) => Some(*x),
        None => None,
    }
}

/// `Value::get(key)`: the member of an object, `None` for any other value.
pub open spec fn field(v: Option<JsonValue>, key: Seq<char>) -> Option<JsonValue> {
    match v {
        Some(JsonValue::Object(members)) => lookup(members@, key),
        _ => None,
    }
}

/// `Value::as_str`.
pub open spec fn str_of(v: Option<JsonValue>) -> Option<Seq<char>> {
    match v {
        Some(JsonValue::Str(s)) => Some(s@),
        _ => None,
    }
}

/// `Value::as_u64`.
pub open spec fn u64_of(v: Option<JsonValue>) -> Option<u64> {
    match v {
        Some(JsonValue::Number(n)) => n.as_u64,
        _ => None,
    }
}

/// `Value::as_i64`.
pub open spec fn i64_of(v: Option<JsonValue>) -> Option<i64> {
    match v {
        Some(JsonValue::Number(n)) => n.as_i64,
        _ => None,
    }
}

/// `Value::as_array`.
pub open spec fn items_of(v: Option<JsonValue>) -> Option<Seq<JsonValue>> {
    match v {
        Some(JsonValue::Array(items)) => Some(items@),
        _ => None,
    }
}

/// The first element of an array, if any.
pub open spec fn first_of(items: Option<Seq<JsonValue>>) -> Option<JsonValue> {
    match items {
        Some(s) => if s.len() > 0 {
            Some(s[0])
        } else {
            None
        },
        None => None,
    }
}

pub open spec fn text_or(o: Option<Seq<char>>, default: Seq<char>) -> Seq<char> {
    match o {
        Some(s) => s,
        None => default,
    }
}

/// Member `key` of `v` when `v` is an object.
pub fn get_field<'a>(v: Option<&'a JsonValue>, key: &str) -> (r: Option<&'a JsonValue>)
    ensures
        deref_opt(r) == field(deref_opt(v), key@),
{
    match v {
        Some(JsonValue::Object(members)) => {
            let n = members.len();
            let mut i: usize = 0;
            assert(members@.skip(0) =~= members@);
            while i < n
                invariant
                    i <= n,
                    n == members@.len(),
                    lookup(members@, key@) == lookup(members@.skip(i as int), key@),
                    field(deref_opt(v), key@) == lookup(members@, key@),
                decreases n - i,
            {
                if str_eq(members[i].0.as_str(), key) {
                    assert(members@.skip(i as int)[0] == members@[i as int]);
                    return Some(&members[i].1);
                }
                assert(members@.skip(i as int).drop_first() =~= members@.skip(i + 1));
                i += 1;
            }
            None
        },
        _ => None,
    }
}

/// The text of `v` when it is a string.
pub fn get_str<'a>(v: Option<&'a JsonValue>) -> (r: Option<&'a String>)
    ensures
        match r {
            Some(s) => str_of(deref_opt(v)) == Some(s@),
            None => str_of(deref_opt(v)) is None,
        },
{
    match v {
        Some(JsonValue::Str(s)) => Some(s),
        _ => None,
    }
}

/// The unsigned reading of `v` when it is a number.
pub fn get_u64(v: Option<&JsonValue>) -> (r: Option<u64>)
    ensures
        r == u64_of(deref_opt(v)),
{
    match v {
        Some(JsonValue::Number(n)) => n.as_u64,
        _ => None,
    }
}

/// The signed reading of `v` when it is a number.
pub fn get_i64(v: Option<&JsonValue>) -> (r: Option<i64>)
    ensures
        r == i64_of(deref_opt(v)),
{
    match v {
        Some(JsonValue::Number(n)) => n.as_i64,
        _ => None,
    }
}

/// The elements of `v` when it is an array.
pub fn get_items<'a>(v: Option<&'a JsonValue>) -> (r: Option<&'a Vec<JsonValue>>)
    ensures
        match r {
            Some(items) => items_of(deref_opt(v)) == Some(items@),
            None => items_of(deref_opt(v)) is None,
        },
{
    match v {
        Some(JsonValue::Array(items)) => Some(items),
        _ => None,
    }
}

/// The first element of an array.
pub fn get_first<'a>(items: Option<&'a Vec<JsonValue>>) -> (r: Option<&'a JsonValue>)
    ensures
        deref_opt(r) == first_of(
            match items {
                Some(v) => Some(v@),
                None => None,
            },
        ),
{
    match items {
        Some(v) => if v.len() > 0 {
            Some(&v[0])
        } else {
            None
        },
        None => None,
    }
}


/// A copy of an optional text.
pub fn clone_opt_string(o: Option<&String>) -> (r: Option<String>)
    ensures
        r.deep_view() == match o {
            Some(s) => Some(s@),
            None => None,
        },
{
    match o {
        Some(s) => Some(s.clone()),
        None => None,
    }
}

/// The text, or `default` when there is none.
pub fn text_or_default(o: Option<&String>, default: &str) -> (r: String)
    ensures
        r@ == text_or(
            match o {
                Some(s) => Some(s@),
                None => None,
            },
            default@,
        ),
{
    match o {
        Some(s) => s.clone(),
        None => String::from_str(default),
    }
}

/// The text, or the empty text when there is none.
pub fn text_or_empty(o: Option<&String>) -> (r: String)
    ensures
        r@ == text_or(
            match o {
                Some(s) => Some(s@),
                None => None,
            },
            seq![],
        ),
{
    match o {
        Some(s) => s.clone(),
        None => String::new(),
    }
}

} // verus!
