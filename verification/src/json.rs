//! JSON documents as the library reads them: a tree parsed by `serde_json`,
//! and the lookups that read fields, strings, numbers and arrays from it.
use vstd::prelude::*;

verus! {

/// `serde_json::Value`, handed from the parser to its conversion.
#[verifier::external_type_specification]
#[verifier::external_body]
pub struct ExSerdeValue(serde_json::Value);

/// A parsed JSON value. A number is held by its value as an unsigned 64-bit
/// integer (`serde_json`'s `as_u64`), none when it is negative or not whole;
/// an object holds its fields in the order `serde_json`'s map yields them
/// (by key, unless its `preserve_order` feature is on), each key once.
#[derive(Debug)]
pub enum JsonValue {
    Null,
    Bool(bool),
    Number(Option<u64>),
    Str(String),
    Array(Vec<JsonValue>),
    Object(Vec<(String, JsonValue)>),
}

/// The value that `serde_json` parses from `text`, converted into a
/// [`JsonValue`]; none when `text` is not JSON.
pub uninterp spec fn json_of(text: Seq<char>) -> Option<JsonValue>;

/// The conversion step of `parse_json`: each `serde_json::Value` variant
/// becomes its namesake, numbers by `Number::as_u64`, arrays and objects
/// element by element. It is recursive, so it stands apart from the
/// wrapper; it claims nothing by itself.
#[verifier::external_body]
fn tree_of(value: serde_json::Value) -> JsonValue {
    match value {
        serde_json::Value::Null => JsonValue::Null,
        serde_json::Value::Bool(b) => JsonValue::Bool(b),
        serde_json::Value::Number(n) => JsonValue::Number(n.as_u64()),
        serde_json::Value::String(s) => JsonValue::Str(s),
        serde_json::Value::Array(items) => JsonValue::Array(items.into_iter().map(tree_of).collect()),
        serde_json::Value::Object(fields) => JsonValue::Object(
            fields.into_iter().map(|(key, v)| (key, tree_of(v))).collect(),
        ),
    }
}

/// Calls `serde_json::from_str::<serde_json::Value>` and converts the value.
/// The contract claims that it succeeds exactly when `text` is JSON
/// (`json_of` has a value) and then gives that value; the error is the
/// parse error's message, of which nothing is claimed.
#[verifier::external_body]
pub(crate) fn parse_json(text: &str) -> (r: Result<JsonValue, String>)
    ensures
        r is Ok <==> json_of(text@) is Some,
        r matches Ok(v) ==> json_of(text@) == Some(v),
{
    match serde_json::from_str::<serde_json::Value>(text) {
        Ok(value) => Ok(tree_of(value)),
        Err(error) => Err(format!("{error}")),
    }
}

/// `fields[i]` is the first field named `key`.
pub open spec fn is_first_field(fields: Seq<(String, JsonValue)>, key: Seq<char>, i: int) -> bool {
    &&& 0 <= i < fields.len()
    &&& fields[i].0@ == key
    &&& forall|j: int| 0 <= j < i ==> fields[j].0@ != key
}

/// The field `key` of `v`: none when `v` is not an object or has no such field.
pub open spec fn field_of(v: JsonValue, key: Seq<char>) -> Option<JsonValue> {
    match v {
        JsonValue::Object(fields) => if exists|i: int| is_first_field(fields@, key, i) {
            Some(fields@[choose|i: int| is_first_field(fields@, key, i)].1)
        } else {
            None
        },
        _ => None,
    }
}

/// The field `key` of an optional value.
pub open spec fn member_of(v: Option<JsonValue>, key: Seq<char>) -> Option<JsonValue> {
    match v {
        Some(value) => field_of(value, key),
        None => None,
    }
}

/// The unsigned integer an optional value holds.
pub open spec fn u64_in(v: Option<JsonValue>) -> Option<u64> {
    match v {
        Some(JsonValue::Number(n)) => n,
        _ => None,
    }
}

/// The string an optional value holds.
pub open spec fn str_in(v: Option<JsonValue>) -> Option<Seq<char>> {
    match v {
        Some(JsonValue::Str(s)) => Some(s@),
        _ => None,
    }
}

/// The elements of an optional array value.
pub open spec fn array_in(v: Option<JsonValue>) -> Option<Seq<JsonValue>> {
    match v {
        Some(JsonValue::Array(items)) => Some(items@),
        _ => None,
    }
}

/// An optional borrowed value, as a value.
pub open spec fn deref_opt(v: Option<&JsonValue>) -> Option<JsonValue> {
    match v {
        Some(value) => Some(*value),
        None => None,
    }
}

/// `s` holds the string `t` (both none, or equal).
pub open spec fn text_matches(s: Option<String>, t: Option<Seq<char>>) -> bool {
    match (s, t) {
        (None, None) => true,
        (Some(a), Some(b)) => a@ == b,
        _ => false,
    }
}

/// The field `key` of `v` (`Value::get` on an optional value).
pub fn field<'a>(v: Option<&'a JsonValue>, key: &str) -> (r: Option<&'a JsonValue>)
    ensures
        deref_opt(r) == member_of(deref_opt(v), key@),
{
    let value = match v {
        Some(value) => value,
        None => return None,
    };
    let fields = match value {
        JsonValue::Object(fields) => fields,
        _ => return None,
    };
    let wanted = key.to_owned();
    let mut i: usize = 0;
    while i < fields.len()
        invariant
            i <= fields@.len(),
            wanted@ == key@,
            deref_opt(v) == Some(*value),
            *value == JsonValue::Object(*fields),
            forall|j: int| 0 <= j < i ==> fields@[j].0@ != key@,
        decreases fields@.len() - i,
    {
        if fields[i].0 == wanted {
            proof {
                assert(is_first_field(fields@, key@, i as int));
                let c = choose|c: int| is_first_field(fields@, key@, c);
                assert(c == i) by {
                    if c > i {
                        assert(fields@[i as int].0@ != key@);
                    }
                }
                assert(field_of(*value, key@) == Some(fields@[i as int].1));
                assert(member_of(deref_opt(v), key@) == Some(fields@[i as int].1));
            }
            return Some(&fields[i].1);
        }
        i = i + 1;
    }
    None
}

/// The unsigned integer `v` holds (`Value::as_u64`).
pub fn u64_at(v: Option<&JsonValue>) -> (r: Option<u64>)
    ensures
        r == u64_in(deref_opt(v)),
{
    match v {
        Some(JsonValue::Number(n)) => *n,
        _ => None,
    }
}

/// The string `v` holds, copied (`Value::as_str`).
pub fn string_at(v: Option<&JsonValue>) -> (r: Option<String>)
    ensures
        text_matches(r, str_in(deref_opt(v))),
{
    match v {
        Some(JsonValue::Str(s)) => Some(s.clone()),
        _ => None,
    }
}

/// The elements of `v` when it is an array (`Value::as_array`).
pub fn array_at<'a>(v: Option<&'a JsonValue>) -> (r: Option<&'a Vec<JsonValue>>)
    ensures
        match r {
            Some(items) => array_in(deref_opt(v)) == Some(items@),
            None => array_in(deref_opt(v)) is None,
        },
{
    match v {
        Some(JsonValue::Array(items)) => Some(items),
        _ => None,
    }
}

} // verus!
