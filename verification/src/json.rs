//! A JSON document as clio prints it, and the few ways the library reads
//! one: a member of an object by name, a string, a flag or an array.

use vstd::prelude::*;
use crate::text::str_eq;

verus! {

/// One JSON value. An object keeps its members in the order they came.
#[derive(Debug)]
pub enum JsonValue {
    Null,
    Bool(bool),
    Number(String),
    Str(String),
    Array(Vec<JsonValue>),
    Object(Vec<(String, JsonValue)>),
}

/// The value of the first member named `key`.
pub open spec fn member(fields: Seq<(String, JsonValue)>, key: Seq<char>) -> Option<JsonValue>
    decreases fields.len(),
{
    if fields.len() == 0 {
        None
    } else if fields[0].0@ == key {
        Some(fields[0].1)
    } else {
        member(fields.drop_first(), key)
    }
}

/// `value[key]`: a member of an object; nothing for any other value.
pub open spec fn spec_get(v: JsonValue, key: Seq<char>) -> Option<JsonValue> {
    match v {
        JsonValue::Object(fields) => member(fields@, key),
        _ => None,
    }
}

/// The member named `upper`, else the one named `lower`.
pub open spec fn spec_get_either(v: JsonValue, upper: Seq<char>, lower: Seq<char>) -> Option<JsonValue> {
    match spec_get(v, upper) {
        Some(x) => Some(x),
        None => spec_get(v, lower),
    }
}

pub open spec fn spec_as_str(x: Option<JsonValue>) -> Option<Seq<char>> {
    match x {
        Some(JsonValue::Str(s)) => Some(s@),
        _ => None,
    }
}

/// The text of a string value; empty for anything else or nothing.
pub open spec fn text_or_empty(x: Option<JsonValue>) -> Seq<char> {
    match spec_as_str(x) {
        Some(s) => s,
        None => Seq::empty(),
    }
}

pub open spec fn spec_as_array(x: Option<JsonValue>) -> Option<Seq<JsonValue>> {
    match x {
        Some(JsonValue::Array(items)) => Some(items@),
        _ => None,
    }
}

pub open spec fn spec_as_bool(x: Option<JsonValue>) -> Option<bool> {
    match x {
        Some(JsonValue::Bool(b)) => Some(b),
        _ => None,
    }
}

pub open spec fn deref_opt(x: Option<&JsonValue>) -> Option<JsonValue> {
    match x {
        Some(y) => Some(*y),
        None => None,
    }
}

/// `value.get(key)`.
pub fn get<'a>(v: &'a JsonValue, key: &str) -> (r: Option<&'a JsonValue>)
    ensures
        deref_opt(r) == spec_get(*v, key@),
{
    match v {
        JsonValue::Object(fields) => {
            let mut i: usize = 0;
            proof {
                assert(fields@.skip(0) =~= fields@);
            }
            while i < fields.len()
                invariant
                    i <= fields.len(),
                    spec_get(*v, key@) == member(fields@, key@),
                    member(fields@, key@) == member(fields@.skip(i as int), key@),
                decreases fields.len() - i,
            {
                proof {
                    assert(fields@.skip(i as int)[0] == fields@[i as int]);
                    assert(fields@.skip(i as int).drop_first() =~= fields@.skip(i + 1));
                }
                if str_eq(fields[i].0.as_str(), key) {
                    proof {
                        assert(fields@.skip(i as int)[0].0@ == key@);
                        assert(member(fields@.skip(i as int), key@) == Some(fields@[i as int].1));
                    }
                    return Some(&fields[i].1);
                }
                i = i + 1;
            }
            proof {
                assert(fields@.skip(i as int) =~= Seq::<(String, JsonValue)>::empty());
            }
            None
        },
        _ => None,
    }
}

/// `value.get(upper).or_else(|| value.get(lower))`.
pub fn get_either<'a>(v: &'a JsonValue, upper: &str, lower: &str) -> (r: Option<&'a JsonValue>)
    ensures
        deref_opt(r) == spec_get_either(*v, upper@, lower@),
{
    match get(v, upper) {
        Some(x) => Some(x),
        None => get(v, lower),
    }
}

/// The text of a string value, when it is one.
pub fn as_text(x: Option<&JsonValue>) -> (r: Option<String>)
    ensures
        match r {
            Some(s) => spec_as_str(deref_opt(x)) == Some(s@),
            None => spec_as_str(deref_opt(x)) is None,
        },
{
    match x {
        Some(JsonValue::Str(s)) => Some(s.clone()),
        _ => None,
    }
}

/// The text of a string value, or empty.
pub fn text_of(x: Option<&JsonValue>) -> (r: String)
    ensures
        r@ == text_or_empty(deref_opt(x)),
{
    match as_text(x) {
        Some(s) => s,
        None => String::new(),
    }
}

/// The items of an array value, when it is one.
pub fn as_array<'a>(x: Option<&'a JsonValue>) -> (r: Option<&'a Vec<JsonValue>>)
    ensures
        match r {
            Some(items) => spec_as_array(deref_opt(x)) == Some(items@),
            None => spec_as_array(deref_opt(x)) is None,
        },
{
    match x {
        Some(JsonValue::Array(items)) => Some(items),
        _ => None,
    }
}

/// The flag of a boolean value, when it is one.
pub fn as_bool(x: Option<&JsonValue>) -> (r: Option<bool>)
    ensures
        r == spec_as_bool(deref_opt(x)),
{
    match x {
        Some(JsonValue::Bool(b)) => Some(*b),
        _ => None,
    }
}

/// The texts among `items`, in order; other values are skipped.
pub open spec fn spec_texts(items: Seq<JsonValue>) -> Seq<Seq<char>>
    decreases items.len(),
{
    if items.len() == 0 {
        Seq::empty()
    } else {
        let init = spec_texts(items.drop_last());
        match items.last() {
            JsonValue::Str(s) => init.push(s@),
            _ => init,
        }
    }
}

/// `items.iter().filter_map(as_str)`.
pub fn texts_of(items: &Vec<JsonValue>) -> (r: Vec<String>)
    ensures
        crate::text::views(r@) == spec_texts(items@),
{
    let mut out: Vec<String> = Vec::new();
    let mut i: usize = 0;
    proof {
        assert(items@.take(0) =~= Seq::<JsonValue>::empty());
        assert(crate::text::views(out@) =~= Seq::<Seq<char>>::empty());
    }
    while i < items.len()
        invariant
            i <= items.len(),
            crate::text::views(out@) == spec_texts(items@.take(i as int)),
        decreases items.len() - i,
    {
        proof {
            assert(items@.take(i + 1).drop_last() =~= items@.take(i as int));
            assert(items@.take(i + 1).last() == items@[i as int]);
        }
        match &items[i] {
            JsonValue::Str(s) => {
                let ghost before = out@;
                out.push(s.clone());
                proof {
                    assert(crate::text::views(out@) =~= crate::text::views(before).push(s@));
                }
            },
            _ => {},
        }
        i = i + 1;
    }
    proof {
        assert(items@.take(items.len() as int) =~= items@);
    }
    out
}

/// A number read as an unsigned 64-bit integer: one written as plain
/// decimal digits whose value fits.
pub open spec fn spec_as_u64(x: Option<JsonValue>) -> Option<u64> {
    match x {
        Some(JsonValue::Number(t)) => match crate::text::spec_parse_unsigned(t@, u64::MAX as nat) {
            Some(n) => Some(n as u64),
            None => None,
        },
        _ => None,
    }
}

/// `value.as_u64()`.
pub fn as_u64(x: Option<&JsonValue>) -> (r: Option<u64>)
    ensures
        r == spec_as_u64(deref_opt(x)),
{
    match x {
        Some(JsonValue::Number(t)) => crate::text::parse_unsigned(t.as_str(), u64::MAX),
        _ => None,
    }
}

} // verus!
