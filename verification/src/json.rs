//! JSON values.
//!
//! `serde_json` holds, reads and writes the values. `Json` is what a value is
//! to the contracts, and `json_of` says which one a `serde_json::Value` holds.
use vstd::prelude::*;

verus! {

/// A JSON value.
pub enum Json {
    Null,
    Bool(bool),
    /// An integer from zero up.
    Unsigned(u64),
    /// An integer below zero.
    Negative(i64),
    /// Any other number, by the bits of the double that stands for it.
    Float(u64),
    Text(Seq<char>),
    Array(Seq<Json>),
    Object(Map<Seq<char>, Json>),
}

/// A JSON value of `serde_json`.
#[verifier::external_type_specification]
#[verifier::external_body]
pub struct ExValue(serde_json::Value);

/// An error of `serde_json`.
#[verifier::external_type_specification]
#[verifier::external_body]
pub struct ExError(serde_json::Error);

/// What a value of `serde_json` holds.
pub uninterp spec fn json_of(value: serde_json::Value) -> Json;

/// The value that `serde_json::from_str` reads in a text, if it reads one.
pub uninterp spec fn json_read(text: Seq<char>) -> Option<Json>;

/// The value that `serde_json::from_slice` reads in bytes, if it reads one.
pub uninterp spec fn json_read_bytes(bytes: Seq<u8>) -> Option<Json>;

/// The text that a value of `serde_json` displays as.
pub uninterp spec fn json_text(value: Json) -> Seq<char>;

/// The text that `serde_json::to_string_pretty` writes of a value.
pub uninterp spec fn json_pretty(value: Json) -> Seq<char>;

/// Member `key` of an object.
pub open spec fn member(value: Json, key: Seq<char>) -> Option<Json> {
    match value {
        Json::Object(members) => if members.dom().contains(key) {
            Some(members[key])
        } else {
            None
        },
        _ => None,
    }
}

/// The text that a value is.
pub open spec fn text_in(value: Json) -> Option<Seq<char>> {
    match value {
        Json::Text(text) => Some(text),
        _ => None,
    }
}

/// The members of an object; `null` counts as an object without any.
pub open spec fn members_of(value: Json) -> Map<Seq<char>, Json> {
    match value {
        Json::Object(members) => members,
        _ => Map::empty(),
    }
}

/// A member can be put into `value`: it is an object, or `null`.
pub open spec fn takes_members(value: Json) -> bool {
    value is Object || value is Null
}

/// How deep arrays and objects nest in a text that `serde_json` reads.
pub open spec fn max_depth() -> nat {
    127
}

/// `value` nests arrays and objects at most `depth` deep.
pub open spec fn nested(value: Json, depth: nat) -> bool
    decreases depth,
{
    match value {
        Json::Array(items) => depth > 0 && forall|i: int|
            0 <= i < items.len() ==> nested(#[trigger] items[i], (depth - 1) as nat),
        Json::Object(members) => depth > 0 && forall|key: Seq<char>|
            members.dom().contains(key) ==> nested(#[trigger] members[key], (depth - 1) as nat),
        _ => true,
    }
}

/// `value` has no number but integers, down to `depth`.
pub open spec fn without_floats(value: Json, depth: nat) -> bool
    decreases depth,
{
    match value {
        Json::Float(_) => false,
        Json::Array(items) => depth > 0 ==> forall|i: int|
            0 <= i < items.len() ==> without_floats(#[trigger] items[i], (depth - 1) as nat),
        Json::Object(members) => depth > 0 ==> forall|key: Seq<char>|
            members.dom().contains(key) ==> without_floats(
                #[trigger] members[key],
                (depth - 1) as nat,
            ),
        _ => true,
    }
}

/// `a` and `b` are the same down to `depth`, but for the numbers that are no
/// integers.
pub open spec fn same_but_floats(a: Json, b: Json, depth: nat) -> bool
    decreases depth,
{
    match (a, b) {
        (Json::Float(_), Json::Float(_)) => true,
        (Json::Array(x), Json::Array(y)) => x.len() == y.len() && (depth > 0 ==> forall|i: int|
            0 <= i < x.len() ==> same_but_floats(#[trigger] x[i], y[i], (depth - 1) as nat)),
        (Json::Object(x), Json::Object(y)) => x.dom() == y.dom() && (depth > 0 ==> forall|
            key: Seq<char>,
        |
            x.dom().contains(key) ==> same_but_floats(
                #[trigger] x[key],
                y[key],
                (depth - 1) as nat,
            )),
        _ => a == b,
    }
}

// ---------------------------------------------------------------------------
// Reading and writing
// ---------------------------------------------------------------------------
/// `serde_json::from_str` at `serde_json::Value`: whether it reads a value,
/// and which one, rests on the text alone, and it refuses a text that nests
/// deeper than its recursion limit.
#[verifier::external_body]
pub(crate) fn read(text: &str) -> (r: Result<serde_json::Value, serde_json::Error>)
    ensures
        r is Ok <==> json_read(text@) is Some,
        r matches Ok(value) ==> json_read(text@) == Some(json_of(value)) && nested(
            json_of(value),
            max_depth(),
        ),
{
    serde_json::from_str(text)
}

/// `serde_json::from_slice` at `serde_json::Value`: whether it reads a value,
/// and which one, rests on the bytes alone.
#[verifier::external_body]
pub(crate) fn read_bytes(bytes: &[u8]) -> (r: Result<serde_json::Value, serde_json::Error>)
    ensures
        r is Ok <==> json_read_bytes(bytes@) is Some,
        r matches Ok(value) ==> json_read_bytes(bytes@) == Some(json_of(value)),
{
    serde_json::from_slice(bytes)
}

/// A value's `Display`: the text rests on the value alone. Reading it gives
/// the value back, where the value nests no deeper than the reader allows and
/// has no number but integers.
#[verifier::external_body]
pub(crate) fn write(value: &serde_json::Value) -> (r: String)
    ensures
        r@ == json_text(json_of(*value)),
        nested(json_of(*value), max_depth()) && without_floats(json_of(*value), max_depth())
            ==> json_read(r@) == Some(json_of(*value)),
{
    value.to_string()
}

/// `serde_json::to_string_pretty` never fails on a `serde_json::Value`, and
/// the text rests on the value alone. The text can be read, where the value
/// nests no deeper than the reader allows: a double is written in its shortest
/// digits, and the reader's arithmetic on these overflows for none. What is
/// read is the value, but for numbers that are no integers: their digits may
/// come back as a neighbour. Without such numbers it is the value itself.
#[verifier::external_body]
pub(crate) fn write_pretty(value: &serde_json::Value) -> (r: Result<String, serde_json::Error>)
    ensures
        r is Ok,
        r matches Ok(text) ==> {
            &&& text@ == json_pretty(json_of(*value))
            &&& nested(json_of(*value), max_depth()) ==> json_read(text@) is Some
            &&& nested(json_of(*value), max_depth()) && without_floats(json_of(*value), max_depth())
                ==> json_read(text@) == Some(json_of(*value))
            &&& json_read(text@) matches Some(back) ==> same_but_floats(
                json_of(*value),
                back,
                max_depth(),
            )
        },
{
    serde_json::to_string_pretty(value)
}

// ---------------------------------------------------------------------------
// Looking inside
// ---------------------------------------------------------------------------
/// `serde_json::Value::get` with a string: the member of that name where the
/// value is an object that has it.
#[verifier::external_body]
pub(crate) fn get<'a>(value: &'a serde_json::Value, key: &str) -> (r: Option<&'a serde_json::Value>)
    ensures
        r is Some <==> member(json_of(*value), key@) is Some,
        r matches Some(found) ==> member(json_of(*value), key@) == Some(json_of(*found)),
{
    value.get(key)
}

/// `serde_json::Value::as_str`: the text of a string, and nothing of any
/// other value.
pub assume_specification[ serde_json::Value::as_str ](value: &serde_json::Value) -> (r: Option<
    &str,
>)
    ensures
        r is Some <==> json_of(*value) is Text,
        r matches Some(text) ==> json_of(*value) == Json::Text(text@),
;

/// `serde_json::Value::as_u64`: the integer where the value is one from zero
/// up, and nothing of any other value.
pub assume_specification[ serde_json::Value::as_u64 ](value: &serde_json::Value) -> (r: Option<u64>)
    ensures
        r is Some <==> json_of(*value) is Unsigned,
        r matches Some(n) ==> json_of(*value) == Json::Unsigned(n),
;

/// `serde_json::Value::is_object`.
pub assume_specification[ serde_json::Value::is_object ](value: &serde_json::Value) -> (r: bool)
    ensures
        r == (json_of(*value) is Object),
;

/// `serde_json::Value::is_null`.
pub assume_specification[ serde_json::Value::is_null ](value: &serde_json::Value) -> (r: bool)
    ensures
        r == (json_of(*value) is Null),
;

/// A clone of a value holds what the value holds.
pub assume_specification[ <serde_json::Value as Clone>::clone ](value: &serde_json::Value) -> (r:
    serde_json::Value)
    ensures
        json_of(r) == json_of(*value),
;

/// `serde_json::from_value` at `String`: the text of a string, and an error
/// for any other value.
#[verifier::external_body]
pub(crate) fn into_string(value: serde_json::Value) -> (r: Result<String, serde_json::Error>)
    ensures
        r is Ok <==> json_of(value) is Text,
        r matches Ok(text) ==> json_of(value) == Json::Text(text@),
{
    serde_json::from_value(value)
}

// ---------------------------------------------------------------------------
// Making values
// ---------------------------------------------------------------------------
/// `serde_json::Map::new`, as an object: it has no members.
#[verifier::external_body]
pub(crate) fn empty_object() -> (r: serde_json::Value)
    ensures
        json_of(r) == Json::Object(Map::empty()),
{
    serde_json::Value::Object(serde_json::Map::new())
}

/// `serde_json::Value::from` of a string slice is that text.
#[verifier::external_body]
pub(crate) fn from_text(text: &str) -> (r: serde_json::Value)
    ensures
        json_of(r) == Json::Text(text@),
{
    serde_json::Value::from(text)
}

/// `serde_json::Value::from` of a signed integer is that integer.
#[verifier::external_body]
pub(crate) fn from_integer(n: i64) -> (r: serde_json::Value)
    ensures
        n >= 0 ==> json_of(r) == Json::Unsigned(n as u64),
        n < 0 ==> json_of(r) == Json::Negative(n),
{
    serde_json::Value::from(n)
}

/// Assignment through `serde_json`'s `IndexMut` with a string: `null` becomes
/// an object, and the member of that name is replaced or added. It panics on
/// any other value, which `requires` leaves out.
#[verifier::external_body]
pub(crate) fn set(value: &mut serde_json::Value, key: &str, member: serde_json::Value)
    requires
        takes_members(json_of(*old(value))),
    ensures
        json_of(*final(value)) == Json::Object(
            members_of(json_of(*old(value))).insert(key@, json_of(member)),
        ),
{
    value[key] = member;
}

/// Reads a text, with nothing where it is no JSON.
pub fn parse(text: &str) -> (r: Option<serde_json::Value>)
    ensures
        r is Some <==> json_read(text@) is Some,
        r matches Some(value) ==> json_read(text@) == Some(json_of(value)) && nested(
            json_of(value),
            max_depth(),
        ),
{
    match read(text) {
        Ok(value) => Some(value),
        Err(_) => None,
    }
}

// ---------------------------------------------------------------------------
// Laws
// ---------------------------------------------------------------------------
/// A member is found in an object that has it, and nowhere else.
pub proof fn law_members_are_found(members: Map<Seq<char>, Json>, key: Seq<char>, value: Json)
    ensures
        member(Json::Object(members.insert(key, value)), key) == Some(value),
        member(Json::Object(members.remove(key)), key) is None,
        !(value is Object) ==> member(value, key) is None,
{
}

/// Only a text is a text.
pub proof fn law_text_is_text(value: Json, text: Seq<char>)
    ensures
        text_in(Json::Text(text)) == Some(text),
        !(value is Text) ==> text_in(value) is None,
{
}

/// A value is the same as itself, and without numbers that are no integers
/// the same as no other.
pub proof fn law_same_is_equal(a: Json, b: Json, depth: nat)
    ensures
        a == b ==> same_but_floats(a, b, depth),
        nested(a, depth) && without_floats(a, depth) && same_but_floats(a, b, depth) ==> a == b,
    decreases depth,
{
    match (a, b) {
        (Json::Array(x), Json::Array(y)) => {
            if depth > 0 {
                assert forall|i: int| 0 <= i < x.len() && x.len() == y.len() implies (x[i] == y[i]
                    ==> same_but_floats(#[trigger] x[i], y[i], (depth - 1) as nat)) && (nested(
                    x[i],
                    (depth - 1) as nat,
                ) && without_floats(x[i], (depth - 1) as nat) && same_but_floats(
                    x[i],
                    y[i],
                    (depth - 1) as nat,
                ) ==> x[i] == y[i]) by {
                    law_same_is_equal(x[i], y[i], (depth - 1) as nat);
                }
                if nested(a, depth) && without_floats(a, depth) && same_but_floats(a, b, depth) {
                    assert(x =~= y);
                }
            }
        },
        (Json::Object(x), Json::Object(y)) => {
            if depth > 0 {
                assert forall|key: Seq<char>| x.dom().contains(key) implies (x[key] == y[key]
                    ==> same_but_floats(#[trigger] x[key], y[key], (depth - 1) as nat)) && (nested(
                    x[key],
                    (depth - 1) as nat,
                ) && without_floats(x[key], (depth - 1) as nat) && same_but_floats(
                    x[key],
                    y[key],
                    (depth - 1) as nat,
                ) ==> x[key] == y[key]) by {
                    law_same_is_equal(x[key], y[key], (depth - 1) as nat);
                }
                if nested(a, depth) && without_floats(a, depth) && same_but_floats(a, b, depth) {
                    assert(x =~= y);
                }
            }
        },
        _ => {},
    }
}

} // verus!
