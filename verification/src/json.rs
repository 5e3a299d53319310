//! JSON documents as plain values, and JSON string literals.
//!
//! Parsing and string escaping are done by `serde_json`; this module holds
//! the trusted items that reach it and the library's view of a parsed
//! document.

use vstd::prelude::*;

verus! {

/// A parsed JSON document. Numbers keep their textual form.
#[derive(Debug)]
pub enum JsonValue {
    Null,
    Bool(bool),
    Number(String),
    Str(String),
    Array(Vec<JsonValue>),
    Object(Vec<(String, JsonValue)>),
}

/// The document that `serde_json::from_slice` reads from `bytes`, or the
/// message of the error it reports.
pub uninterp spec fn json_document(bytes: Seq<u8>) -> Result<JsonValue, Seq<char>>;

/// The `serde_json` document type, carried through opaquely.
#[verifier::external_type_specification]
#[verifier::external_body]
pub struct ExSerdeJsonValue(serde_json::Value);

/// Converts a `serde_json` document into a [`JsonValue`], variant for variant.
#[verifier::external_body]
fn json_value_from_serde(value: serde_json::Value) -> JsonValue {
    match value {
        serde_json::Value::Null => JsonValue::Null,
        serde_json::Value::Bool(b) => JsonValue::Bool(b),
        serde_json::Value::Number(n) => JsonValue::Number(n.to_string()),
        serde_json::Value::String(s) => JsonValue::Str(s),
        serde_json::Value::Array(items) => JsonValue::Array(
            items.into_iter().map(json_value_from_serde).collect(),
        ),
        serde_json::Value::Object(map) => JsonValue::Object(
            map.into_iter().map(|(k, v)| (k, json_value_from_serde(v))).collect(),
        ),
    }
}

/// Parses `bytes` with `serde_json::from_slice`.
///
/// Trusted: the result is the document `serde_json` reads from exactly these
/// bytes (named [`json_document`]), or the text of the error it reports.
#[verifier::external_body]
pub fn parse_json_document(bytes: &[u8]) -> (r: Result<JsonValue, String>)
    ensures
        match r {
            Ok(v) => json_document(bytes@) == Ok::<JsonValue, Seq<char>>(v),
            Err(m) => json_document(bytes@) == Err::<JsonValue, Seq<char>>(m@),
        },
{
    match serde_json::from_slice::<serde_json::Value>(bytes) {
        Ok(value) => Ok(json_value_from_serde(value)),
        Err(error) => Err(error.to_string()),
    }
}

/// Lower-case hexadecimal digit.
pub open spec fn hex_digit(d: int) -> char
    recommends
        0 <= d < 16,
{
    if d < 10 {
        (('0' as u32) + d) as char
    } else {
        (('a' as u32) + d - 10) as char
    }
}

/// How `serde_json` writes one character inside a string literal.
pub open spec fn json_escape_char(c: char) -> Seq<char> {
    let u = c as u32;
    if c == '"' {
        seq!['\\', '"']
    } else if c == '\\' {
        seq!['\\', '\\']
    } else if u == 0x08 {
        seq!['\\', 'b']
    } else if u == 0x09 {
        seq!['\\', 't']
    } else if u == 0x0A {
        seq!['\\', 'n']
    } else if u == 0x0C {
        seq!['\\', 'f']
    } else if u == 0x0D {
        seq!['\\', 'r']
    } else if u < 0x20 {
        seq!['\\', 'u', '0', '0', hex_digit((u / 16) as int), hex_digit((u % 16) as int)]
    } else {
        seq![c]
    }
}

/// The escaped contents of a JSON string literal.
pub open spec fn json_escape(s: Seq<char>) -> Seq<char>
    decreases s.len(),
{
    if s.len() == 0 {
        Seq::empty()
    } else {
        json_escape(s.drop_last()) + json_escape_char(s.last())
    }
}

/// A JSON string literal: quotes around the escaped text.
pub open spec fn json_quoted(s: Seq<char>) -> Seq<char> {
    seq!['"'] + json_escape(s) + seq!['"']
}

/// Serializes a string slice with `serde_json::to_string`.
///
/// Trusted: the text is the quoted, escaped literal that `serde_json`'s
/// serializer writes (its `ESCAPE` table: `"`, `\`, and the control
/// characters below U+0020 are escaped, everything else is copied). Writing a
/// string into the in-memory buffer that `to_string` uses cannot fail.
#[verifier::external_body]
pub fn json_string_literal(s: &str) -> (r: String)
    ensures
        r@ == json_quoted(s@),
{
    match serde_json::to_string(s) {
        Ok(text) => text,
        Err(_) => String::new(),
    }
}

/// Looks up the first member named `key` in a JSON object's members.
pub open spec fn object_member(members: Seq<(String, JsonValue)>, key: Seq<char>) -> Option<
    JsonValue,
>
    decreases members.len(),
{
    if members.len() == 0 {
        None
    } else if members[0].0@ == key {
        Some(members[0].1)
    } else {
        object_member(members.drop_first(), key)
    }
}

/// Finds the first member named `key`.
pub fn find_member<'a>(members: &'a Vec<(String, JsonValue)>, key: &str) -> (r: Option<
    &'a JsonValue,
>)
    ensures
        match r {
            Some(v) => object_member(members@, key@) == Some(*v),
            None => object_member(members@, key@) is None,
        },
{
    let mut i: usize = 0;
    assert(members@.subrange(0, members@.len() as int) =~= members@);
    while i < members.len()
        invariant
            i <= members.len(),
            object_member(members@, key@) == object_member(
                members@.subrange(i as int, members@.len() as int),
                key@,
            ),
        decreases members.len() - i,
    {
        let ghost rest = members@.subrange(i as int, members@.len() as int);
        assert(rest[0] == members@[i as int]);
        assert(rest.drop_first() =~= members@.subrange(i + 1, members@.len() as int));
        if crate::text::str_eq(members[i].0.as_str(), key) {
            return Some(&members[i].1);
        }
        i = i + 1;
    }
    None
}

} // verus!
