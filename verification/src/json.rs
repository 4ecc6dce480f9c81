//! JSON texts: validity, string quoting, and a plain model of parsed values.

use vstd::prelude::*;

verus! {

/// Whether `serde_json` accepts the text as one JSON value.
pub uninterp spec fn parses_as_json(text: Seq<char>) -> bool;

/// `serde_json::from_str::<serde_json::Value>`, reduced to whether it
/// succeeded; the result is the one named `parses_as_json` of the text.
#[verifier::external_body]
pub(crate) fn is_json(text: &str) -> (res: bool)
    ensures
        res == parses_as_json(text@),
{
    serde_json::from_str::<serde_json::Value>(text).is_ok()
}

/// A lowercase hexadecimal digit for `d < 16`.
pub open spec fn hex_digit(d: nat) -> char {
    if d < 10 {
        crate::text::digit_char(d)
    } else if d == 10 { 'a' }
    else if d == 11 { 'b' }
    else if d == 12 { 'c' }
    else if d == 13 { 'd' }
    else if d == 14 { 'e' }
    else { 'f' }
}

/// How a character is written inside a JSON string: `"` and `\` and the
/// controls with a short escape get a backslash, the other controls below
/// 0x20 become `\u00xx` in lowercase hex, and every other character stays.
pub open spec fn escape_char(c: char) -> Seq<char> {
    let u = c as u32;
    if c == '"' {
        seq!['\\', '"']
    } else if c == '\\' {
        seq!['\\', '\\']
    } else if u == 0x08 {
        seq!['\\', 'b']
    } else if u == 0x09 {
        seq!['\\', 't']
    } else if u == 0x0a {
        seq!['\\', 'n']
    } else if u == 0x0c {
        seq!['\\', 'f']
    } else if u == 0x0d {
        seq!['\\', 'r']
    } else if u < 0x20 {
        seq!['\\', 'u', '0', '0', hex_digit((u / 16) as nat), hex_digit((u % 16) as nat)]
    } else {
        seq![c]
    }
}

/// The characters of a text, each written as inside a JSON string.
pub open spec fn escaped(s: Seq<char>) -> Seq<char>
    decreases s.len(),
{
    if s.len() == 0 {
        Seq::empty()
    } else {
        escaped(s.drop_last()) + escape_char(s.last())
    }
}

/// The JSON string literal that `serde_json` writes for a text: the escaped
/// characters between double quotes.
pub open spec fn json_string(s: Seq<char>) -> Seq<char> {
    seq!['"'] + escaped(s) + seq!['"']
}

/// `serde_json::to_string` of a `str`: the text's characters, escaped as
/// `serde_json`'s escape table writes them, between double quotes.
/// Serialising a `str` cannot fail; the error arm only satisfies the type.
#[verifier::external_body]
pub(crate) fn quote_json(s: &str) -> (res: String)
    ensures
        res@ == json_string(s@),
{
    match serde_json::to_string(s) {
        Ok(t) => t,
        Err(_) => String::new(),
    }
}

/// A parsed JSON value. Numbers keep the text that `serde_json` writes for
/// them; an object's members are listed as `serde_json` holds them (in key
/// order, each key once), and a lookup takes the first member with the key.
#[derive(Debug)]
pub enum Json {
    Null,
    Bool(bool),
    Number(String),
    Text(String),
    Array(Vec<Json>),
    Object(Vec<(String, Json)>),
}

/// The value stored under `key` among an object's members, if any.
pub open spec fn member(fields: Seq<(String, Json)>, key: Seq<char>) -> Option<Json>
    decreases fields.len(),
{
    if fields.len() == 0 {
        None
    } else if fields[0].0@ == key {
        Some(fields[0].1)
    } else {
        member(fields.drop_first(), key)
    }
}

/// `serde_json::Value::get` on an object: the member under `key`, if any.
pub fn member_of<'a>(fields: &'a Vec<(String, Json)>, key: &str) -> (res: Option<&'a Json>)
    ensures
        match member(fields@, key@) {
            Some(v) => res matches Some(r) && *r == v,
            None => res is None,
        },
{
    let mut i: usize = 0;
    assert(fields@.skip(0) =~= fields@);
    while i < fields.len()
        invariant
            i <= fields.len(),
            member(fields@, key@) == member(fields@.skip(i as int), key@),
        decreases fields.len() - i,
    {
        assert(fields@.skip(i as int).drop_first() =~= fields@.skip(i + 1));
        assert(fields@.skip(i as int)[0] == fields@[i as int]);
        if crate::text::same_text(fields[i].0.as_str(), key) {
            return Some(&fields[i].1);
        }
        i = i + 1;
    }
    assert(fields@.skip(i as int).len() == 0);
    None
}

/// `serde_json::Value::get(key)` followed by `as_str`: the text stored under
/// `key` when the value is an object holding a string there.
pub open spec fn text_member(value: Json, key: Seq<char>) -> Option<Seq<char>> {
    match value {
        Json::Object(fields) => match member(fields@, key) {
            Some(Json::Text(s)) => Some(s@),
            _ => None,
        },
        _ => None,
    }
}

/// The text stored under `key` in an object, if it is a string.
pub fn text_member_of<'a>(value: &'a Json, key: &str) -> (res: Option<&'a String>)
    ensures
        match text_member(*value, key@) {
            Some(s) => res matches Some(r) && r@ == s,
            None => res is None,
        },
{
    match value {
        Json::Object(fields) => match member_of(fields, key) {
            Some(Json::Text(s)) => Some(s),
            _ => None,
        },
        _ => None,
    }
}

} // verus!
