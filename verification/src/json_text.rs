//! JSON text: what `serde_json` reads from it and writes.
use vstd::prelude::*;
use vstd::utf8::encode_utf8;
use crate::json::{names_once, outcome_of, Json, JsonView};
use crate::text::{hex_char, opt_text};

verus! {

/// The outside type of JSON values.
#[verifier::external_type_specification]
#[verifier::external_body]
pub struct ExValue(serde_json::Value);

/// The JSON value that `bytes` hold, as `serde_json` reads it, or what it says of
/// them.
pub uninterp spec fn json_document(bytes: Seq<u8>) -> Result<JsonView, Seq<char>>;

/// The text of a JSON value, as `serde_json` writes it in the compact form.
pub uninterp spec fn json_written(value: JsonView) -> Seq<char>;

/// A JSON text read and written again; nothing where it is no JSON.
pub open spec fn rewritten(text: Seq<char>) -> Option<Seq<char>> {
    match json_document(encode_utf8(text)) {
        Ok(value) => Some(json_written(value)),
        Err(_) => None,
    }
}

/// A character as it stands in a JSON string: quotes, backslashes and control
/// characters are escaped.
pub open spec fn json_escape(c: char) -> Seq<char> {
    let n = c as nat;
    if c == '"' || c == '\\' {
        seq!['\\', c]
    } else if n == 0x08 {
        seq!['\\', 'b']
    } else if n == 0x09 {
        seq!['\\', 't']
    } else if n == 0x0a {
        seq!['\\', 'n']
    } else if n == 0x0c {
        seq!['\\', 'f']
    } else if n == 0x0d {
        seq!['\\', 'r']
    } else if n < 0x20 {
        seq!['\\', 'u', '0', '0', hex_char(n / 16), hex_char(n % 16)]
    } else {
        seq![c]
    }
}

/// The characters of a text as they stand in a JSON string.
pub open spec fn json_escaped(text: Seq<char>) -> Seq<char>
    decreases text.len(),
{
    if text.len() == 0 {
        Seq::empty()
    } else {
        json_escaped(text.drop_last()) + json_escape(text.last())
    }
}

/// A text as a JSON string.
pub open spec fn json_quoted(text: Seq<char>) -> Seq<char> {
    seq!['"'] + json_escaped(text) + seq!['"']
}

/// Takes a `serde_json::Value` apart, one variant of [`Json`] for each of its
/// own, and `Number::as_i128` to tell integers from other numbers. Its maps hold
/// a key once.
#[verifier::external_body]
fn json_of_value(value: serde_json::Value) -> (r: Json)
    ensures
        names_once(r@),
{
    match value {
        serde_json::Value::Null => Json::Null,
        serde_json::Value::Bool(b) => Json::Bool(b),
        serde_json::Value::Number(n) => match n.as_i128() {
            Some(i) => Json::Int(i),
            None => Json::Float(n.to_string()),
        },
        serde_json::Value::String(s) => Json::Text(s),
        serde_json::Value::Array(v) => Json::Array(v.into_iter().map(json_of_value).collect()),
        serde_json::Value::Object(m) => {
            Json::Object(m.into_iter().map(|(k, v)| (k, json_of_value(v))).collect())
        },
    }
}

/// Calls `serde_json::from_slice` for a `serde_json::Value`, and its error's
/// `to_string`. The result depends on `bytes` alone, and no object in it has two
/// members of one name. Which value or message it is, is left to its name.
#[verifier::external_body]
pub(crate) fn parse_document(bytes: &[u8]) -> (r: Result<Json, String>)
    ensures
        outcome_of(r) == json_document(bytes@),
        r matches Ok(j) ==> names_once(j@),
{
    match serde_json::from_slice::<serde_json::Value>(bytes) {
        Ok(value) => Ok(json_of_value(value)),
        Err(e) => Err(e.to_string()),
    }
}

/// Calls `serde_json::from_str`, and `serde_json::to_string` on what was read.
/// The result is the text of that value; nothing where `text` is no JSON. How
/// numbers and strings are spelled is left to its name.
#[verifier::external_body]
pub(crate) fn compact(text: &str) -> (r: Option<String>)
    ensures
        match json_document(encode_utf8(text@)) {
            Ok(value) => opt_text(r) == Some(json_written(value)),
            Err(_) => r is None,
        },
{
    let value: serde_json::Value = serde_json::from_str(text).ok()?;
    serde_json::to_string(&value).ok()
}

/// Calls `serde_json::Value`'s `Display` on a string value: `text` between
/// quotes, with quotes, backslashes and control characters escaped.
#[verifier::external_body]
pub(crate) fn quoted(text: &str) -> (r: String)
    ensures
        r@ == json_quoted(text@),
{
    serde_json::Value::from(text).to_string()
}

} // verus!
