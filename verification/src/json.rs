//! JSON through `serde_json`: string literals and flat objects of strings.
use vstd::prelude::*;
use serde::Serializer;
use std::collections::BTreeMap;
use crate::pairs::pairs_map;

verus! {

/// `serde_json::Error`, the error of a failed parse or serialization;
/// opaque to proofs.
#[verifier::external_type_specification]
#[verifier::external_body]
pub struct ExJsonError(serde_json::Error);

/// What `serde_json::from_str::<String>` yields for a text, if it succeeds.
pub uninterp spec fn json_string_value(text: Seq<char>) -> Option<Seq<char>>;

/// What `serde_json::from_str::<BTreeMap<String, String>>` yields for a
/// text, as its entries in key order, if it succeeds.
pub uninterp spec fn json_string_map_entries(text: Seq<char>) -> Option<Seq<(Seq<char>, Seq<char>)>>;

/// The pretty-printed JSON object that `serde_json`'s pretty serializer
/// writes for these key/value pairs, in this order.
pub uninterp spec fn json_pretty_object(entries: Seq<(Seq<char>, Seq<char>)>) -> Seq<char>;

/// Characters that stand for themselves inside a JSON string literal: no
/// quote, no backslash, no control character.
pub open spec fn is_plain_json_text(s: Seq<char>) -> bool {
    forall|i: int| 0 <= i < s.len() ==> #[trigger] s[i] != '"' && s[i] != '\\' && (s[i] as u32) >= 0x20
}

/// A JSON string literal without escapes.
pub open spec fn is_plain_json_literal(text: Seq<char>) -> bool {
    &&& text.len() >= 2
    &&& text[0] == '"'
    &&& text.last() == '"'
    &&& is_plain_json_text(text.subrange(1, text.len() - 1))
}

/// Whitespace between JSON tokens.
pub open spec fn is_json_white_space(c: char) -> bool {
    c == ' ' || c == '\t' || c == '\n' || c == '\r'
}

/// The text starts with a JSON string literal without escapes, closed at
/// position `k`, and goes on with something other than whitespace.
pub open spec fn plain_literal_then_more(text: Seq<char>, k: int) -> bool {
    &&& 1 <= k && k + 1 < text.len()
    &&& text[0] == '"'
    &&& text[k] == '"'
    &&& is_plain_json_text(text.subrange(1, k))
    &&& !is_json_white_space(text[k + 1])
}

/// Wraps `serde_json::from_str::<String>`.  Claims: success exactly where
/// the named value is defined, with that value; a quoted text without quote,
/// backslash or control character inside decodes to what is inside the
/// quotes (RFC 8259, section 7).
#[verifier::external_body]
pub(crate) fn parse_json_string(text: &str) -> (r: Result<String, serde_json::Error>)
    ensures
        match json_string_value(text@) {
            Some(v) => r matches Ok(s) && s@ == v,
            None => r is Err,
        },
        is_plain_json_literal(text@) ==> r is Ok,
        r matches Ok(s) ==> (is_plain_json_literal(text@) ==> s@ == text@.subrange(1, text@.len() - 1)),
        (exists|k: int| plain_literal_then_more(text@, k)) ==> r is Err,
{
    serde_json::from_str::<String>(text)
}

/// Wraps `serde_json::from_str::<BTreeMap<String, String>>`, handing out the
/// map's entries in order.  Claims: success exactly where the named entries
/// are defined, with those entries.
#[verifier::external_body]
pub(crate) fn parse_json_string_map(text: &str) -> (r: Result<Vec<(String, String)>, serde_json::Error>)
    ensures
        match json_string_map_entries(text@) {
            Some(entries) => r matches Ok(v) && v.deep_view() == entries,
            None => r is Err,
        },
{
    match serde_json::from_str::<BTreeMap<String, String>>(text) {
        Ok(map) => Ok(map.into_iter().collect()),
        Err(error) => Err(error),
    }
}

/// Wraps `Serializer::collect_map` of `serde_json`'s pretty serializer over
/// the pairs in their order.  Claims: writing strings into a byte buffer
/// does not fail; the text is the named pretty object of the pairs; and
/// `serde_json::from_str` reads that text back as a map of strings in which
/// each key has the value of its last pair (every key and value is written
/// as an escaped JSON string, and a map parse keeps the last value of a
/// repeated key).
#[verifier::external_body]
pub(crate) fn write_json_string_map(entries: &Vec<(String, String)>) -> (r: Result<String, serde_json::Error>)
    ensures
        r is Ok,
        r matches Ok(s) ==> s@ == json_pretty_object(entries.deep_view()),
        r matches Ok(s) ==> (json_string_map_entries(s@) matches Some(parsed) && pairs_map(parsed) == pairs_map(
            entries.deep_view(),
        )),
{
    let mut out: Vec<u8> = Vec::new();
    let mut serializer = serde_json::Serializer::pretty(&mut out);
    (&mut serializer).collect_map(entries.iter().map(|pair| (&pair.0, &pair.1)))?;
    Ok(String::from_utf8_lossy(&out).into_owned())
}

/// Wraps `serde_json::Error`'s `to_string`; nothing is claimed of the text.
#[verifier::external_body]
pub(crate) fn json_error_text(error: &serde_json::Error) -> String {
    error.to_string()
}

} // verus!
