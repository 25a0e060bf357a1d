//! The calls that leave the verified code. Verus takes each contract in this
//! file on trust: none of the bodies is checked against it.

use crate::json::json_object_text;
use std::collections::hash_map::DefaultHasher;
use std::hash::Hash;
use vstd::prelude::*;

verus! {

/// `<str as PartialEq>::eq`, which `==` between string slices calls: two
/// slices are equal exactly when they hold the same characters.
pub assume_specification[ <str as PartialEq>::eq ](a: &str, b: &str) -> (r: bool)
    ensures
        r == (a@ == b@),
;

/// `std::io::Error`, carried through as it is: nothing is known of what it
/// holds.
#[verifier::external_type_specification]
#[verifier::external_body]
pub struct ExIoError(std::io::Error);

/// The text that `{:?}` gives for a string slice: the slice in double
/// quotes, with the characters that cannot stand there escaped.
pub uninterp spec fn debug_quoted(s: Seq<char>) -> Seq<char>;

/// The pieces of `text` between the matches of the regular expression
/// `pattern`, as `regex::Regex::split` yields them; `None` where
/// `regex::Regex::new` refuses the pattern.
pub uninterp spec fn pattern_split(pattern: Seq<char>, text: Seq<char>) -> Option<Seq<Seq<char>>>;

/// Formats `s` with `{:?}`, the `Debug` implementation of `str`. The result
/// depends on `s` alone; the contract gives it its name and says no more.
#[verifier::external_body]
pub(crate) fn debug_quote(s: &str) -> (r: String)
    ensures
        r@ == debug_quoted(s@),
{
    format!("{:?}", s)
}

/// Formats an I/O error with `{:?}`. The text differs from one system to the
/// next, so nothing is promised of it.
#[verifier::external_body]
pub(crate) fn io_error_debug(e: &std::io::Error) -> (r: String) {
    format!("{:?}", e)
}

/// Compiles `pattern` with `regex::Regex::new` and splits `text` with
/// `regex::Regex::split`. Both depend on their arguments alone; the contract
/// gives the outcome its name and says no more.
#[verifier::external_body]
pub(crate) fn split_by_pattern(pattern: &str, text: &str) -> (r: Option<Vec<String>>)
    ensures
        r.deep_view() == pattern_split(pattern@, text@),
{
    match regex::Regex::new(pattern) {
        Ok(regex) => Some(regex.split(text).map(|part| part.to_string()).collect()),
        Err(_) => None,
    }
}

/// Has `serde_json` write the object `{key: value}`: a `serde_json::Map`
/// with one member, shown through `Display` of `serde_json::Value`. That
/// writes compact JSON: the braces, the colon, and both strings between
/// double quotes with the escapes of `serde_json`'s table, which
/// `json_object_text` spells out.
#[verifier::external_body]
pub(crate) fn json_object(key: &str, value: &str) -> (r: String)
    ensures
        r@ == json_object_text(key@, value@),
{
    let mut members = serde_json::Map::new();
    members.insert(key.to_string(), serde_json::Value::String(value.to_string()));
    serde_json::Value::Object(members).to_string()
}

/// Feeds `text` to the hasher through `Hash::hash` of `str`. What the hasher
/// holds afterwards is not stated.
#[verifier::external_body]
pub(crate) fn hash_text(state: &mut DefaultHasher, text: &str) {
    text.hash(state)
}

/// Feeds `index` to the hasher through `Hash::hash` of `usize`. What the
/// hasher holds afterwards is not stated.
#[verifier::external_body]
pub(crate) fn hash_index(state: &mut DefaultHasher, index: usize) {
    index.hash(state)
}

} // verus!
