//! JSON text for string-to-string maps, through `serde_json`.

use std::collections::BTreeMap;

use vstd::prelude::*;

use crate::text_map::TextMap;

verus! {

/// The JSON object text that `serde_json` writes for a map from strings to
/// strings, its keys in ascending order.
pub uninterp spec fn json_object_text(m: Map<Seq<char>, Seq<char>>) -> Seq<char>;

/// The map from strings to strings that `serde_json` reads from a JSON
/// text, or `None` when the text is not a JSON object of string values.
pub uninterp spec fn json_object_map(text: Seq<char>) -> Option<Map<Seq<char>, Seq<char>>>;

/// The characters of each value of a map of strings.
pub open spec fn text_values(m: Map<Seq<char>, String>) -> Map<Seq<char>, Seq<char>> {
    m.map_values(|v: String| v@)
}

/// Calls `serde_json::to_string` on the map's entries, gathered in a
/// `BTreeMap` so that the keys come out in ascending order. The contract
/// claims that this succeeds (its documentation names only failing
/// `Serialize` impls and non-string keys as causes of failure), that the
/// text is the one named by `json_object_text`, and that `serde_json` reads
/// the same map back from it.
#[verifier::external_body]
pub(crate) fn encode_text_map(m: &TextMap<String>) -> (res: Option<String>)
    ensures
        res is Some,
        res matches Some(s) ==> s@ == json_object_text(text_values(m@)),
        res matches Some(s) ==> json_object_map(s@) == Some(text_values(m@)),
{
    let sorted: BTreeMap<&str, &str> = m.entries.iter().map(|(k, v)| (k.as_str(), v.as_str())).collect();
    serde_json::to_string(&sorted).ok()
}

/// Calls `serde_json::from_str` to read a map from strings to strings (a
/// later duplicate key replaces an earlier one) and keeps its entries. The
/// contract claims that the result is the one named by `json_object_map`.
#[verifier::external_body]
pub(crate) fn decode_text_map(text: &str) -> (res: Option<TextMap<String>>)
    ensures
        match res {
            Some(t) => json_object_map(text@) == Some(text_values(t@)),
            None => json_object_map(text@) is None,
        },
{
    match serde_json::from_str::<BTreeMap<String, String>>(text) {
        Ok(map) => Some(TextMap { entries: map.into_iter().collect() }),
        Err(_) => None,
    }
}

} // verus!
