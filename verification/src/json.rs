//! JSON objects of strings.
use crate::kafka;
use crate::text_map;
use std::collections::HashMap;
use vstd::prelude::*;

verus! {

/// What `serde_json` makes of a text that should be a JSON object of strings: the object, or the
/// message of the error.
pub uninterp spec fn json_string_object(text: Seq<char>) -> Result<kafka::TextMap, Seq<char>>;

/// Calls `serde_json::from_str` for a map from strings to strings. The call depends on the text
/// alone; the entries of the map come in no particular order, each key once.
#[verifier::external_body]
pub(crate) fn parse_string_object(text: &str) -> (r: Result<Vec<(String, String)>, String>)
    ensures
        match r {
            Ok(entries) => json_string_object(text@) == Ok::<kafka::TextMap, Seq<char>>(
                text_map::map_of(text_map::entries_view(entries@)),
            ),
            Err(message) => json_string_object(text@) == Err::<kafka::TextMap, Seq<char>>(message@),
        },
{
    match serde_json::from_str::<HashMap<String, String>>(text) {
        Ok(object) => Ok(object.into_iter().collect()),
        Err(error) => Err(error.to_string()),
    }
}

} // verus!
