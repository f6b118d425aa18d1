//! The cache file's format: a JSON object from addon names to page URLs,
//! read and written by serde_json.

use std::collections::HashMap;
use vstd::prelude::*;
use crate::addon_map::pairs_map;

verus! {

/// serde_json's error type, carried through unchanged.
#[verifier::external_type_specification]
#[verifier::external_body]
pub struct ExJsonError(serde_json::Error);

/// What serde_json reads from `text` as a map from strings to strings:
/// `None` where it refuses the text (not JSON, or not an object whose values
/// are all strings).
pub uninterp spec fn json_string_map(text: Seq<char>) -> Option<Map<Seq<char>, Seq<char>>>;

/// Reads `text` with `serde_json::from_str` as a `HashMap<String, String>`
/// and hands its entries out as pairs, in the map's own order.
/// Claimed: it succeeds exactly where `json_string_map` is `Some`, and the
/// pairs stand for that map. The order of the pairs is left unsaid: it is the
/// order in which the `HashMap` is walked.
#[verifier::external_body]
pub(crate) fn decode_string_map(text: &str) -> (r: Result<Vec<(String, String)>, serde_json::Error>)
    ensures
        r is Ok <==> json_string_map(text@) is Some,
        r matches Ok(pairs) ==> json_string_map(text@) == Some(pairs_map(pairs@)),
{
    match serde_json::from_str::<HashMap<String, String>>(text) {
        Ok(map) => Ok(map.into_iter().collect()),
        Err(e) => Err(e),
    }
}

/// Writes the pairs, as a `HashMap<String, String>`, with
/// `serde_json::to_string_pretty`.
/// Claimed: it succeeds (serde_json fails only on a `Serialize` impl that
/// fails or on map keys that are not strings, and neither occurs here), and
/// `serde_json::from_str` reads the text back as the same map. Which text
/// comes out is left unsaid: it follows the order in which the `HashMap` is
/// walked.
#[verifier::external_body]
pub(crate) fn encode_string_map(pairs: &Vec<(String, String)>) -> (r: Result<String, serde_json::Error>)
    ensures
        r is Ok,
        r matches Ok(text) ==> json_string_map(text@) == Some(pairs_map(pairs@)),
{
    let map: HashMap<String, String> = pairs.iter().cloned().collect();
    serde_json::to_string_pretty(&map)
}

} // verus!
