//! The source-link document embedded into a debug-information file.

use vstd::prelude::*;
use vstd::string::*;
use crate::remote::{entries_view, SourceMapping};

verus! {

/// The compact JSON text of an object with the one field `field`, whose
/// value is the object of `entries`, or nothing where serialization fails.
pub uninterp spec fn json_text(field: Seq<char>, entries: Seq<(Seq<char>, Seq<char>)>) -> Option<
    Seq<char>,
>;

/// Relies on serde_json::to_string over a serde_json::Value that holds
/// `{ field: { key: url, ... } }`: the text depends on the values alone.
#[verifier::external_body]
fn to_json(field: &str, entries: &Vec<SourceMapping>) -> (r: Option<String>)
    ensures
        match r {
            Some(s) => json_text(field@, entries_view(entries@)) == Some(s@),
            None => json_text(field@, entries_view(entries@)) is None,
        },
{
    let docs: serde_json::Map<String, serde_json::Value> = entries
        .iter()
        .map(|e| (e.key.clone(), serde_json::Value::String(e.url.clone())))
        .collect();
    let mut root = serde_json::Map::new();
    root.insert(field.to_string(), serde_json::Value::Object(docs));
    serde_json::to_string(&serde_json::Value::Object(root)).ok()
}

/// The source-link document of a mapping: an object whose one field
/// `documents` holds the mapping. An empty mapping gives no document.
pub fn source_link_document(entries: &Vec<SourceMapping>) -> (r: Option<String>)
    ensures
        entries@.len() == 0 ==> r is None,
        entries@.len() > 0 ==> match r {
            Some(s) => json_text("documents"@, entries_view(entries@)) == Some(s@),
            None => json_text("documents"@, entries_view(entries@)) is None,
        },
{
    if entries.len() == 0 {
        return None;
    }
    to_json("documents", entries)
}

} // verus!
