//! Reading keys out of JSON documents through `serde_json`.
use vstd::prelude::*;

use crate::text::string_views;

verus! {

/// The keys of the object found under `section` at the top of the JSON
/// document `text`, in the order `serde_json` keeps them; `None` when `text`
/// is not JSON or `section` is absent or not an object.
pub uninterp spec fn json_section_keys(text: Seq<char>, section: Seq<char>) -> Option<Seq<Seq<char>>>;

/// Parses `text` with `serde_json::from_str` into a `serde_json::Value`, takes
/// `Value::get(section)`, `Value::as_object`, and the object's keys.
/// Trusted: the result is the one named by `json_section_keys` for the
/// same text and section; nothing more is stated of it.
#[verifier::external_body]
pub(crate) fn json_object_keys(text: &str, section: &str) -> (r: Option<Vec<String>>)
    ensures
        match r {
            Some(v) => json_section_keys(text@, section@) == Some(string_views(v@)),
            None => json_section_keys(text@, section@) is None,
        },
{
    let document: serde_json::Value = match serde_json::from_str(text) {
        Ok(value) => value,
        Err(_) => return None,
    };
    let object = document.get(section)?.as_object()?;
    Some(object.keys().cloned().collect())
}

} // verus!
