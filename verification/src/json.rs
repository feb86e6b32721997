//! Trusted boundary to serde_json: parsing manifest text into a JSON
//! tree and taking that tree apart.  Each outcome is named by an
//! uninterpreted function of the input alone, so the verified manifest
//! code can state exactly when parsing succeeds and what it yields;
//! the verified code owns every rule about what a manifest entry
//! means.

use vstd::prelude::*;

verus! {

#[verifier::external_type_specification]
#[verifier::external_body]
pub struct ExJsonValue(serde_json::Value);

/// The JSON tree a text parses to, a function of the text alone;
/// `None` for malformed text.
pub uninterp spec fn json_doc_of(s: Seq<char>) -> Option<serde_json::Value>;

/// The characters of a JSON value when it is a string, else `None`.
pub uninterp spec fn json_str_of(v: serde_json::Value) -> Option<Seq<char>>;

/// The members of a JSON value when it is an object, in order, else
/// `None`.
pub uninterp spec fn json_members_of(v: serde_json::Value) -> Option<
    Seq<(Seq<char>, serde_json::Value)>,
>;

/// Relies on serde_json::from_str: `Some` exactly when the text is
/// well-formed JSON, in which case the value is its tree, a function
/// of the text alone.
#[verifier::external_body]
pub(crate) fn json_parse(s: &str) -> (r: Option<serde_json::Value>)
    ensures
        match r {
            Some(v) => json_doc_of(s@) == Some(v),
            None => json_doc_of(s@) is None,
        },
{
    serde_json::from_str(s).ok()
}

/// Relies on serde_json::Value::as_str: `Some` exactly when the value
/// is a JSON string, carrying that string's characters.
#[verifier::external_body]
pub(crate) fn json_as_string(v: &serde_json::Value) -> (r: Option<String>)
    ensures
        match r {
            Some(s) => json_str_of(*v) == Some(s@),
            None => json_str_of(*v) is None,
        },
{
    v.as_str().map(|s| s.to_string())
}

/// Relies on serde_json::Value::as_object and serde_json::Map::iter:
/// `Some` exactly when the value is a JSON object, carrying its
/// members in the map's order.  A serde_json::Map holds each key
/// once, so the returned keys are pairwise distinct.
#[verifier::external_body]
pub(crate) fn json_object_entries(v: &serde_json::Value) -> (r: Option<
    Vec<(String, serde_json::Value)>,
>)
    ensures
        match r {
            Some(members) => json_members_of(*v) matches Some(ms) && ms.len() == members@.len()
                && (forall|i: int|
                0 <= i < ms.len() ==> #[trigger] ms[i] == (members@[i].0@, members@[i].1)) && (
            forall|i: int, j: int|
                0 <= i < j < members@.len() ==> members@[i].0@ != members@[j].0@),
            None => json_members_of(*v) is None,
        },
{
    v.as_object().map(|m| m.iter().map(|(k, x)| (k.clone(), x.clone())).collect())
}

} // verus!
