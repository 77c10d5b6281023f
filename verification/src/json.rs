//! Opaque JSON metadata.
//!
//! Presence metadata is an arbitrary JSON value that the broker stores and
//! hands back without looking inside. The value type comes from `serde_json`;
//! this module tells Verus that the type exists and that copying a value
//! yields an equal value.

use vstd::prelude::*;

verus! {

/// `serde_json::Value`, carried through the broker as an opaque value.
#[verifier::external_type_specification]
#[verifier::external_body]
pub struct ExJsonValue(serde_json::Value);

/// `<serde_json::Value as Clone>::clone`: the derived clone rebuilds the same
/// JSON document, so the copy equals the value it was made from.
pub assume_specification[ <serde_json::Value as Clone>::clone ](value: &serde_json::Value) -> (copy:
    serde_json::Value)
    ensures
        copy == *value,
;

} // verus!
