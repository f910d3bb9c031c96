//! JSON payloads carried by events and messages.
use vstd::prelude::*;

verus! {

/// `serde_json::Value`, carried through the library as an opaque payload.
#[verifier::external_type_specification]
#[verifier::external_body]
pub struct ExJsonValue(serde_json::Value);

/// `Clone` of `serde_json::Value`, which `derive(Clone)` writes: a deep copy,
/// so the clone is the same JSON value.
pub assume_specification[ <serde_json::Value as Clone>::clone ](v: &serde_json::Value) -> (r: serde_json::Value)
    ensures
        r == *v,
;

} // verus!
