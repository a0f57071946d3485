//! Declarations for the JSON value type that handlers, events and the cache
//! carry. The core never inspects such a value: it is stored, cloned and
//! handed back whole.

use vstd::prelude::*;

verus! {

#[verifier::external_type_specification]
#[verifier::external_body]
pub struct ExValue(serde_json::Value);

/// Relies on `serde_json::Value::clone` (a derived, field-for-field clone):
/// the copy equals the original value.
pub assume_specification[ <serde_json::Value as Clone>::clone ](
    v: &serde_json::Value,
) -> (r: serde_json::Value)
    ensures
        r == *v,
;

} // verus!
