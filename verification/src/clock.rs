//! The wall clock. Reading it is inherently outside the verified core:
//! nothing is assumed of the value it returns, and every function that uses
//! it states what holds of any reading.

use vstd::prelude::*;

verus! {

/// Relies on `chrono::Utc::now` and `chrono::DateTime::timestamp` for the
/// current time as whole seconds since the Unix epoch. The reading is
/// time-dependent, so no ensures clause constrains it: callers pass it on to
/// functions whose contracts hold for every value.
#[verifier::external_body]
pub fn now_seconds() -> i64 {
    chrono::Utc::now().timestamp()
}

} // verus!
