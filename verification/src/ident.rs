//! Fresh identifier generation for connections and notes.

use vstd::prelude::*;

verus! {

/// Relies on `uuid::Uuid::new_v4` and its display form: a freshly generated
/// random identifier. Its value is random, so nothing is promised of it.
#[verifier::external_body]
pub(crate) fn fresh_uuid() -> (r: String) {
    uuid::Uuid::new_v4().to_string()
}

} // verus!
