//! Fresh identifiers for checkpoints.

use vstd::prelude::*;

verus! {

/// Relies on uuid::Uuid::new_v4 and its hyphenated text form: a freshly
/// drawn random identifier, 36 characters long. Nothing is promised about
/// which identifier comes back; callers must check freshness themselves.
#[verifier::external_body]
pub fn new_id_string() -> (r: String)
    ensures
        r@.len() == 36,
{
    uuid::Uuid::new_v4().to_string()
}

} // verus!
