//! Fresh identifiers for new rows, delegated to the uuid crate.

use vstd::prelude::*;

verus! {

/// Relies on `uuid::Uuid::new_v4` and its `Display` form: a random
/// version-4 UUID rendered in the hyphenated format, which is always
/// 36 characters. The value is random; nothing else is promised, and
/// no two calls may be assumed equal or distinct.
#[verifier::external_body]
pub fn generate_id() -> (r: String)
    ensures
        r@.len() == 36,
{
    uuid::Uuid::new_v4().to_string()
}

} // verus!
