//! Fresh random identifiers for temporary file names and session tokens.

use vstd::prelude::*;

verus! {

/// Relies on `uuid::Uuid::new_v4` and its `Display` form: a fresh random
/// identifier rendered hyphenated as 36 characters, lowercase hex digits
/// and hyphens, so it holds neither a path separator nor a dot. The value
/// itself is random; nothing more is assumed of it.
#[verifier::external_body]
pub fn random_name() -> (r: String)
    ensures
        r@.len() == 36,
        forall|i: int| 0 <= i < r@.len() ==> #[trigger] r@[i] != '/' && r@[i] != '.',
{
    uuid::Uuid::new_v4().to_string()
}

} // verus!
