//! Fresh opaque token strings, built on the `uuid` crate.

use vstd::prelude::*;

verus! {

/// Relies on `Uuid::new_v4` and its `Display` form: a random version-4 UUID
/// rendered as the 36-character hyphenated text. Nothing more is promised:
/// the value is random, and two calls may or may not collide.
#[verifier::external_body]
pub fn fresh_token_string() -> (r: String)
    ensures
        r@.len() == 36,
{
    uuid::Uuid::new_v4().to_string()
}

} // verus!
