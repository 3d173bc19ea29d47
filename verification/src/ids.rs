//! Fresh opaque identifiers for accounts and session tokens.

use vstd::prelude::*;

verus! {

/// Relies on uuid's `Uuid::new_v4` and its `Display` impl: the hyphenated
/// rendering of a fresh 128-bit random identifier is always 36 characters.
/// Nothing is promised about the value itself; two calls may in principle
/// return the same text.
#[verifier::external_body]
pub(crate) fn fresh_uuid() -> (id: String)
    ensures
        id@.len() == 36,
{
    uuid::Uuid::new_v4().to_string()
}

} // verus!
