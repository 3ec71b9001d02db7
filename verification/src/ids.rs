//! Fresh random identifiers.

use vstd::prelude::*;

verus! {

/// A fresh random UUID.
///
/// Trusted: calls `uuid::Uuid::new_v4` and renders it hyphenated, which the
/// crate documents as 36 characters; nothing else is stated of the random value.
/// The crate panics only when the system's randomness source fails.
#[verifier::external_body]
pub(crate) fn fresh_uuid() -> (r: String)
    ensures
        r@.len() == 36,
{
    uuid::Uuid::new_v4().to_string()
}

/// A fresh random UUID as 32 hex digits without hyphens.
///
/// Trusted: calls `uuid::Uuid::new_v4` and renders it with `simple()`, which
/// the crate documents as 32 characters; nothing else is stated of the random
/// value. The crate panics only when the system's randomness source fails.
#[verifier::external_body]
pub(crate) fn fresh_simple_uuid() -> (r: String)
    ensures
        r@.len() == 32,
{
    uuid::Uuid::new_v4().simple().to_string()
}

} // verus!
