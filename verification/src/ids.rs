//! Fresh identifiers for projects, environments and requests.
//!
//! Identifiers are plain strings. New ones come from a version-7 UUID, so
//! nothing can be promised about the value of a freshly drawn identifier;
//! functions that need a known identifier take it as an argument.

use vstd::prelude::*;

verus! {

/// Relies on `uuid::Uuid::now_v7` and `uuid::Uuid::to_string`: draws a fresh
/// time-ordered UUID and renders it in the canonical hyphenated form. The
/// result depends on the clock and on random state, so no two calls are
/// related by contract.
#[verifier::external_body]
pub(crate) fn new_id() -> String {
    uuid::Uuid::now_v7().to_string()
}

} // verus!
