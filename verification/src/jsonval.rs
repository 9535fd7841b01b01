//! Declarations for serde_json's JSON tree.
//!
//! Cached response payloads flow through the library as opaque
//! `serde_json::Value`s; the one trusted reader of their contents lives
//! beside the symbol-resolution logic.

use vstd::prelude::*;

verus! {

/// serde_json's JSON document type, declared so that cached payloads can be
/// stored and returned by verified code.
#[verifier::external_type_specification]
#[verifier::external_body]
pub struct ExValue(serde_json::Value);

/// Relies on `serde_json::Value`'s derived `Clone`: a deep copy equal to the
/// original tree.
pub assume_specification[ <serde_json::Value as Clone>::clone ](
    v: &serde_json::Value,
) -> (r: serde_json::Value)
    ensures
        r == *v,
;

} // verus!
