//! Fresh identifiers, drawn through `uuid`.

use vstd::prelude::*;

verus! {

/// A random version 4 UUID in its hyphenated form: `uuid::Uuid::new_v4()`
/// followed by `to_string()`. Each call gives another text, so the contract
/// promises nothing of it.
#[verifier::external_body]
pub(crate) fn fresh_id() -> String {
    uuid::Uuid::new_v4().to_string()
}

} // verus!
