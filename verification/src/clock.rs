//! The wall clock, read through `chrono`.

use vstd::prelude::*;

verus! {

/// The present moment as an RFC 3339 text in UTC: `chrono::Utc::now()`
/// followed by `to_rfc3339()`. The text differs from call to call, so the
/// contract promises nothing of it. `chrono` fails only where the system
/// clock stands before 1970.
#[verifier::external_body]
pub(crate) fn now_rfc3339() -> String {
    chrono::Utc::now().to_rfc3339()
}

} // verus!
