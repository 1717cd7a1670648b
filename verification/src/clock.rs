//! The one place where the current time is read.

use vstd::prelude::*;

verus! {

/// Relies on `chrono::Utc::now` and `chrono::DateTime::to_rfc3339`: reads the
/// system clock and renders it as RFC 3339 text. The result depends on the
/// clock, so nothing is promised of it; every caller must cope with an
/// arbitrary string.
#[verifier::external_body]
pub(crate) fn now_rfc3339() -> String {
    chrono::Utc::now().to_rfc3339()
}

} // verus!
