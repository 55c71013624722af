//! The current time and fresh identifiers, both from outside the library.

use vstd::prelude::*;

verus! {

/// Relies on `chrono::Utc::now`: the current time in whole seconds since
/// the epoch.
#[verifier::external_body]
pub(crate) fn now_seconds() -> i64 {
    chrono::Utc::now().timestamp()
}

/// Relies on `uuid::Uuid::new_v4`: a fresh random identifier, hyphenated.
#[verifier::external_body]
pub(crate) fn fresh_id() -> String {
    uuid::Uuid::new_v4().to_string()
}

} // verus!
