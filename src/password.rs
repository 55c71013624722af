//! One-way password digests.

use vstd::prelude::*;

verus! {

/// Whether `password` matches the bcrypt `digest`, under the cost and salt
/// that the digest records; a text that is no bcrypt digest matches nothing.
pub uninterp spec fn password_matches(password: Seq<char>, digest: Seq<char>) -> bool;

/// Relies on `bcrypt::verify`; a digest that it cannot read counts as no
/// match, so a wrong password and a corrupt digest look alike.
#[verifier::external_body]
pub(crate) fn verify_password(password: &str, digest: &str) -> (r: bool)
    ensures
        r == password_matches(password@, digest@),
{
    bcrypt::verify(password, digest).unwrap_or(false)
}

/// Relies on `bcrypt::hash`, which draws a fresh random salt: a digest it
/// returns matches the same password. `None` when hashing fails (a cost
/// outside 4 to 31, no randomness).
#[verifier::external_body]
pub(crate) fn hash_password(password: &str, cost: u32) -> (r: Option<String>)
    ensures
        r matches Some(d) ==> password_matches(password@, d@),
{
    bcrypt::hash(password, cost).ok()
}

} // verus!
