//! The error classes that the library reports.

use vstd::prelude::*;

verus! {

/// Error classes of the authentication service. Each becomes one HTTP
/// status at the boundary; no detail crosses it.
#[derive(Debug, Clone, Copy, PartialEq, Eq, Structural)]
pub enum AppError {
    /// Malformed input.
    Validation,
    /// The e-mail address is already registered.
    Conflict,
    /// Bad credentials, or a missing, invalid, expired or wrong-kind token.
    Unauthorized,
    /// A valid token whose role is not enough.
    Forbidden,
    /// No such account.
    NotFound,
    /// Hashing, signing or identifier failure.
    Internal,
    /// Missing configuration.
    Config,
}

} // verus!
