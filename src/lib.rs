//! Account roles, signed session tokens and the session issuer of a
//! video catalogue back end.

mod clock;
pub mod text;
pub mod role;
pub mod format;
pub mod claims;
pub mod token;
pub mod password;
pub mod store;
pub mod errors;
pub mod session;
pub mod access;
pub mod users;
pub mod dto;
pub mod controllers;
pub mod logging;
