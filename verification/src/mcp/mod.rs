//! What the protocol server relies on: access tokens, their validation, and
//! the content of its clipboard tools.

pub mod auth;
pub mod server;
