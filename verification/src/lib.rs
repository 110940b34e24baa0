//! Secure, idempotent publishing of static sites: the login handshake with
//! the hosting provider and the incremental deployment engine.

pub mod auth;
pub mod callback;
pub mod commands;
pub mod crypto;
pub mod deploy;
pub mod driftwood;
pub mod manifest;
pub mod netlify;
pub mod render;
pub mod response;
pub mod text;
pub mod users;
