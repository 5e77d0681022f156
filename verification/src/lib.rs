//! A small function-as-a-service system: clients upload a function's sources,
//! the server builds them into a binary with a generated driver, registers the
//! binary under a fresh identifier, and runs it on request.

pub mod client;
pub mod effect;
pub mod json;
pub mod manage;
pub mod request;
pub mod runtime;
pub mod server;
pub mod templates;
pub mod text;
