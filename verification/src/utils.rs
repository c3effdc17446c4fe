//! Helpers around the service's collaborators: responses, tokens and the
//! user directory.
pub mod http;
pub mod jwt;
pub mod user;
