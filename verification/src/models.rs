//! The data model: principals, payloads, stored items and their attributes.
pub mod chat;
pub mod common;
pub mod user;
