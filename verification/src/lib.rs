//! Message routing and chat-list maintenance for a direct-message service.
//!
//! The crate holds the decisions of the service as functions on plain
//! values: which keys an item is stored under, which requests are accepted,
//! what is stored and pushed for a message, and how the per-user chat
//! entries follow from a stored message. Callers perform the network and
//! storage effects and hand the outcomes back.
//!
//! `store::Table` says what the operations of the store do, on items held
//! in memory; the registry and the endpoints are stated against it.
pub mod authorizer;
pub mod endpoints;
pub mod errors;
pub mod handlers;
pub mod keys;
pub mod models;
pub mod registry;
pub mod router;
pub mod store;
pub mod stream;
pub mod text;
pub mod utils;
