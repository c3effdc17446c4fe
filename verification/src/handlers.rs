//! Reactions to changes of the table.
pub mod message_insert_event;
