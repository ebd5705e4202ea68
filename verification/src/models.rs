//! Messages, conversations and summaries.

pub mod conversation;
pub mod message;
pub mod summary;
