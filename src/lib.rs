//! A streaming multi-provider chat engine: the conversation, its busy gate,
//! the attachment policy, the client cache and the error sanitiser, each
//! stated and proved as a state machine over plain values.
pub mod attachments;
pub mod cache;
pub mod catalog;
pub mod diagnostics;
pub mod errors;
pub mod flow;
pub mod ical;
pub mod laws;
pub mod session;
pub mod system;
pub mod text;
pub mod uri;
