//! A mail watcher's core: the fetch engine that observes each new message
//! once across restarts, and the filter pipeline that turns the answers of
//! external scripts into mailbox commands.
pub mod action;
pub mod checkpoint;
pub mod config;
pub mod decimal;
pub mod email;
pub mod fetch;
pub mod mime;
pub mod pipeline;
pub mod text;
