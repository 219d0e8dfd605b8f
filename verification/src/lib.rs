//! Command protocol of a small remote-command tool: parsing of the lines a
//! client sends, the replies the server writes, the decisions of the server's
//! per-connection loop and those of the interactive client.

pub mod client;
pub mod command;
pub mod conversation;
pub mod laws;
pub mod meaning;
pub mod session;
pub mod text;
