//! The UCI protocol layer: command values, the command parser, response lines
//! and the per-command decisions of the conversation.

pub mod command;
pub mod driver;
pub mod parser;
pub mod response;
