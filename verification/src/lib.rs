//! A calculator for a chat bot: arithmetic expressions are split into tokens
//! and parsed into expression trees, and the bot's commands and the replies
//! of the chat services it talks to are described in plain values.

pub mod api;
pub mod commands;
