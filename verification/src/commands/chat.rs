//! The `chat` command: it hands an instruction to a language model.

use crate::commands::{describes, fill, Command};
use vstd::prelude::*;
use vstd::string::*;

verus! {

/// The answer where no instruction was given as a text.
pub const INVALID: &'static str = "Invalid instruction";

/// Describes the `chat` command: a chat command that takes the instruction
/// as a required text. The command is handed back for more to be said of it.
pub fn register(command: &mut Command) -> (same: &mut Command)
    ensures
        *final(command) == *final(same),
        describes(
            *old(command),
            *same,
            "chat"@,
            "Chat with LLM"@,
            "instruction"@,
            "Instruction for LLM"@,
        ),
{
    fill(command, "chat", "Chat with LLM", "instruction", "Instruction for LLM");
    command
}

/// The answer where the chat failed for the reason written as `reason`.
pub fn failure(reason: &str) -> (text: String)
    ensures
        text@ == "Failed to chat: "@ + reason@,
{
    "Failed to chat: ".to_owned().concat(reason)
}

} // verus!
