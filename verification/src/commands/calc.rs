//! The `calc` command: it evaluates an expression.

use crate::commands::{describes, fill, Command};
use vstd::prelude::*;
use vstd::string::*;

verus! {

/// The answer where no expression was given as a text.
pub const INVALID: &'static str = "Invalid expression";

/// Describes the `calc` command: a chat command that takes the expression
/// as a required text. The command is handed back for more to be said of it.
pub fn register(command: &mut Command) -> (same: &mut Command)
    ensures
        *final(command) == *final(same),
        describes(
            *old(command),
            *same,
            "calc"@,
            "Perform calculations"@,
            "expression"@,
            "Mathematical expression to calculate"@,
        ),
{
    fill(
        command,
        "calc",
        "Perform calculations",
        "expression",
        "Mathematical expression to calculate",
    );
    command
}


/// The answer to an expression whose value is written as `value`: the
/// expression, ` = `, and the value.
pub fn answer(expression: &str, value: &str) -> (text: String)
    ensures
        text@ == expression@ + " = "@ + value@,
{
    expression.to_owned().concat(" = ").concat(value)
}

} // verus!
