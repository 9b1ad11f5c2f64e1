//! The commands of the bot, described in plain values.

pub mod calc;
pub mod chat;

use vstd::prelude::*;

verus! {

/// How a command is invoked.
#[derive(Debug, Clone, Copy, PartialEq, Eq, Structural)]
pub enum CommandKind {
    /// Typed into the chat after a slash.
    ChatInput,
    /// Chosen from the menu of a user.
    User,
    /// Chosen from the menu of a message.
    Message,
}

/// What an option of a command holds.
#[derive(Debug, Clone, Copy, PartialEq, Eq, Structural)]
pub enum OptionKind {
    /// A text.
    String,
    /// A whole number.
    Integer,
    /// A truth value.
    Boolean,
}

/// An option of a command.
#[derive(Debug, PartialEq, Eq)]
pub struct CommandOption {
    pub name: String,
    pub description: String,
    pub kind: OptionKind,
    pub required: bool,
}

/// The description of a command, as far as it has been filled in.
#[derive(Debug, PartialEq, Eq)]
pub struct Command {
    pub name: Option<String>,
    pub description: Option<String>,
    pub kind: Option<CommandKind>,
    pub options: Vec<CommandOption>,
}

/// Whether `option` is a required text option with the given name and
/// description.
pub open spec fn is_required_text(
    option: CommandOption,
    name: Seq<char>,
    description: Seq<char>,
) -> bool {
    &&& option.name@ == name
    &&& option.description@ == description
    &&& option.kind == OptionKind::String
    &&& option.required
}

/// Whether `after` is `before` turned into a chat command with the given
/// name and description, with one required text option added behind the
/// options that `before` had.
pub open spec fn describes(
    before: Command,
    after: Command,
    name: Seq<char>,
    description: Seq<char>,
    option_name: Seq<char>,
    option_description: Seq<char>,
) -> bool {
    &&& after.name matches Some(text) && text@ == name
    &&& after.description matches Some(text) && text@ == description
    &&& after.kind == Some(CommandKind::ChatInput)
    &&& after.options@.len() == before.options@.len() + 1
    &&& forall|i: int|
        0 <= i < before.options@.len() ==> #[trigger] after.options@[i] == before.options@[i]
    &&& is_required_text(after.options@[after.options@.len() - 1], option_name, option_description)
}

impl Command {
    /// A command of which nothing is said yet.
    pub fn new() -> (command: Command)
        ensures
            command.name is None,
            command.description is None,
            command.kind is None,
            command.options@.len() == 0,
    {
        Command { name: None, description: None, kind: None, options: Vec::new() }
    }
}

/// Turns `command` into a chat command with one required text option.
pub fn fill(
    command: &mut Command,
    name: &str,
    description: &str,
    option_name: &str,
    option_description: &str,
)
    ensures
        describes(
            *old(command),
            *final(command),
            name@,
            description@,
            option_name@,
            option_description@,
        ),
{
    command.name = Some(name.to_owned());
    command.description = Some(description.to_owned());
    command.kind = Some(CommandKind::ChatInput);
    command.options.push(
        CommandOption {
            name: option_name.to_owned(),
            description: option_description.to_owned(),
            kind: OptionKind::String,
            required: true,
        },
    );
}

/// What is done with a command that came in.
#[derive(Debug, Clone, Copy, PartialEq, Eq, Structural)]
pub enum Route {
    /// It is handed to the chat.
    Chat,
    /// It is answered with [`UNKNOWN`].
    Unknown,
}

/// The answer to a command that the bot does not know.
pub const UNKNOWN: &'static str = "Unknown Command";

/// Where a command goes by its name: only `chat` is handed on.
pub fn route(name: &str) -> (route: Route)
    ensures
        route == (if name@ == "chat"@ {
            Route::Chat
        } else {
            Route::Unknown
        }),
{
    let known = "chat".to_owned();
    if name.to_owned() == known {
        Route::Chat
    } else {
        Route::Unknown
    }
}

} // verus!
