use calcbot::api::bard::{self, BardError, BardErrorKind};
use calcbot::api::bearer;
use calcbot::api::cohere::{self, CohereError, CohereErrorKind};
use calcbot::commands::{
    chat, fill, route, Command, CommandKind, CommandOption, OptionKind, Route, UNKNOWN,
};

#[test]
fn bearer_puts_the_word_before_the_token() {
    assert_eq!(bearer("abc123"), "Bearer abc123");
    assert_eq!(bearer(""), "Bearer ");
}

#[test]
fn bard_gives_the_output_of_a_good_answer() {
    let exchange = bard::Exchange::Answered { status: 200, output: Some("hello".to_string()) };
    assert_eq!(bard::conclude(exchange), Ok("hello".to_string()));
}

#[test]
fn bard_names_what_went_wrong() {
    assert_eq!(
        bard::conclude(bard::Exchange::NotSerialized),
        Err(BardError::new(BardErrorKind::FailedToSerializeBody))
    );
    assert_eq!(
        bard::conclude(bard::Exchange::NotSent),
        Err(BardError::new(BardErrorKind::FailedToRequest))
    );
    assert_eq!(
        bard::conclude(bard::Exchange::Answered { status: 500, output: None }),
        Err(BardError::new(BardErrorKind::Non200Response))
    );
    assert_eq!(
        bard::conclude(bard::Exchange::Answered { status: 201, output: Some("x".to_string()) }),
        Err(BardError::new(BardErrorKind::Non200Response))
    );
    assert_eq!(
        bard::conclude(bard::Exchange::Answered { status: 200, output: None }),
        Err(BardError::new(BardErrorKind::MalformedResponse))
    );
}

#[test]
fn bard_error_keeps_its_kind() {
    assert_eq!(
        BardError::new(BardErrorKind::MalformedResponse).kind(),
        BardErrorKind::MalformedResponse
    );
    assert_eq!(bard::OK, 200);
}

#[test]
fn cohere_gives_the_first_generation_of_a_good_answer() {
    let exchange = cohere::Exchange::Answered {
        status: 200,
        generations: Some(vec!["first".to_string(), "second".to_string()]),
    };
    assert_eq!(cohere::conclude(exchange), Ok("first".to_string()));
}

#[test]
fn cohere_names_what_went_wrong() {
    assert_eq!(
        cohere::conclude(cohere::Exchange::NotSent),
        Err(CohereError::new(CohereErrorKind::FailedToRequest))
    );
    assert_eq!(
        cohere::conclude(cohere::Exchange::Answered { status: 404, generations: None }),
        Err(CohereError::new(CohereErrorKind::Non200Response))
    );
    assert_eq!(
        cohere::conclude(cohere::Exchange::Answered { status: 429, generations: Some(vec![]) }),
        Err(CohereError::new(CohereErrorKind::Non200Response))
    );
    assert_eq!(
        cohere::conclude(cohere::Exchange::Answered { status: 200, generations: None }),
        Err(CohereError::new(CohereErrorKind::MalformedResponse))
    );
}

#[test]
fn cohere_error_keeps_its_kind() {
    assert_eq!(
        CohereError::new(CohereErrorKind::Non200Response).kind(),
        CohereErrorKind::Non200Response
    );
    assert_eq!(cohere::OK, 200);
    assert_eq!(cohere::MODEL, "command-nightly");
    assert_eq!(cohere::MAX_TOKENS, 300);
}

#[test]
fn cohere_prompt_wraps_the_instruction() {
    let expected = "
Transcript of single conversation between. USER and SIA.
SIA stands for Super Intelligent Assistant.
SIA answers using markdown format.
SIA is detailed, polite, helpful, honest.
SIA is an expert on everything.
SIA thinks everything step-by-step.
SIA answers with example if possible.
SIA answers to USER in single paragraph.

User: What is Rust?
SIA:";
    assert_eq!(cohere::prompt("What is Rust?"), expected);
}

fn text_option(name: &str, description: &str) -> CommandOption {
    CommandOption {
        name: name.to_string(),
        description: description.to_string(),
        kind: OptionKind::String,
        required: true,
    }
}

#[test]
fn calc_is_registered_with_its_expression() {
    let mut command = Command::new();
    calcbot::commands::calc::register(&mut command);
    let expected = Command {
        name: Some("calc".to_string()),
        description: Some("Perform calculations".to_string()),
        kind: Some(CommandKind::ChatInput),
        options: vec![text_option("expression", "Mathematical expression to calculate")],
    };
    assert_eq!(command, expected);
}

#[test]
fn chat_is_registered_with_its_instruction() {
    let mut command = Command::new();
    chat::register(&mut command);
    let expected = Command {
        name: Some("chat".to_string()),
        description: Some("Chat with LLM".to_string()),
        kind: Some(CommandKind::ChatInput),
        options: vec![text_option("instruction", "Instruction for LLM")],
    };
    assert_eq!(command, expected);
}

#[test]
fn register_hands_the_command_back() {
    let mut command = Command::new();
    calcbot::commands::calc::register(&mut command).kind = Some(CommandKind::Message);
    assert_eq!(command.kind, Some(CommandKind::Message));
    assert_eq!(command.name, Some("calc".to_string()));
}

#[test]
fn register_keeps_earlier_options_and_replaces_the_rest() {
    let mut command = Command::new();
    chat::register(&mut command);
    calcbot::commands::calc::register(&mut command);
    assert_eq!(command.name, Some("calc".to_string()));
    assert_eq!(command.description, Some("Perform calculations".to_string()));
    assert_eq!(
        command.options,
        vec![
            text_option("instruction", "Instruction for LLM"),
            text_option("expression", "Mathematical expression to calculate"),
        ]
    );
}

#[test]
fn fill_describes_a_chat_command() {
    let mut command = Command::new();
    assert_eq!(command, Command { name: None, description: None, kind: None, options: vec![] });
    fill(&mut command, "a", "b", "c", "d");
    assert_eq!(
        command,
        Command {
            name: Some("a".to_string()),
            description: Some("b".to_string()),
            kind: Some(CommandKind::ChatInput),
            options: vec![text_option("c", "d")],
        }
    );
}

#[test]
fn only_chat_is_handed_on() {
    assert_eq!(route("chat"), Route::Chat);
    assert_eq!(route("calc"), Route::Unknown);
    assert_eq!(route("Chat"), Route::Unknown);
    assert_eq!(route(""), Route::Unknown);
    assert_eq!(UNKNOWN, "Unknown Command");
}

#[test]
fn calc_answers_with_expression_and_value() {
    assert_eq!(calcbot::commands::calc::answer("2+3*4", "14"), "2+3*4 = 14");
    assert_eq!(calcbot::commands::calc::answer("", ""), " = ");
    assert_eq!(calcbot::commands::calc::INVALID, "Invalid expression");
}

#[test]
fn chat_says_why_it_failed() {
    assert_eq!(chat::failure("kind: Non200Response"), "Failed to chat: kind: Non200Response");
    assert_eq!(chat::INVALID, "Invalid instruction");
}
