//! What a chat with the Cohere service asks and can come to.

use vstd::prelude::*;
use vstd::string::*;

verus! {

/// Why a chat failed.
#[derive(Debug, Clone, Copy, PartialEq, Eq, Structural)]
pub enum CohereErrorKind {
    /// The request could not be sent.
    FailedToRequest,
    /// The service answered with a status other than 200.
    Non200Response,
    /// The service answered, but not with the expected body.
    MalformedResponse,
}

/// A failed chat.
#[derive(Debug, Clone, Copy, PartialEq, Eq, Structural)]
pub struct CohereError {
    kind: CohereErrorKind,
}

impl CohereError {
    /// Why the chat failed.
    pub closed spec fn spec_kind(&self) -> CohereErrorKind {
        self.kind
    }

    /// An error of the given kind.
    pub fn new(kind: CohereErrorKind) -> (error: CohereError)
        ensures
            error.spec_kind() == kind,
    {
        CohereError { kind }
    }

    /// Why the chat failed.
    #[verifier::when_used_as_spec(spec_kind)]
    pub fn kind(&self) -> (kind: CohereErrorKind)
        ensures
            kind == self.spec_kind(),
    {
        self.kind
    }
}

/// The model that is asked.
pub const MODEL: &'static str = "command-nightly";

/// The most tokens that an answer may have.
pub const MAX_TOKENS: u32 = 300;

/// What stands before the instruction in a prompt.
pub const PREAMBLE: &'static str =
    "\nTranscript of single conversation between. USER and SIA.\nSIA stands for Super Intelligent Assistant.\nSIA answers using markdown format.\nSIA is detailed, polite, helpful, honest.\nSIA is an expert on everything.\nSIA thinks everything step-by-step.\nSIA answers with example if possible.\nSIA answers to USER in single paragraph.\n\nUser: ";

/// What stands after the instruction in a prompt.
pub const CUE: &'static str = "\nSIA:";

/// The prompt that carries `instruction` to the model.
pub fn prompt(instruction: &str) -> (text: String)
    ensures
        text@ == PREAMBLE@ + instruction@ + CUE@,
{
    PREAMBLE.to_owned().concat(instruction).concat(CUE)
}

/// How far an exchange with the service got.
pub enum Exchange {
    /// The request could not be sent.
    NotSent,
    /// The service answered with `status`; `generations` are the texts that
    /// its body held, if the body could be read.
    Answered { status: u16, generations: Option<Vec<String>> },
}

/// The status of a successful answer.
pub const OK: u16 = 200;

/// Whether an exchange can be concluded: a readable answer with status 200
/// holds at least one generation.
pub open spec fn conclusive(exchange: Exchange) -> bool {
    exchange matches Exchange::Answered { status, generations: Some(texts) } ==> status != OK
        || texts@.len() > 0
}

/// The result of a chat, given how far the exchange got: the first
/// generation of an answer with status 200 and a readable body, and
/// otherwise the error that names the first thing that went wrong.
pub open spec fn outcome(exchange: Exchange) -> Result<Seq<char>, CohereErrorKind> {
    match exchange {
        Exchange::NotSent => Err(CohereErrorKind::FailedToRequest),
        Exchange::Answered { status, generations } => {
            if status != OK {
                Err(CohereErrorKind::Non200Response)
            } else {
                match generations {
                    Some(texts) => Ok(texts@[0]@),
                    None => Err(CohereErrorKind::MalformedResponse),
                }
            }
        },
    }
}

/// Concludes a chat from how far the exchange got.
pub fn conclude(exchange: Exchange) -> (result: Result<String, CohereError>)
    requires
        conclusive(exchange),
    ensures
        match result {
            Ok(text) => outcome(exchange) == Ok::<Seq<char>, CohereErrorKind>(text@),
            Err(error) => outcome(exchange) == Err::<Seq<char>, CohereErrorKind>(error.kind()),
        },
{
    match exchange {
        Exchange::NotSent => Err(CohereError::new(CohereErrorKind::FailedToRequest)),
        Exchange::Answered { status, generations } => {
            if status != OK {
                Err(CohereError::new(CohereErrorKind::Non200Response))
            } else {
                match generations {
                    Some(texts) => Ok(texts[0].clone()),
                    None => Err(CohereError::new(CohereErrorKind::MalformedResponse)),
                }
            }
        },
    }
}

} // verus!
