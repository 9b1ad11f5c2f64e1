//! What a chat with the Bard service can come to.

use vstd::prelude::*;

verus! {

/// Why a chat failed.
#[derive(Debug, Clone, Copy, PartialEq, Eq, Structural)]
pub enum BardErrorKind {
    /// The service answered, but not with the expected body.
    MalformedResponse,
    /// The service answered with a status other than 200.
    Non200Response,
    /// The request could not be sent.
    FailedToRequest,
    /// The request could not be written down.
    FailedToSerializeBody,
}

/// A failed chat.
#[derive(Debug, Clone, Copy, PartialEq, Eq, Structural)]
pub struct BardError {
    kind: BardErrorKind,
}

impl BardError {
    /// Why the chat failed.
    pub closed spec fn spec_kind(&self) -> BardErrorKind {
        self.kind
    }

    /// An error of the given kind.
    pub fn new(kind: BardErrorKind) -> (error: BardError)
        ensures
            error.spec_kind() == kind,
    {
        BardError { kind }
    }

    /// Why the chat failed.
    #[verifier::when_used_as_spec(spec_kind)]
    pub fn kind(&self) -> (kind: BardErrorKind)
        ensures
            kind == self.spec_kind(),
    {
        self.kind
    }
}

/// How far an exchange with the service got.
pub enum Exchange {
    /// The request could not be written down.
    NotSerialized,
    /// The request could not be sent.
    NotSent,
    /// The service answered with `status`; `output` is what its body held,
    /// if the body could be read.
    Answered { status: u16, output: Option<String> },
}

/// The status of a successful answer.
pub const OK: u16 = 200;

/// The result of a chat, given how far the exchange got: the output of an
/// answer with status 200 and a readable body, and otherwise the error that
/// names the first thing that went wrong.
pub open spec fn outcome(exchange: Exchange) -> Result<Seq<char>, BardErrorKind> {
    match exchange {
        Exchange::NotSerialized => Err(BardErrorKind::FailedToSerializeBody),
        Exchange::NotSent => Err(BardErrorKind::FailedToRequest),
        Exchange::Answered { status, output } => {
            if status != OK {
                Err(BardErrorKind::Non200Response)
            } else {
                match output {
                    Some(text) => Ok(text@),
                    None => Err(BardErrorKind::MalformedResponse),
                }
            }
        },
    }
}

/// Concludes a chat from how far the exchange got.
pub fn conclude(exchange: Exchange) -> (result: Result<String, BardError>)
    ensures
        match result {
            Ok(text) => outcome(exchange) == Ok::<Seq<char>, BardErrorKind>(text@),
            Err(error) => outcome(exchange) == Err::<Seq<char>, BardErrorKind>(error.kind()),
        },
{
    match exchange {
        Exchange::NotSerialized => Err(BardError::new(BardErrorKind::FailedToSerializeBody)),
        Exchange::NotSent => Err(BardError::new(BardErrorKind::FailedToRequest)),
        Exchange::Answered { status, output } => {
            if status != OK {
                Err(BardError::new(BardErrorKind::Non200Response))
            } else {
                match output {
                    Some(text) => Ok(text),
                    None => Err(BardError::new(BardErrorKind::MalformedResponse)),
                }
            }
        },
    }
}

} // verus!
