//! The values that travel through one turn of a connection.

use vstd::prelude::*;

verus! {

/// A decoded request: the path that the client asked for. The codec makes
/// no request with an empty path.
#[derive(Debug)]
pub struct Request {
    pub uri: String,
}

/// What a handler answers: a body, which the codec frames and sends.
#[derive(Debug)]
pub struct Response {
    body: String,
}

impl View for Response {
    type V = Seq<char>;

    /// A response is its body.
    closed spec fn view(&self) -> Seq<char> {
        self.body@
    }
}

impl Response {
    /// A response with the given body. Any text is a body.
    pub fn with_body(body: String) -> (res: Response)
        ensures
            res@ == body@,
    {
        Response { body }
    }

    /// The body, as it was given.
    pub fn body(&self) -> (body: &str)
        ensures
            body@ == self@,
    {
        self.body.as_str()
    }
}

/// Why a line is no request.
pub enum Failure {
    /// The line does not begin with the verb, or nothing follows the verb.
    InvalidProtocol,
    /// The verb is there, but what follows it is not UTF-8.
    InvalidUtf8 { reason: Seq<char> },
}

impl Failure {
    /// The failure in words.
    pub open spec fn text(self) -> Seq<char> {
        match self {
            Failure::InvalidProtocol => "invalid protocol"@,
            Failure::InvalidUtf8 { reason } => reason,
        }
    }
}

/// A framing error. It is fatal to the connection: the line that caused it
/// has left the buffer and is not decoded again.
#[derive(Debug, PartialEq, Eq)]
pub enum FramingError {
    InvalidProtocol,
    InvalidUtf8 { reason: String },
}

impl View for FramingError {
    type V = Failure;

    open spec fn view(&self) -> Failure {
        match self {
            FramingError::InvalidProtocol => Failure::InvalidProtocol,
            FramingError::InvalidUtf8 { reason } => Failure::InvalidUtf8 { reason: reason@ },
        }
    }
}

impl FramingError {
    /// The error in words, for a log or for an error of the transport.
    pub fn message(&self) -> (text: String)
        ensures
            text@ == self@.text(),
    {
        match self {
            FramingError::InvalidProtocol => "invalid protocol".to_owned(),
            FramingError::InvalidUtf8 { reason } => reason.clone(),
        }
    }
}

} // verus!
