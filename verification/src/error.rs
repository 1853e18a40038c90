//! The errors that the library reports.

use vstd::prelude::*;

verus! {

/// What went wrong, by class.
#[derive(Clone, Copy, Debug, PartialEq, Eq, Structural)]
pub enum ErrorKind {
    /// A malformed address, frame or JSON text.
    InvalidInput,
    /// No address was resolved, or no connection could be opened.
    Unreachable,
    /// The broker rejected the handshake, or broke the protocol during it.
    ConnectionRefused,
    /// A live connection dropped.
    Disconnected,
    /// The operation was submitted after shutdown.
    Shutdown,
}

/// An error: its class and a message for people.
#[derive(Clone, Debug)]
pub struct Error {
    pub kind: ErrorKind,
    pub message: String,
}

/// An `Error` as a value of specifications.
pub struct ErrorView {
    pub kind: ErrorKind,
    pub message: Seq<char>,
}

impl View for Error {
    type V = ErrorView;

    open spec fn view(&self) -> ErrorView {
        ErrorView { kind: self.kind, message: self.message@ }
    }
}

impl Error {
    /// An error of class `kind` with the message `message`.
    pub fn new(kind: ErrorKind, message: &str) -> (e: Error)
        ensures
            e@ == (ErrorView { kind, message: message@ }),
    {
        Error { kind, message: message.to_owned() }
    }

    /// The message, for display.
    pub fn to_text(&self) -> (s: String)
        ensures
            s@ == self.message@,
    {
        self.message.clone()
    }
}

} // verus!
