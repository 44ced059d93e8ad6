//! The error that the settings commands hand to the user interface.

use vstd::prelude::*;

verus! {

/// Where a failure arose.
#[derive(Clone, Copy, PartialEq, Eq, Debug)]
pub enum ErrorKind {
    /// Reading or writing a file.
    FS,
    /// Encoding or decoding the settings.
    Serialization,
    /// The application shell.
    Tauri,
    /// A request.
    Request,
}

/// A failure, with one text for the log and one for the user.
#[derive(Debug)]
pub struct Error {
    debug: String,
    user: String,
    kind: ErrorKind,
}

/// What an [`Error`] stands for in contracts.
pub struct ErrorView {
    /// Where the failure arose.
    pub kind: ErrorKind,
    /// The text for the log.
    pub debug: Seq<char>,
    /// The text for the user.
    pub user: Seq<char>,
}

impl View for Error {
    type V = ErrorView;

    closed spec fn view(&self) -> ErrorView {
        ErrorView { kind: self.kind, debug: self.debug@, user: self.user@ }
    }
}

impl Error {
    /// An error of `kind` with the text `debug` for the log and `user` for
    /// the user.
    pub fn new(kind: ErrorKind, debug: String, user: &str) -> (error: Error)
        ensures
            error@ == (ErrorView { kind, debug: debug@, user: user@ }),
    {
        Error { kind, debug, user: user.to_owned() }
    }

    /// The error for a failure of the application shell, which has one
    /// message for the log and the user alike.
    pub fn from_shell(message: &str) -> (error: Error)
        ensures
            error@ == (ErrorView { kind: ErrorKind::Tauri, debug: message@, user: message@ }),
    {
        Error { kind: ErrorKind::Tauri, debug: message.to_owned(), user: message.to_owned() }
    }

    /// Where the failure arose.
    pub fn kind(&self) -> (kind: ErrorKind)
        ensures
            kind == self@.kind,
    {
        self.kind
    }

    /// The text for the log.
    pub fn debug(&self) -> (text: &str)
        ensures
            text@ == self@.debug,
    {
        self.debug.as_str()
    }

    /// The text for the user.
    pub fn user(&self) -> (text: &str)
        ensures
            text@ == self@.user,
    {
        self.user.as_str()
    }
}

} // verus!
