//! The error value that every operation of the assistant reports.

use vstd::prelude::*;

verus! {

/// What went wrong, by category.
#[derive(Clone, Copy, Debug, PartialEq, Eq, Structural)]
pub enum ErrorKind {
    /// A configuration source could not be loaded, merged or understood.
    Config,
    /// A format string is malformed or names a placeholder that is not bound.
    Format,
    /// A file-system operation failed.
    Filesystem,
    /// A template file does not hold UTF-8 text.
    Encoding,
    /// The downloads directory holds no entry that could be imported.
    EmptyDownloads,
    /// Every assignment number up to the configured cap is taken.
    LimitReached,
    /// The assignment directory appeared before it could be created.
    AlreadyExists,
    /// A viewer process could not be started.
    Spawn,
    /// A path cannot be written as text.
    Path,
    /// The name of a subject's directory cannot be written as text.
    Name,
    /// The program answered a request that the library had not made.
    Unexpected,
}

/// An error: its category and a message for the person at the terminal.
#[derive(Clone, Debug, PartialEq, Eq)]
pub struct HwError {
    pub kind: ErrorKind,
    pub message: String,
}

impl HwError {
    pub fn new(kind: ErrorKind, message: String) -> (e: HwError)
        ensures
            e.kind == kind,
            e.message == message,
    {
        HwError { kind, message }
    }

    /// An error of category `kind` whose message is the text `message`.
    pub fn with_text(kind: ErrorKind, message: &str) -> (e: HwError)
        ensures
            e.kind == kind,
            e.message@ == message@,
    {
        HwError { kind, message: message.to_owned() }
    }

    pub fn kind(&self) -> (k: ErrorKind)
        ensures
            k == self.kind,
    {
        self.kind
    }

    pub fn message(&self) -> (m: &str)
        ensures
            m@ == self.message@,
    {
        self.message.as_str()
    }
}

} // verus!
