//! The kinds of failure and the status each is answered with.

use vstd::prelude::*;
use vstd::string::StringExecFns;

verus! {

/// What went wrong while a request was served.
#[derive(Debug, Clone, Copy, PartialEq, Eq, Structural)]
pub enum ErrorKind {
    /// The path names no file.
    InvalidName,
    /// The file or page is not there, or could not be opened.
    NotFound,
    /// No content type is known for the file.
    UnknownContentType,
    /// A file or directory could not be read.
    ReadFailure,
    /// A sidecar does not hold a valid record.
    ParseFailure,
}

/// A failure: its kind, and a message for the reader.
#[derive(Debug, PartialEq, Eq)]
pub struct SiteError {
    pub kind: ErrorKind,
    pub message: String,
}

/// A failure by its contents.
pub struct ErrorView {
    pub kind: ErrorKind,
    pub message: Seq<char>,
}

impl View for SiteError {
    type V = ErrorView;

    open spec fn view(&self) -> ErrorView {
        ErrorView { kind: self.kind, message: self.message@ }
    }
}

/// The status that answers a failure of `kind`: 400 for a bad request, 404
/// for what is not there, 500 for what failed inside.
pub open spec fn status_of(kind: ErrorKind) -> u16 {
    match kind {
        ErrorKind::InvalidName => 400,
        ErrorKind::UnknownContentType => 400,
        ErrorKind::NotFound => 404,
        ErrorKind::ReadFailure => 500,
        ErrorKind::ParseFailure => 500,
    }
}

/// The status of a success.
pub const STATUS_OK: u16 = 200;

/// The status of a page that is not there.
pub const STATUS_NOT_FOUND: u16 = 404;

/// The status that answers a failure of `kind`.
pub fn status_code(kind: ErrorKind) -> (status: u16)
    ensures
        status == status_of(kind),
{
    match kind {
        ErrorKind::InvalidName => 400,
        ErrorKind::UnknownContentType => 400,
        ErrorKind::NotFound => 404,
        ErrorKind::ReadFailure => 500,
        ErrorKind::ParseFailure => 500,
    }
}

/// A failure of `kind` with `message`.
pub fn failure(kind: ErrorKind, message: &str) -> (error: SiteError)
    ensures
        error@ == (ErrorView { kind, message: message@ }),
{
    SiteError { kind, message: String::from_str(message) }
}

/// A failure of `kind` whose message is `intro` followed by `detail`.
pub fn failure_with(kind: ErrorKind, intro: &str, detail: &str) -> (error: SiteError)
    ensures
        error@ == (ErrorView { kind, message: intro@ + detail@ }),
{
    let mut message = String::from_str(intro);
    message.append(detail);
    SiteError { kind, message }
}

} // verus!
