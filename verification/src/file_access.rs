//! File access: what is known of a file once the caller has tried to open it.

use crate::content_path::ContentPath;
use crate::error::{failure, failure_with, ErrorKind, ErrorView, SiteError};
use crate::names::{extension, file_extension};
use crate::text::{text_from_utf8, text_of};
use vstd::prelude::*;
use vstd::slice::slice_to_vec;
use vstd::string::StringExecFns;

verus! {

/// The media type that `mime_guess` holds first for the extension `ext`, if
/// it knows the extension.
pub uninterp spec fn media_type_of_extension(ext: Seq<char>) -> Option<Seq<char>>;

/// `mime_guess::from_ext` and `MimeGuess::first_raw`. Not proved, but taken
/// from `mime_guess`: the guess depends on the extension alone, and the
/// empty extension has none.
#[verifier::external_body]
fn guess_media_type(ext: &str) -> (guess: Option<String>)
    ensures
        match guess {
            Some(media_type) => media_type_of_extension(ext@) == Some(media_type@),
            None => media_type_of_extension(ext@) is None,
        },
        ext@.len() == 0 ==> guess is None,
{
    mime_guess::from_ext(ext).first_raw().map(|raw| raw.to_string())
}

/// The content type inferred for a file of the name `name`: the media type of
/// its extension, where it has one that is text and known.
pub open spec fn content_type_of(name: Seq<u8>) -> Option<Seq<char>> {
    match extension(name) {
        None => None,
        Some(ext) => match text_of(ext) {
            None => None,
            Some(text) => media_type_of_extension(text),
        },
    }
}

/// The content type inferred for a file of the name `name`.
pub fn content_type(name: &[u8]) -> (inferred: Option<String>)
    ensures
        match inferred {
            Some(media_type) => content_type_of(name@) == Some(media_type@),
            None => content_type_of(name@) is None,
        },
{
    let ext = match file_extension(name) {
        Some(ext) => ext,
        None => {
            return None;
        },
    };
    match text_from_utf8(slice_to_vec(ext)) {
        Some(text) => guess_media_type(text.as_str()),
        None => None,
    }
}

/// What came of opening a file and reading it as text.
#[derive(Debug, PartialEq, Eq)]
pub enum FileRead {
    /// The file could not be opened; the failure in words.
    OpenFailed(String),
    /// The file was opened, but reading it failed; the failure in words.
    ReadFailed(String),
    /// The whole file as text.
    Text(String),
}

/// A read by its contents.
pub enum FileReadView {
    OpenFailed(Seq<char>),
    ReadFailed(Seq<char>),
    Text(Seq<char>),
}

impl View for FileRead {
    type V = FileReadView;

    open spec fn view(&self) -> FileReadView {
        match self {
            FileRead::OpenFailed(report) => FileReadView::OpenFailed(report@),
            FileRead::ReadFailed(report) => FileReadView::ReadFailed(report@),
            FileRead::Text(text) => FileReadView::Text(text@),
        }
    }
}

/// What is known of an opened file besides its handle, which stays with the
/// caller.
#[derive(Debug, PartialEq, Eq)]
pub struct OpenedFile {
    pub content_type: String,
    pub display_name: String,
}

/// An opened file by its contents.
pub struct OpenedView {
    pub content_type: Seq<char>,
    pub display_name: Seq<char>,
}

impl View for OpenedFile {
    type V = OpenedView;

    open spec fn view(&self) -> OpenedView {
        OpenedView { content_type: self.content_type@, display_name: self.display_name@ }
    }
}

/// An attempt to open a file by its contents: nothing, or the failure in words.
pub open spec fn attempt_view(opened: Result<(), String>) -> Option<Seq<char>> {
    match opened {
        Ok(_) => None,
        Err(report) => Some(report@),
    }
}

/// A failure of `kind` with `message`.
pub open spec fn fault(kind: ErrorKind, message: Seq<char>) -> ErrorView {
    ErrorView { kind, message }
}

/// What opening the file at `path` comes to, given the failure of the attempt
/// if it failed. In this order: the path must name a file; the attempt must
/// have succeeded; a content type must be known; and the name must be text,
/// because the display name of an opened file is a string.
pub open spec fn opened(path: Seq<Seq<u8>>, failed: Option<Seq<char>>) -> Result<
    OpenedView,
    ErrorView,
> {
    if path.len() == 0 {
        Err(fault(ErrorKind::InvalidName, "File name couldn't be determined"@))
    } else if failed is Some {
        Err(fault(ErrorKind::NotFound, "File not found: "@ + failed->0))
    } else if content_type_of(path.last()) is None {
        Err(fault(ErrorKind::UnknownContentType, "MIME Type couldn't be determined"@))
    } else if text_of(path.last()) is None {
        Err(fault(ErrorKind::InvalidName, "File name couldn't be determined"@))
    } else {
        Ok(
            OpenedView {
                content_type: content_type_of(path.last())->0,
                display_name: text_of(path.last())->0,
            },
        )
    }
}

/// A failed attempt to open a path that names a file is answered as not
/// found, with the failure's own words, whatever the name and the failure.
pub proof fn lemma_failed_open_is_not_found(path: Seq<Seq<u8>>, report: Seq<char>)
    requires
        path.len() > 0,
    ensures
        opened(path, Some(report)) == Err::<OpenedView, ErrorView>(
            fault(ErrorKind::NotFound, "File not found: "@ + report),
        ),
{
}

/// A path is refused as naming no file only where it has no last segment, or
/// where the file was opened, has a content type, and its name is no text.
pub proof fn lemma_invalid_name(path: Seq<Seq<u8>>, failed: Option<Seq<char>>)
    ensures
        (opened(path, failed) matches Err(error) && error.kind == ErrorKind::InvalidName) <==> (
        path.len() == 0 || (failed is None && content_type_of(path.last()) is Some && text_of(
            path.last(),
        ) is None)),
{
}

/// Says what opening the file at `path` came to: its content type and display
/// name, or the failure. `attempt` is what the caller's attempt to open the
/// file gave; the handle stays with the caller. A path without a file name
/// is refused first; then a failed attempt is answered as not found; then a
/// file without a known content type is refused; last, a name that is no
/// text is refused, because the display name is a string.
pub fn open_file(path: &ContentPath, attempt: &Result<(), String>) -> (file: Result<
    OpenedFile,
    SiteError,
>)
    ensures
        match file {
            Ok(known) => opened(path@, attempt_view(*attempt)) == Ok::<OpenedView, ErrorView>(
                known@,
            ),
            Err(error) => opened(path@, attempt_view(*attempt)) == Err::<OpenedView, ErrorView>(
                error@,
            ),
        },
{
    let name = match path.file_name() {
        Some(name) => name,
        None => {
            return Err(failure(ErrorKind::InvalidName, "File name couldn't be determined"));
        },
    };
    match attempt {
        Err(report) => {
            return Err(failure_with(ErrorKind::NotFound, "File not found: ", report.as_str()));
        },
        Ok(_) => {},
    }
    let content_type = match content_type(name.as_slice()) {
        Some(content_type) => content_type,
        None => {
            return Err(
                failure(ErrorKind::UnknownContentType, "MIME Type couldn't be determined"),
            );
        },
    };
    match text_from_utf8(slice_to_vec(name.as_slice())) {
        Some(display_name) => Ok(OpenedFile { content_type, display_name }),
        None => Err(failure(ErrorKind::InvalidName, "File name couldn't be determined")),
    }
}

/// The disposition header of a download under the name `name`.
pub open spec fn disposition_of(name: Seq<char>) -> Seq<char> {
    "attachment; filename=\""@ + name + "\""@
}

/// The disposition header of a download under the name `name`.
pub fn content_disposition(name: &str) -> (header: String)
    ensures
        header@ == disposition_of(name@),
{
    let mut header = String::from_str("attachment; filename=\"");
    header.append(name);
    header.append("\"");
    header
}

} // verus!
