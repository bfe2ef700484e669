//! Markdown files to HTML.

use crate::content_path::ContentPath;
use crate::error::{failure_with, ErrorKind, ErrorView, SiteError};
use crate::file_access::{fault, open_file, opened, FileRead, FileReadView};
use vstd::prelude::*;

verus! {

/// The HTML that `markdown` compiles a Markdown text to, as CommonMark says.
pub uninterp spec fn markdown_html(text: Seq<char>) -> Seq<char>;

/// `markdown::to_html`. Not proved, but taken from `markdown`: the HTML
/// depends on the text alone.
#[verifier::external_body]
fn to_html(text: &str) -> (html: String)
    ensures
        html@ == markdown_html(text@),
{
    markdown::to_html(text)
}

/// The failure of the attempt to open that a read holds, if it holds one.
pub open spec fn open_failure(read: FileReadView) -> Option<Seq<char>> {
    match read {
        FileReadView::OpenFailed(report) => Some(report),
        _ => None,
    }
}

/// The text of the file at `path`, read through file access: what opening
/// refuses is refused, then a failed read, else the text.
pub open spec fn text_read(path: Seq<Seq<u8>>, read: FileReadView) -> Result<
    Seq<char>,
    ErrorView,
> {
    match opened(path, open_failure(read)) {
        Err(error) => Err(error),
        Ok(_) => bare_read(read),
    }
}

/// The text of a file read without the checks of file access: a failed
/// attempt to open is answered as not found, a failed read as such.
pub open spec fn bare_read(read: FileReadView) -> Result<Seq<char>, ErrorView> {
    match read {
        FileReadView::Text(text) => Ok(text),
        FileReadView::ReadFailed(report) => Err(
            fault(ErrorKind::ReadFailure, "Failed to read file: "@ + report),
        ),
        FileReadView::OpenFailed(report) => Err(
            fault(ErrorKind::NotFound, "File not found: "@ + report),
        ),
    }
}

/// The HTML of a text that was read, or the failure of the read.
pub open spec fn html_of(text: Result<Seq<char>, ErrorView>) -> Result<Seq<char>, ErrorView> {
    match text {
        Ok(text) => Ok(markdown_html(text)),
        Err(error) => Err(error),
    }
}

/// Whether `got` is the outcome `want`.
pub open spec fn is_outcome(
    got: Result<String, SiteError>,
    want: Result<Seq<char>, ErrorView>,
) -> bool {
    match got {
        Ok(text) => want == Ok::<Seq<char>, ErrorView>(text@),
        Err(error) => want == Err::<Seq<char>, ErrorView>(error@),
    }
}

/// The text of the file at `path`, given what came of reading it.
pub fn read_to_string(path: &ContentPath, read: &FileRead) -> (text: Result<String, SiteError>)
    ensures
        is_outcome(text, text_read(path@, read@)),
{
    let attempt: Result<(), String> = match read {
        FileRead::OpenFailed(report) => Err(report.clone()),
        _ => Ok(()),
    };
    match open_file(path, &attempt) {
        Err(error) => {
            return Err(error);
        },
        Ok(_) => {},
    }
    bare_text(read)
}

/// The text that a read holds, or the failure that it holds.
fn bare_text(read: &FileRead) -> (text: Result<String, SiteError>)
    ensures
        is_outcome(text, bare_read(read@)),
{
    match read {
        FileRead::Text(text) => Ok(text.clone()),
        FileRead::ReadFailed(report) => Err(
            failure_with(ErrorKind::ReadFailure, "Failed to read file: ", report.as_str()),
        ),
        FileRead::OpenFailed(report) => Err(
            failure_with(ErrorKind::NotFound, "File not found: ", report.as_str()),
        ),
    }
}

/// The Markdown file at `path` as HTML, given what came of reading it: the
/// file is accepted as file access accepts it, then read, then compiled.
pub fn md_to_string(path: &ContentPath, read: &FileRead) -> (html: Result<String, SiteError>)
    ensures
        is_outcome(html, html_of(text_read(path@, read@))),
{
    match read_to_string(path, read) {
        Ok(text) => Ok(to_html(text.as_str())),
        Err(error) => Err(error),
    }
}

/// A Markdown file as HTML, given what came of reading it, without the
/// checks of file access.
pub fn md_file_to_html(read: &FileRead) -> (html: Result<String, SiteError>)
    ensures
        is_outcome(html, html_of(bare_read(read@))),
{
    match bare_text(read) {
        Ok(text) => Ok(to_html(text.as_str())),
        Err(error) => Err(error),
    }
}

} // verus!
