//! What a request is answered with.

use crate::error::{status_of, ErrorView, SiteError, STATUS_OK};
use crate::metadata::{rows_view, EntryView, EnumeratedEntry};
use vstd::prelude::*;
use vstd::string::StringExecFns;

verus! {

/// The templates that the site is rendered with.
#[derive(Debug, Clone, Copy, PartialEq, Eq, Structural)]
pub enum Template {
    /// One page: `page.html`, on the page's HTML.
    Page,
    /// The pages of a directory: `page_list.html`, on the rows.
    PageList,
    /// The posts of the blog: `posts_list.html`, on the rows.
    PostsList,
    /// One post of the blog: `blog.html`, on the post's HTML.
    Blog,
    /// The page that says that nothing was found: `404.html`, on nothing.
    NotFound,
}

/// The name by which the template engine knows a template.
pub open spec fn template_name(template: Template) -> Seq<char> {
    match template {
        Template::Page => "page.html"@,
        Template::PageList => "page_list.html"@,
        Template::PostsList => "posts_list.html"@,
        Template::Blog => "blog.html"@,
        Template::NotFound => "404.html"@,
    }
}

impl Template {
    /// The name by which the template engine knows the template.
    pub fn name(&self) -> (name: String)
        ensures
            name@ == template_name(*self),
    {
        match self {
            Template::Page => String::from_str("page.html"),
            Template::PageList => String::from_str("page_list.html"),
            Template::PostsList => String::from_str("posts_list.html"),
            Template::Blog => String::from_str("blog.html"),
            Template::NotFound => String::from_str("404.html"),
        }
    }
}

/// The value that a template is rendered on.
#[derive(Debug, PartialEq, Eq)]
pub enum TemplateData {
    /// The empty record.
    Empty,
    /// A record with the one field `markdown`: a page's HTML.
    Markdown { markdown: String },
    /// A record with the one field `entries`: the rows of a listing.
    Entries { entries: Vec<EnumeratedEntry> },
}

/// A template's value by its contents.
pub enum DataView {
    Empty,
    Markdown { markdown: Seq<char> },
    Entries { entries: Seq<EntryView> },
}

impl View for TemplateData {
    type V = DataView;

    open spec fn view(&self) -> DataView {
        match self {
            TemplateData::Empty => DataView::Empty,
            TemplateData::Markdown { markdown } => DataView::Markdown { markdown: markdown@ },
            TemplateData::Entries { entries } => DataView::Entries { entries: rows_view(entries@) },
        }
    }
}

/// The answer to a request, for the caller to send.
#[derive(Debug, PartialEq, Eq)]
pub enum Response {
    /// `template` rendered on `data`, sent as HTML with `status`.
    Rendered { status: u16, template: Template, data: TemplateData },
    /// `body` sent as HTML, with status 200.
    Html { body: String },
    /// `body` sent as it is, with status 200.
    Text { body: String },
    /// The opened file streamed as a download under these two headers, with
    /// status 200.
    Attachment { content_type: String, disposition: String },
    /// The failure's message, sent with the status of its kind.
    Failure { error: SiteError },
}

/// An answer by its contents.
pub enum ResponseView {
    Rendered { status: u16, template: Template, data: DataView },
    Html { body: Seq<char> },
    Text { body: Seq<char> },
    Attachment { content_type: Seq<char>, disposition: Seq<char> },
    Failure { error: ErrorView },
}

impl View for Response {
    type V = ResponseView;

    open spec fn view(&self) -> ResponseView {
        match self {
            Response::Rendered { status, template, data } => ResponseView::Rendered {
                status: *status,
                template: *template,
                data: data@,
            },
            Response::Html { body } => ResponseView::Html { body: body@ },
            Response::Text { body } => ResponseView::Text { body: body@ },
            Response::Attachment { content_type, disposition } => ResponseView::Attachment {
                content_type: content_type@,
                disposition: disposition@,
            },
            Response::Failure { error } => ResponseView::Failure { error: error@ },
        }
    }
}

/// The status that an answer is sent with.
pub open spec fn status_in(response: ResponseView) -> u16 {
    match response {
        ResponseView::Rendered { status, .. } => status,
        ResponseView::Failure { error } => status_of(error.kind),
        _ => STATUS_OK,
    }
}

impl Response {
    /// The status that the answer is sent with.
    pub fn status(&self) -> (status: u16)
        ensures
            status == status_in(self@),
    {
        match self {
            Response::Rendered { status, .. } => *status,
            Response::Failure { error } => crate::error::status_code(error.kind),
            _ => STATUS_OK,
        }
    }
}

} // verus!
