//! The routes of the site, each as a request that moves by events.
//!
//! A request either waits for something that only the caller can fetch (a
//! directory listing, a file's text) or is done and holds the answer. The
//! caller fetches what a waiting request names, hands it back as an event,
//! and goes on until the request is done.

use crate::content_path::{sanitized, with_extension, ContentPath};
use crate::error::{failure, ErrorKind, ErrorView, STATUS_NOT_FOUND, STATUS_OK};
use crate::file_access::{
    attempt_view, content_disposition, content_type_of, disposition_of, fault,
    media_type_of_extension, open_file, opened, FileRead, FileReadView,
};
use crate::metadata::{enumerate_pages, files_view, listed, SidecarFile, SidecarView};
use crate::names::{
    extension, is_segment, lemma_extended_segment, lemma_last_dot_unique, markdown_extension, DOT,
    SEPARATOR,
};
use crate::render::{
    bare_read, html_of, markdown_html, md_file_to_html, md_to_string, read_to_string, text_read,
};
use crate::resolver::{
    find_page, listing_view, resolution, DirEntry, DirEntryView, ResolvedTarget, TargetView,
};
use crate::response::{status_in, DataView, Response, ResponseView, Template, TemplateData};
use crate::text::text_of;
use vstd::prelude::*;
use vstd::string::{is_ascii, is_ascii_spec_bytes, StringSliceAdditionalSpecFns};
use vstd::utf8::{encode_utf8_decode_utf8, encode_utf8_valid_utf8};

verus! {

/// The directories that content is served from.
#[derive(Debug, Clone, Copy, PartialEq, Eq, Structural)]
pub enum Root {
    /// The pages of the site: the directory `pages`.
    Pages,
    /// Posts, templates and downloads: the directory `assets`.
    Assets,
}

/// The name of a root's directory.
pub open spec fn root_name(root: Root) -> Seq<char> {
    match root {
        Root::Pages => "pages"@,
        Root::Assets => "assets"@,
    }
}

impl Root {
    /// The name of the root's directory.
    pub fn directory(&self) -> (name: &'static str)
        ensures
            name@ == root_name(*self),
    {
        match self {
            Root::Pages => "pages",
            Root::Assets => "assets",
        }
    }
}

/// What the text of a file is wanted for.
#[derive(Debug, Clone, Copy, PartialEq, Eq, Structural)]
pub enum FileUse {
    /// Markdown, compiled and set into `template`.
    Page { template: Template },
    /// Text, sent as it is.
    Raw,
    /// Markdown, compiled and sent as bare HTML, without the checks of file
    /// access.
    Html,
}

/// What a request waits for.
#[derive(Debug, PartialEq, Eq)]
pub enum Pending {
    /// The entries of the parent directory of `path`, to resolve `path`.
    Entries { root: Root, path: ContentPath },
    /// The files of the directory `dir`, each sidecar among them read as
    /// text, to list them under `template`. `nested` says whether the rows'
    /// paths begin with the directory.
    Sidecars { root: Root, dir: ContentPath, nested: bool, template: Template },
    /// The file at `path`, opened and read as text.
    Text { root: Root, path: ContentPath, purpose: FileUse },
    /// The file at `path`, opened to be streamed.
    Open { root: Root, path: ContentPath },
}

/// What a request waits for, by its contents.
pub enum PendingView {
    Entries { root: Root, path: Seq<Seq<u8>> },
    Sidecars { root: Root, dir: Seq<Seq<u8>>, nested: bool, template: Template },
    Text { root: Root, path: Seq<Seq<u8>>, purpose: FileUse },
    Open { root: Root, path: Seq<Seq<u8>> },
}

impl View for Pending {
    type V = PendingView;

    open spec fn view(&self) -> PendingView {
        match self {
            Pending::Entries { root, path } => PendingView::Entries { root: *root, path: path@ },
            Pending::Sidecars { root, dir, nested, template } => PendingView::Sidecars {
                root: *root,
                dir: dir@,
                nested: *nested,
                template: *template,
            },
            Pending::Text { root, path, purpose } => PendingView::Text {
                root: *root,
                path: path@,
                purpose: *purpose,
            },
            Pending::Open { root, path } => PendingView::Open { root: *root, path: path@ },
        }
    }
}

/// A request on its way to an answer.
#[derive(Debug, PartialEq, Eq)]
pub enum Request {
    Waiting(Pending),
    Done(Response),
}

/// A request by its contents.
pub enum RequestView {
    Waiting(PendingView),
    Done(ResponseView),
}

impl View for Request {
    type V = RequestView;

    open spec fn view(&self) -> RequestView {
        match self {
            Request::Waiting(pending) => RequestView::Waiting(pending@),
            Request::Done(response) => RequestView::Done(response@),
        }
    }
}

/// What the caller fetched.
#[derive(Debug, PartialEq, Eq)]
pub enum Event {
    /// The entries of a directory in the order of the listing, or nothing
    /// where it could not be listed.
    Entries(Option<Vec<DirEntry>>),
    /// The files of a directory in the order of the scan, the sidecars among
    /// them read, or the failure in words where it could not be scanned.
    Sidecars(Result<Vec<SidecarFile>, String>),
    /// What came of opening a file and reading it as text.
    Text(FileRead),
    /// What came of opening a file: nothing, or the failure in words.
    Opened(Result<(), String>),
}

/// An event by its contents.
pub enum EventView {
    Entries(Option<Seq<DirEntryView>>),
    Sidecars(Result<Seq<SidecarView>, Seq<char>>),
    Text(FileReadView),
    Opened(Option<Seq<char>>),
}

impl View for Event {
    type V = EventView;

    open spec fn view(&self) -> EventView {
        match self {
            Event::Entries(listing) => EventView::Entries(listing_view(*listing)),
            Event::Sidecars(scan) => EventView::Sidecars(
                match scan {
                    Ok(files) => Ok(files_view(files@)),
                    Err(report) => Err(report@),
                },
            ),
            Event::Text(read) => EventView::Text(read@),
            Event::Opened(attempt) => EventView::Opened(attempt_view(*attempt)),
        }
    }
}

/// The answer that nothing was found: the not-found template on the empty
/// record, with status 404.
pub open spec fn not_found_page() -> ResponseView {
    ResponseView::Rendered {
        status: STATUS_NOT_FOUND,
        template: Template::NotFound,
        data: DataView::Empty,
    }
}

/// The answer that a path names no file.
pub open spec fn no_file_name() -> ResponseView {
    ResponseView::Failure {
        error: fault(ErrorKind::InvalidName, "File name couldn't be determined"@),
    }
}

/// Where a page request stands once its path has been held against the
/// listing of its parent directory: done with the not-found page where
/// nothing answers, else waiting for the directory's files or the file's text.
pub open spec fn after_entries(
    root: Root,
    path: Seq<Seq<u8>>,
    listing: Option<Seq<DirEntryView>>,
) -> RequestView {
    match resolution(path, listing) {
        None => RequestView::Done(not_found_page()),
        Some(TargetView::Directory { path: dir }) => RequestView::Waiting(
            PendingView::Sidecars { root, dir, nested: true, template: Template::PageList },
        ),
        Some(TargetView::File { path: file, is_markdown }) => RequestView::Waiting(
            PendingView::Text {
                root,
                path: file,
                purpose: if is_markdown {
                    FileUse::Page { template: Template::Page }
                } else {
                    FileUse::Raw
                },
            },
        ),
    }
}

/// The answer to a listing: the rows under the template with status 200, or
/// the failure of the scan or of the first file that fails.
pub open spec fn after_sidecars(
    dir: Seq<Seq<u8>>,
    nested: bool,
    template: Template,
    scan: Result<Seq<SidecarView>, Seq<char>>,
) -> ResponseView {
    match scan {
        Err(report) => ResponseView::Failure { error: fault(ErrorKind::ReadFailure, report) },
        Ok(files) => match listed(if nested { dir } else { Seq::empty() }, files) {
            Ok(entries) => ResponseView::Rendered {
                status: STATUS_OK,
                template,
                data: DataView::Entries { entries },
            },
            Err(error) => ResponseView::Failure { error },
        },
    }
}

/// An answer made of a text, or the failure in its place.
pub open spec fn answer_of(
    text: Result<Seq<char>, ErrorView>,
    make: spec_fn(Seq<char>) -> ResponseView,
) -> ResponseView {
    match text {
        Ok(text) => make(text),
        Err(error) => ResponseView::Failure { error },
    }
}

/// The answer to a file's text, by what the text is wanted for.
pub open spec fn after_text(
    path: Seq<Seq<u8>>,
    purpose: FileUse,
    read: FileReadView,
) -> ResponseView {
    match purpose {
        FileUse::Page { template } => answer_of(
            html_of(text_read(path, read)),
            |html: Seq<char>|
                ResponseView::Rendered {
                    status: STATUS_OK,
                    template,
                    data: DataView::Markdown { markdown: html },
                },
        ),
        FileUse::Raw => answer_of(
            text_read(path, read),
            |text: Seq<char>| ResponseView::Text { body: text },
        ),
        FileUse::Html => answer_of(
            html_of(bare_read(read)),
            |html: Seq<char>| ResponseView::Html { body: html },
        ),
    }
}

/// The answer to an opened file: a download under its content type and name,
/// or the failure of opening it.
pub open spec fn after_open(path: Seq<Seq<u8>>, failed: Option<Seq<char>>) -> ResponseView {
    match opened(path, failed) {
        Ok(file) => ResponseView::Attachment {
            content_type: file.content_type,
            disposition: disposition_of(file.display_name),
        },
        Err(error) => ResponseView::Failure { error },
    }
}

/// Where a request stands after an event. An event that the request does not
/// wait for leaves it as it is; so does any event once it is done.
pub open spec fn step(request: RequestView, event: EventView) -> RequestView {
    match (request, event) {
        (
            RequestView::Waiting(PendingView::Entries { root, path }),
            EventView::Entries(listing),
        ) => after_entries(root, path, listing),
        (
            RequestView::Waiting(PendingView::Sidecars { root, dir, nested, template }),
            EventView::Sidecars(scan),
        ) => RequestView::Done(after_sidecars(dir, nested, template, scan)),
        (
            RequestView::Waiting(PendingView::Text { root, path, purpose }),
            EventView::Text(read),
        ) => RequestView::Done(after_text(path, purpose, read)),
        (RequestView::Waiting(PendingView::Open { root, path }), EventView::Opened(failed)) => {
            RequestView::Done(after_open(path, failed))
        },
        _ => request,
    }
}

/// A request that is done stays as it is, whatever comes.
pub proof fn lemma_done_is_final(response: ResponseView, event: EventView)
    ensures
        step(RequestView::Done(response), event) == RequestView::Done(response),
{
}

/// What an event has answered, no later event changes; and only a page
/// request whose parent directory was just listed goes on to wait for
/// something else.
pub proof fn lemma_step_ends(request: RequestView, event: EventView, later: EventView)
    ensures
        step(request, event) is Done ==> step(step(request, event), later) == step(
            request,
            event,
        ),
        step(request, event) is Waiting && step(request, event) != request ==> request
            matches RequestView::Waiting(PendingView::Entries { .. }),
{
}

/// Rendering keeps no state: two answers of `file_read` for the same path and
/// purpose, each to a read that found the file with the same contents, are
/// the same answer, sent with the same status.
pub proof fn lemma_unchanged_file_same_answer(
    path: ContentPath,
    purpose: FileUse,
    first_read: FileRead,
    second_read: FileRead,
    first: Response,
    second: Response,
)
    requires
        first_read@ == second_read@,
        first@ == after_text(path@, purpose, first_read@),
        second@ == after_text(path@, purpose, second_read@),
    ensures
        first@ == second@,
        status_in(first@) == status_in(second@),
{
}

/// Whether `status` is one that the site answers with.
pub open spec fn is_site_status(status: u16) -> bool {
    status == 200 || status == 400 || status == 404 || status == 500
}

/// Every answer that an event brings is sent with one of the four statuses
/// of the site.
pub proof fn lemma_statuses(request: RequestView, event: EventView)
    requires
        request is Waiting,
    ensures
        step(request, event) matches RequestView::Done(response) ==> is_site_status(
            status_in(response),
        ),
{
}

/// A Markdown file that was read is answered with status 200 and the HTML
/// of its text under the template, where file access accepts the file.
pub proof fn lemma_page_rendered(path: Seq<Seq<u8>>, template: Template, text: Seq<char>)
    requires
        opened(path, None) is Ok,
    ensures
        after_text(path, FileUse::Page { template }, FileReadView::Text(text))
            == (ResponseView::Rendered {
            status: STATUS_OK,
            template,
            data: DataView::Markdown { markdown: markdown_html(text) },
        }),
{
}

/// What the name of the index page is made of: it is text, and its
/// extension is the Markdown extension, so that its content type is the media
/// type of `md`.
pub proof fn lemma_index_name()
    ensures
        index_file().len() == 1,
        text_of(index_file().last()) == Some("index.md"@),
        extension(index_file().last()) == Some(markdown_extension()),
        content_type_of(index_file().last()) == media_type_of_extension("md"@),
{
    reveal_strlit("index.md");
    reveal_strlit("md");
    let name = "index.md".spec_bytes();
    let ext = "md".spec_bytes();
    is_ascii_spec_bytes("index.md");
    is_ascii_spec_bytes("md");
    encode_utf8_valid_utf8("index.md"@);
    encode_utf8_decode_utf8("index.md"@);
    encode_utf8_valid_utf8("md"@);
    encode_utf8_decode_utf8("md"@);
    assert(name.len() == 8);
    assert(name[5] == DOT);
    assert(name[6] == 0x6d && name[7] == 0x64);
    lemma_last_dot_unique(name, 5);
    assert(name.skip(6) =~= markdown_extension());
    assert(ext =~= markdown_extension());
}

/// The root of the site: where the index page was read and a media type is
/// known for `md`, the answer is the page template on the HTML of the page's
/// text, with status 200.
pub proof fn lemma_index_page_rendered(text: Seq<char>)
    ensures
        media_type_of_extension("md"@) is Some ==> step(
            RequestView::Waiting(
                PendingView::Text {
                    root: Root::Pages,
                    path: index_file(),
                    purpose: FileUse::Page { template: Template::Page },
                },
            ),
            EventView::Text(FileReadView::Text(text)),
        ) == RequestView::Done(
            ResponseView::Rendered {
                status: STATUS_OK,
                template: Template::Page,
                data: DataView::Markdown { markdown: markdown_html(text) },
            },
        ),
{
    lemma_index_name();
}

/// The not-found page.
pub fn handler_404() -> (response: Response)
    ensures
        response@ == not_found_page(),
{
    Response::Rendered {
        status: STATUS_NOT_FOUND,
        template: Template::NotFound,
        data: TemplateData::Empty,
    }
}

/// Where a page request stands once the parent directory of `path` has been
/// listed.
pub fn page_found(root: Root, path: &ContentPath, listing: &Option<Vec<DirEntry>>) -> (next:
    Request)
    ensures
        next@ == after_entries(root, path@, listing_view(*listing)),
{
    match find_page(path, listing) {
        Err(_) => Request::Done(handler_404()),
        Ok(ResolvedTarget::Directory { path: dir }) => Request::Waiting(
            Pending::Sidecars { root, dir, nested: true, template: Template::PageList },
        ),
        Ok(ResolvedTarget::File { path: file, is_markdown }) => {
            let purpose = if is_markdown {
                FileUse::Page { template: Template::Page }
            } else {
                FileUse::Raw
            };
            Request::Waiting(Pending::Text { root, path: file, purpose })
        },
    }
}

/// The answer to a listing of `dir`, given its scan.
pub fn pages_listed(
    dir: &ContentPath,
    nested: bool,
    template: Template,
    scan: &Result<Vec<SidecarFile>, String>,
) -> (response: Response)
    ensures
        response@ == after_sidecars(
            dir@,
            nested,
            template,
            match *scan {
                Ok(files) => Ok(files_view(files@)),
                Err(report) => Err(report@),
            },
        ),
{
    let files = match scan {
        Ok(files) => files,
        Err(report) => {
            return Response::Failure { error: failure(ErrorKind::ReadFailure, report.as_str()) };
        },
    };
    let listing = if nested {
        enumerate_pages(dir, files)
    } else {
        let top = ContentPath::root();
        enumerate_pages(&top, files)
    };
    match listing {
        Ok(entries) => Response::Rendered {
            status: STATUS_OK,
            template,
            data: TemplateData::Entries { entries },
        },
        Err(error) => Response::Failure { error },
    }
}

/// The answer to the text of the file at `path`, given what came of reading it.
pub fn file_read(path: &ContentPath, purpose: FileUse, read: &FileRead) -> (response: Response)
    ensures
        response@ == after_text(path@, purpose, read@),
{
    match purpose {
        FileUse::Page { template } => match md_to_string(path, read) {
            Ok(markdown) => Response::Rendered {
                status: STATUS_OK,
                template,
                data: TemplateData::Markdown { markdown },
            },
            Err(error) => Response::Failure { error },
        },
        FileUse::Raw => match read_to_string(path, read) {
            Ok(body) => Response::Text { body },
            Err(error) => Response::Failure { error },
        },
        FileUse::Html => match md_file_to_html(read) {
            Ok(body) => Response::Html { body },
            Err(error) => Response::Failure { error },
        },
    }
}

/// The answer to the file at `path` once the caller has tried to open it.
pub fn file_opened(path: &ContentPath, attempt: &Result<(), String>) -> (response: Response)
    ensures
        response@ == after_open(path@, attempt_view(*attempt)),
{
    match open_file(path, attempt) {
        Ok(file) => {
            let disposition = content_disposition(file.display_name.as_str());
            Response::Attachment { content_type: file.content_type, disposition }
        },
        Err(error) => Response::Failure { error },
    }
}

/// Moves a request by one event.
pub fn advance(request: Request, event: Event) -> (next: Request)
    ensures
        next@ == step(request@, event@),
{
    match request {
        Request::Waiting(Pending::Entries { root, path }) => match event {
            Event::Entries(listing) => page_found(root, &path, &listing),
            _ => Request::Waiting(Pending::Entries { root, path }),
        },
        Request::Waiting(Pending::Sidecars { root, dir, nested, template }) => match event {
            Event::Sidecars(scan) => Request::Done(pages_listed(&dir, nested, template, &scan)),
            _ => Request::Waiting(Pending::Sidecars { root, dir, nested, template }),
        },
        Request::Waiting(Pending::Text { root, path, purpose }) => match event {
            Event::Text(read) => Request::Done(file_read(&path, purpose, &read)),
            _ => Request::Waiting(Pending::Text { root, path, purpose }),
        },
        Request::Waiting(Pending::Open { root, path }) => match event {
            Event::Opened(attempt) => Request::Done(file_opened(&path, &attempt)),
            _ => Request::Waiting(Pending::Open { root, path }),
        },
        Request::Done(response) => Request::Done(response),
    }
}

/// A name written in ASCII, longer than two characters and free of
/// separators, can stand as a segment.
pub proof fn lemma_plain_name(name: &str)
    requires
        is_ascii(name),
        name@.len() > 2,
        forall|i: int| 0 <= i < name@.len() ==> name@[i] != '/',
    ensures
        is_segment(name.spec_bytes()),
        name.spec_bytes().len() == name@.len(),
{
    is_ascii_spec_bytes(name);
    let bytes = name.spec_bytes();
    assert(bytes.len() == name@.len());
    assert(seq![DOT].len() == 1);
    assert(seq![DOT, DOT].len() == 2);
    if bytes.contains(SEPARATOR) {
        let k = choose|k: int| 0 <= k < bytes.len() && bytes[k] == SEPARATOR;
        assert(bytes[k] == name@[k] as u8);
        assert(name@[k] as u32 == 0x2f);
        assert(name@[k] == '/');
    }
}

/// The path of the one segment `name`.
fn fixed(name: &str) -> (path: ContentPath)
    requires
        is_segment(name.spec_bytes()),
    ensures
        path@ == seq![name.spec_bytes()],
{
    let top = ContentPath::root();
    match top.child(name.as_bytes()) {
        Some(path) => {
            assert(path@ =~= seq![name.spec_bytes()]);
            path
        },
        None => top,
    }
}

/// The page that answers a request for the root: `index.md`.
pub open spec fn index_file() -> Seq<Seq<u8>> {
    seq!["index.md".spec_bytes()]
}

/// The directory of the blog's posts: `posts`.
pub open spec fn posts_dir() -> Seq<Seq<u8>> {
    seq!["posts".spec_bytes()]
}

/// The post that the test route shows: `blogtest.md`.
pub open spec fn test_post() -> Seq<Seq<u8>> {
    seq!["blogtest.md".spec_bytes()]
}

/// The file of the post that `post` names: below the posts, with the
/// Markdown extension in place of its own.
pub open spec fn post_file(post: Seq<Seq<u8>>) -> Seq<Seq<u8>> {
    posts_dir() + with_extension(post, markdown_extension())
}

/// A request for the page at `path_name`: it waits for the entries of the
/// path's parent directory, or is done with the not-found page where the
/// path is refused or names nothing.
pub fn load_page(path_name: &str) -> (request: Request)
    ensures
        request@ == match sanitized(path_name.spec_bytes()) {
            Some(path) if path.len() > 0 => RequestView::Waiting(
                PendingView::Entries { root: Root::Pages, path },
            ),
            _ => RequestView::Done(not_found_page()),
        },
{
    match ContentPath::parse(path_name) {
        Some(path) => {
            if path.is_root() {
                Request::Done(handler_404())
            } else {
                Request::Waiting(Pending::Entries { root: Root::Pages, path })
            }
        },
        None => Request::Done(handler_404()),
    }
}

/// A request for the root of the site: it waits for the text of the index
/// page, to show it as a page.
pub fn load_indexmd() -> (request: Request)
    ensures
        request@ == RequestView::Waiting(
            PendingView::Text {
                root: Root::Pages,
                path: index_file(),
                purpose: FileUse::Page { template: Template::Page },
            },
        ),
{
    proof {
        reveal_strlit("index.md");
        lemma_plain_name("index.md");
    }
    Request::Waiting(
        Pending::Text {
            root: Root::Pages,
            path: fixed("index.md"),
            purpose: FileUse::Page { template: Template::Page },
        },
    )
}

/// A request for the post that `post` names: it waits for the text of the
/// post's file, to show it as a post, or is done with a failure where `post`
/// names no file.
pub fn blog(post: &str) -> (request: Request)
    ensures
        request@ == match sanitized(post.spec_bytes()) {
            Some(path) if path.len() > 0 => RequestView::Waiting(
                PendingView::Text {
                    root: Root::Assets,
                    path: post_file(path),
                    purpose: FileUse::Page { template: Template::Blog },
                },
            ),
            _ => RequestView::Done(no_file_name()),
        },
{
    let refused = Request::Done(
        Response::Failure {
            error: failure(ErrorKind::InvalidName, "File name couldn't be determined"),
        },
    );
    let path = match ContentPath::parse(post) {
        Some(path) => path,
        None => {
            return refused;
        },
    };
    let name = match path.file_name() {
        Some(name) => name,
        None => {
            return refused;
        },
    };
    let md: [u8; 2] = [0x6d, 0x64];
    proof {
        let ext = markdown_extension();
        assert(md@ =~= ext);
        if ext.contains(SEPARATOR) {
            let k = choose|k: int| 0 <= k < ext.len() && ext[k] == SEPARATOR;
            assert(ext[k] == 0x6d || ext[k] == 0x64);
        }
        lemma_extended_segment(name@, ext);
        reveal_strlit("posts");
        lemma_plain_name("posts");
    }
    let file = match path.with_extension(md.as_slice()) {
        Some(file) => file,
        None => {
            return refused;
        },
    };
    let whole = fixed("posts").join(&file);
    Request::Waiting(
        Pending::Text {
            root: Root::Assets,
            path: whole,
            purpose: FileUse::Page { template: Template::Blog },
        },
    )
}

/// A request for the list of the blog's posts: it waits for the files of
/// the posts' directory, to list them by their stems.
pub fn list_posts() -> (request: Request)
    ensures
        request@ == RequestView::Waiting(
            PendingView::Sidecars {
                root: Root::Assets,
                dir: posts_dir(),
                nested: false,
                template: Template::PostsList,
            },
        ),
{
    proof {
        reveal_strlit("posts");
        lemma_plain_name("posts");
    }
    Request::Waiting(
        Pending::Sidecars {
            root: Root::Assets,
            dir: fixed("posts"),
            nested: false,
            template: Template::PostsList,
        },
    )
}

/// A request for the asset at `file_name` as a download: it waits for the
/// file to be opened, or is done with a failure where `file_name` names no
/// file.
pub fn get_file_endpoint(file_name: &str) -> (request: Request)
    ensures
        request@ == match sanitized(file_name.spec_bytes()) {
            Some(path) if path.len() > 0 => RequestView::Waiting(
                PendingView::Open { root: Root::Assets, path },
            ),
            _ => RequestView::Done(no_file_name()),
        },
{
    match ContentPath::parse(file_name) {
        Some(path) => {
            if !path.is_root() {
                return Request::Waiting(Pending::Open { root: Root::Assets, path });
            }
        },
        None => {},
    }
    Request::Done(
        Response::Failure {
            error: failure(ErrorKind::InvalidName, "File name couldn't be determined"),
        },
    )
}

/// A request for the asset at `file_name` as a download, as
/// `get_file_endpoint` makes it.
pub fn get_file(file_name: &str) -> (request: Request)
    ensures
        request@ == match sanitized(file_name.spec_bytes()) {
            Some(path) if path.len() > 0 => RequestView::Waiting(
                PendingView::Open { root: Root::Assets, path },
            ),
            _ => RequestView::Done(no_file_name()),
        },
{
    get_file_endpoint(file_name)
}

/// A request for the test post: it waits for the post's text, to send it as
/// bare HTML.
pub fn md_test() -> (request: Request)
    ensures
        request@ == RequestView::Waiting(
            PendingView::Text { root: Root::Assets, path: test_post(), purpose: FileUse::Html },
        ),
{
    proof {
        reveal_strlit("blogtest.md");
        lemma_plain_name("blogtest.md");
    }
    Request::Waiting(
        Pending::Text { root: Root::Assets, path: fixed("blogtest.md"), purpose: FileUse::Html },
    )
}

} // verus!
