use site_content::content_path::ContentPath;
use site_content::error::{failure, failure_with, status_code, ErrorKind, SiteError};
use site_content::file_access::{content_disposition, content_type, open_file, FileRead, OpenedFile};
use site_content::render::{md_file_to_html, md_to_string, read_to_string};

fn path(text: &str) -> ContentPath {
    ContentPath::parse(text).unwrap()
}

#[test]
fn an_opened_file_has_its_content_type_and_name() {
    assert_eq!(
        open_file(&path("css/style.css"), &Ok(())),
        Ok(OpenedFile { content_type: "text/css".to_string(), display_name: "style.css".to_string() })
    );
}

#[test]
fn open_failure_is_not_found() {
    let error = open_file(&path("css/style.css"), &Err("No such file or directory".to_string()))
        .unwrap_err();
    assert_eq!(error.kind, ErrorKind::NotFound);
    assert_eq!(error.message, "File not found: No such file or directory");
    assert_eq!(status_code(error.kind), 404);
}

#[test]
fn a_path_without_file_name_is_an_invalid_name() {
    let wanted = SiteError {
        kind: ErrorKind::InvalidName,
        message: "File name couldn't be determined".to_string(),
    };
    assert_eq!(open_file(&ContentPath::root(), &Ok(())), Err(SiteError { ..wanted }));
    assert_eq!(
        open_file(&ContentPath::root(), &Err("gone".to_string())).unwrap_err().kind,
        ErrorKind::InvalidName
    );
}

#[test]
fn a_name_that_is_no_text_is_an_invalid_name() {
    let raw = ContentPath::root().child(&[0xff, b'.', b'c', b's', b's']).unwrap();
    assert_eq!(open_file(&raw, &Ok(())).unwrap_err().kind, ErrorKind::InvalidName);
}

#[test]
fn a_failed_open_is_not_found_whatever_the_name() {
    let raw = ContentPath::root().child(&[0xff, b'.', b'c', b's', b's']).unwrap();
    assert_eq!(
        open_file(&raw, &Err("No such file or directory".to_string())),
        Err(SiteError {
            kind: ErrorKind::NotFound,
            message: "File not found: No such file or directory".to_string(),
        })
    );
    let odd = ContentPath::root().child(&[0xff, 0xfe]).unwrap();
    let error = open_file(&odd, &Err("Permission denied".to_string())).unwrap_err();
    assert_eq!(error.kind, ErrorKind::NotFound);
    assert_eq!(status_code(error.kind), 404);
    assert_eq!(error.message, "File not found: Permission denied");
}

#[test]
fn an_unknown_content_type_comes_before_the_name() {
    let odd = ContentPath::root().child(&[0xff, b'.', b'z', b'z', b'z', b'q']).unwrap();
    assert_eq!(open_file(&odd, &Ok(())).unwrap_err().kind, ErrorKind::UnknownContentType);
    let bare = ContentPath::root().child(&[0xff, 0xfe]).unwrap();
    assert_eq!(open_file(&bare, &Ok(())).unwrap_err().kind, ErrorKind::UnknownContentType);
}

#[test]
fn an_unknown_extension_has_no_content_type() {
    let error = open_file(&path("data/blob.zzzunknown"), &Ok(())).unwrap_err();
    assert_eq!(error.kind, ErrorKind::UnknownContentType);
    assert_eq!(error.message, "MIME Type couldn't be determined");
    assert_eq!(status_code(error.kind), 400);
    assert_eq!(open_file(&path("LICENSE"), &Ok(())).unwrap_err().kind, ErrorKind::UnknownContentType);
    assert_eq!(open_file(&path("notes."), &Ok(())).unwrap_err().kind, ErrorKind::UnknownContentType);
}

#[test]
fn a_failed_open_comes_before_the_content_type() {
    let error = open_file(&path("LICENSE"), &Err("denied".to_string())).unwrap_err();
    assert_eq!(error.kind, ErrorKind::NotFound);
}

#[test]
fn content_type_goes_by_the_extension() {
    assert_eq!(content_type(b"photo.png"), Some("image/png".to_string()));
    assert_eq!(content_type(b"photo.PNG"), Some("image/png".to_string()));
    assert_eq!(content_type(b"index.html"), Some("text/html".to_string()));
    assert_eq!(content_type(b"archive.tar.gz"), content_type(b"x.gz"));
    assert_eq!(content_type(b"png"), None);
    assert_eq!(content_type(b".png"), None);
    assert_eq!(content_type(&[b'a', b'.', 0xff]), None);
}

#[test]
fn the_disposition_names_the_file() {
    assert_eq!(content_disposition("style.css"), "attachment; filename=\"style.css\"");
    assert_eq!(content_disposition(""), "attachment; filename=\"\"");
}

#[test]
fn each_kind_has_its_status() {
    assert_eq!(status_code(ErrorKind::InvalidName), 400);
    assert_eq!(status_code(ErrorKind::UnknownContentType), 400);
    assert_eq!(status_code(ErrorKind::NotFound), 404);
    assert_eq!(status_code(ErrorKind::ReadFailure), 500);
    assert_eq!(status_code(ErrorKind::ParseFailure), 500);
}

#[test]
fn failures_carry_their_message() {
    assert_eq!(
        failure(ErrorKind::ReadFailure, "disk"),
        SiteError { kind: ErrorKind::ReadFailure, message: "disk".to_string() }
    );
    assert_eq!(failure_with(ErrorKind::NotFound, "File not found: ", "x").message, "File not found: x");
}

#[test]
fn a_heading_becomes_a_heading() {
    assert_eq!(md_file_to_html(&FileRead::Text("# Hi".to_string())), Ok("<h1>Hi</h1>".to_string()));
}

#[test]
fn markdown_is_compiled_not_handed_back() {
    let html = md_file_to_html(&FileRead::Text("some *emphasis*\n\n- one\n- two\n".to_string())).unwrap();
    assert_eq!(html, "<p>some <em>emphasis</em></p>\n<ul>\n<li>one</li>\n<li>two</li>\n</ul>\n");
}

#[test]
fn rendering_twice_gives_the_same_html() {
    let read = FileRead::Text("# Title\n\nBody with `code` and [a link](https://example.org).\n".to_string());
    let index = path("index.md");
    let first = md_to_string(&index, &read);
    let second = md_to_string(&index, &read);
    assert!(first.is_ok());
    assert_eq!(first, second);
    assert_eq!(md_file_to_html(&read), md_file_to_html(&read));
    assert_eq!(first, md_file_to_html(&read));
}

#[test]
fn md_to_string_goes_through_file_access() {
    let read = FileRead::Text("# Hi".to_string());
    assert_eq!(md_to_string(&path("pages/index.md"), &read), Ok("<h1>Hi</h1>".to_string()));
    assert_eq!(md_to_string(&ContentPath::root(), &read).unwrap_err().kind, ErrorKind::InvalidName);
    assert_eq!(
        md_to_string(&path("index.zzzunknown"), &read).unwrap_err().kind,
        ErrorKind::UnknownContentType
    );
    assert_eq!(
        md_to_string(&path("index.md"), &FileRead::OpenFailed("gone".to_string())),
        Err(SiteError { kind: ErrorKind::NotFound, message: "File not found: gone".to_string() })
    );
    let raw = ContentPath::root().child(&[0xff, b'.', b'm', b'd']).unwrap();
    assert_eq!(
        md_to_string(&raw, &FileRead::OpenFailed("gone".to_string())),
        Err(SiteError { kind: ErrorKind::NotFound, message: "File not found: gone".to_string() })
    );
    assert_eq!(md_to_string(&raw, &read).unwrap_err().kind, ErrorKind::InvalidName);
    assert_eq!(
        md_to_string(&path("index.md"), &FileRead::ReadFailed("bad utf-8".to_string())),
        Err(SiteError { kind: ErrorKind::ReadFailure, message: "Failed to read file: bad utf-8".to_string() })
    );
}

#[test]
fn md_file_to_html_needs_no_file_name() {
    assert_eq!(
        md_file_to_html(&FileRead::OpenFailed("gone".to_string())),
        Err(SiteError { kind: ErrorKind::NotFound, message: "File not found: gone".to_string() })
    );
    assert_eq!(
        md_file_to_html(&FileRead::ReadFailed("short".to_string())),
        Err(SiteError { kind: ErrorKind::ReadFailure, message: "Failed to read file: short".to_string() })
    );
}

#[test]
fn read_to_string_hands_the_text_on_unchanged() {
    let read = FileRead::Text("plain *text*, not compiled".to_string());
    assert_eq!(read_to_string(&path("notes.txt"), &read), Ok("plain *text*, not compiled".to_string()));
    assert_eq!(
        read_to_string(&path("notes.txt"), &FileRead::ReadFailed("io".to_string())).unwrap_err().kind,
        ErrorKind::ReadFailure
    );
}
