use site_content::content_path::ContentPath;
use site_content::error::{ErrorKind, SiteError};
use site_content::file_access::FileRead;
use site_content::metadata::{EnumeratedEntry, PageMetadata, SidecarFile};
use site_content::resolver::DirEntry;
use site_content::response::{Response, Template, TemplateData};
use site_content::routes::{
    advance, blog, file_opened, file_read, get_file, get_file_endpoint, handler_404, list_posts,
    load_indexmd, load_page, md_test, page_found, pages_listed, Event, FileUse, Pending, Request,
    Root,
};

const FOO: &str = "title = \"Foo\"\ndate = 2024-01-01\nshort_description = \"x\"\n";

fn path(text: &str) -> ContentPath {
    ContentPath::parse(text).unwrap()
}

fn entry(name: &str, is_dir: bool) -> DirEntry {
    DirEntry { name: name.as_bytes().to_vec(), is_dir }
}

fn not_found() -> Response {
    Response::Rendered { status: 404, template: Template::NotFound, data: TemplateData::Empty }
}

fn no_file_name() -> Response {
    Response::Failure {
        error: SiteError {
            kind: ErrorKind::InvalidName,
            message: "File name couldn't be determined".to_string(),
        },
    }
}

#[test]
fn the_root_shows_the_index_page() {
    let request = load_indexmd();
    assert_eq!(
        request,
        Request::Waiting(Pending::Text {
            root: Root::Pages,
            path: path("index.md"),
            purpose: FileUse::Page { template: Template::Page },
        })
    );
    let done = advance(request, Event::Text(FileRead::Text("# Welcome\n\nHello.".to_string())));
    match done {
        Request::Done(response) => {
            assert_eq!(response.status(), 200);
            assert_eq!(
                response,
                Response::Rendered {
                    status: 200,
                    template: Template::Page,
                    data: TemplateData::Markdown {
                        markdown: "<h1>Welcome</h1>\n<p>Hello.</p>".to_string()
                    },
                }
            );
        }
        Request::Waiting(_) => panic!("the index page was read"),
    }
}

#[test]
fn a_missing_index_page_is_a_failure() {
    let done = advance(load_indexmd(), Event::Text(FileRead::OpenFailed("gone".to_string())));
    assert_eq!(
        done,
        Request::Done(Response::Failure {
            error: SiteError { kind: ErrorKind::NotFound, message: "File not found: gone".to_string() },
        })
    );
}

#[test]
fn a_page_request_waits_for_the_parent_listing() {
    assert_eq!(
        load_page("projects/evolve-3d"),
        Request::Waiting(Pending::Entries { root: Root::Pages, path: path("projects/evolve-3d") })
    );
}

#[test]
fn a_refused_or_empty_page_path_is_not_found() {
    assert_eq!(load_page("../etc/passwd"), Request::Done(not_found()));
    assert_eq!(load_page("projects/../../x"), Request::Done(not_found()));
    assert_eq!(load_page(""), Request::Done(not_found()));
    assert_eq!(load_page("/"), Request::Done(not_found()));
}

#[test]
fn a_markdown_page_is_resolved_read_and_rendered() {
    let request = load_page("projects/evolve-3d");
    let listing = vec![entry("evolve-3d.toml", false), entry("evolve-3d.md", false)];
    let request = advance(request, Event::Entries(Some(listing)));
    assert_eq!(
        request,
        Request::Waiting(Pending::Text {
            root: Root::Pages,
            path: path("projects/evolve-3d.md"),
            purpose: FileUse::Page { template: Template::Page },
        })
    );
    let request = advance(request, Event::Text(FileRead::Text("# Hi".to_string())));
    assert_eq!(
        request,
        Request::Done(Response::Rendered {
            status: 200,
            template: Template::Page,
            data: TemplateData::Markdown { markdown: "<h1>Hi</h1>".to_string() },
        })
    );
}

#[test]
fn another_file_is_sent_as_it_is() {
    let request = advance(load_page("robots"), Event::Entries(Some(vec![entry("robots.txt", false)])));
    assert_eq!(
        request,
        Request::Waiting(Pending::Text { root: Root::Pages, path: path("robots.txt"), purpose: FileUse::Raw })
    );
    let request = advance(request, Event::Text(FileRead::Text("User-agent: *\n# Hi".to_string())));
    match request {
        Request::Done(response) => {
            assert_eq!(response.status(), 200);
            assert_eq!(response, Response::Text { body: "User-agent: *\n# Hi".to_string() });
        }
        Request::Waiting(_) => panic!("the file was read"),
    }
}

#[test]
fn a_page_that_is_not_there_gets_the_not_found_page() {
    let listing = vec![entry("evolve-3d.md", false)];
    assert_eq!(
        advance(load_page("projects/missing"), Event::Entries(Some(listing))),
        Request::Done(not_found())
    );
    assert_eq!(advance(load_page("projects/missing"), Event::Entries(None)), Request::Done(not_found()));
    assert_eq!(handler_404(), not_found());
    assert_eq!(handler_404().status(), 404);
}

#[test]
fn a_directory_is_listed_with_nested_paths() {
    let request = advance(load_page("projects"), Event::Entries(Some(vec![entry("projects", true)])));
    assert_eq!(
        request,
        Request::Waiting(Pending::Sidecars {
            root: Root::Pages,
            dir: path("projects"),
            nested: true,
            template: Template::PageList,
        })
    );
    let scan = vec![
        SidecarFile { name: b"evolve-3d.md".to_vec(), content: Ok("# body".to_string()) },
        SidecarFile { name: b"evolve-3d.toml".to_vec(), content: Ok(FOO.to_string()) },
    ];
    let request = advance(request, Event::Sidecars(Ok(scan)));
    assert_eq!(
        request,
        Request::Done(Response::Rendered {
            status: 200,
            template: Template::PageList,
            data: TemplateData::Entries {
                entries: vec![EnumeratedEntry {
                    meta: PageMetadata {
                        title: "Foo".to_string(),
                        date: "2024-01-01".to_string(),
                        short_description: "x".to_string(),
                    },
                    path: "projects/evolve-3d".to_string(),
                }],
            },
        })
    );
}

#[test]
fn a_listing_that_fails_is_an_internal_failure() {
    let dir = path("projects");
    let unreadable = pages_listed(&dir, true, Template::PageList, &Err("not a directory".to_string()));
    assert_eq!(
        unreadable,
        Response::Failure {
            error: SiteError { kind: ErrorKind::ReadFailure, message: "not a directory".to_string() },
        }
    );
    assert_eq!(unreadable.status(), 500);
    let bad = vec![SidecarFile { name: b"bad.toml".to_vec(), content: Ok("= =".to_string()) }];
    let response = pages_listed(&dir, true, Template::PageList, &Ok(bad));
    assert_eq!(response.status(), 500);
    match response {
        Response::Failure { error } => assert_eq!(error.kind, ErrorKind::ParseFailure),
        other => panic!("a failure was due, not {:?}", other),
    }
}

#[test]
fn the_posts_are_listed_by_their_stems() {
    let request = list_posts();
    assert_eq!(
        request,
        Request::Waiting(Pending::Sidecars {
            root: Root::Assets,
            dir: path("posts"),
            nested: false,
            template: Template::PostsList,
        })
    );
    let scan = vec![SidecarFile { name: b"first-post.toml".to_vec(), content: Ok(FOO.to_string()) }];
    match advance(request, Event::Sidecars(Ok(scan))) {
        Request::Done(Response::Rendered { status, template, data: TemplateData::Entries { entries } }) => {
            assert_eq!(status, 200);
            assert_eq!(template, Template::PostsList);
            assert_eq!(entries.len(), 1);
            assert_eq!(entries[0].path, "first-post");
        }
        other => panic!("a listing was due, not {:?}", other),
    }
}

#[test]
fn a_post_is_read_from_the_posts_with_the_markdown_extension() {
    assert_eq!(
        blog("hello-world"),
        Request::Waiting(Pending::Text {
            root: Root::Assets,
            path: path("posts/hello-world.md"),
            purpose: FileUse::Page { template: Template::Blog },
        })
    );
    assert_eq!(
        blog("2024/v1.2"),
        Request::Waiting(Pending::Text {
            root: Root::Assets,
            path: path("posts/2024/v1.md"),
            purpose: FileUse::Page { template: Template::Blog },
        })
    );
    assert_eq!(blog(""), Request::Done(no_file_name()));
    assert_eq!(blog("../secret"), Request::Done(no_file_name()));
    let done = advance(blog("hello-world"), Event::Text(FileRead::Text("# Hi".to_string())));
    assert_eq!(
        done,
        Request::Done(Response::Rendered {
            status: 200,
            template: Template::Blog,
            data: TemplateData::Markdown { markdown: "<h1>Hi</h1>".to_string() },
        })
    );
}

#[test]
fn an_asset_is_sent_as_a_download() {
    let request = get_file_endpoint("css/style.css");
    assert_eq!(request, Request::Waiting(Pending::Open { root: Root::Assets, path: path("css/style.css") }));
    assert_eq!(get_file("css/style.css"), request);
    let done = advance(request, Event::Opened(Ok(())));
    match done {
        Request::Done(response) => {
            assert_eq!(response.status(), 200);
            assert_eq!(
                response,
                Response::Attachment {
                    content_type: "text/css".to_string(),
                    disposition: "attachment; filename=\"style.css\"".to_string(),
                }
            );
        }
        Request::Waiting(_) => panic!("the file was opened"),
    }
}

#[test]
fn an_asset_request_can_fail_in_three_ways() {
    assert_eq!(get_file_endpoint(""), Request::Done(no_file_name()));
    assert_eq!(get_file_endpoint("../Cargo.toml"), Request::Done(no_file_name()));
    assert_eq!(get_file(".."), Request::Done(no_file_name()));
    let missing = file_opened(&path("logo.png"), &Err("gone".to_string()));
    assert_eq!(missing.status(), 404);
    assert_eq!(
        missing,
        Response::Failure {
            error: SiteError { kind: ErrorKind::NotFound, message: "File not found: gone".to_string() },
        }
    );
    let raw = ContentPath::root().child(&[0xff, b'.', b'p', b'n', b'g']).unwrap();
    assert_eq!(file_opened(&raw, &Err("gone".to_string())), missing);
    let unknown = file_opened(&path("Makefile"), &Ok(()));
    assert_eq!(unknown.status(), 400);
    assert_eq!(
        unknown,
        Response::Failure {
            error: SiteError {
                kind: ErrorKind::UnknownContentType,
                message: "MIME Type couldn't be determined".to_string(),
            },
        }
    );
}

#[test]
fn the_test_post_is_sent_as_bare_html() {
    let request = md_test();
    assert_eq!(
        request,
        Request::Waiting(Pending::Text { root: Root::Assets, path: path("blogtest.md"), purpose: FileUse::Html })
    );
    assert_eq!(
        advance(request, Event::Text(FileRead::Text("# Hi".to_string()))),
        Request::Done(Response::Html { body: "<h1>Hi</h1>".to_string() })
    );
}

#[test]
fn an_event_that_is_not_awaited_changes_nothing() {
    let waiting = load_page("projects/evolve-3d");
    let same = advance(waiting, Event::Text(FileRead::Text("# Hi".to_string())));
    assert_eq!(same, load_page("projects/evolve-3d"));
    let same = advance(same, Event::Opened(Ok(())));
    assert_eq!(same, load_page("projects/evolve-3d"));
    let same = advance(load_indexmd(), Event::Entries(None));
    assert_eq!(same, load_indexmd());
    let same = advance(list_posts(), Event::Opened(Err("x".to_string())));
    assert_eq!(same, list_posts());
    let same = advance(get_file("a.css"), Event::Sidecars(Ok(vec![])));
    assert_eq!(same, get_file("a.css"));
}

#[test]
fn a_request_that_is_done_stays_done() {
    let done = advance(Request::Done(handler_404()), Event::Entries(None));
    assert_eq!(done, Request::Done(not_found()));
    let done = advance(done, Event::Text(FileRead::Text("late".to_string())));
    assert_eq!(done, Request::Done(not_found()));
}

#[test]
fn the_same_events_give_the_same_answer() {
    let run = || {
        let request = advance(load_page("about"), Event::Entries(Some(vec![entry("about.md", false)])));
        advance(request, Event::Text(FileRead::Text("# About\n\n*me*".to_string())))
    };
    assert_eq!(run(), run());
}

#[test]
fn the_steps_are_the_parts_of_advance() {
    let about = path("about");
    let listing = Some(vec![entry("about.md", false)]);
    assert_eq!(
        page_found(Root::Pages, &about, &listing),
        advance(load_page("about"), Event::Entries(Some(vec![entry("about.md", false)])))
    );
    let read = FileRead::Text("# About".to_string());
    assert_eq!(
        Request::Done(file_read(&path("about.md"), FileUse::Raw, &read)),
        advance(
            Request::Waiting(Pending::Text { root: Root::Pages, path: path("about.md"), purpose: FileUse::Raw }),
            Event::Text(FileRead::Text("# About".to_string()))
        )
    );
}

#[test]
fn templates_and_roots_have_their_names() {
    assert_eq!(Template::Page.name(), "page.html");
    assert_eq!(Template::PageList.name(), "page_list.html");
    assert_eq!(Template::PostsList.name(), "posts_list.html");
    assert_eq!(Template::Blog.name(), "blog.html");
    assert_eq!(Template::NotFound.name(), "404.html");
    assert_eq!(Root::Pages.directory(), "pages");
    assert_eq!(Root::Assets.directory(), "assets");
}
