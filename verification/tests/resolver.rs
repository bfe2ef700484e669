use site_content::content_path::ContentPath;
use site_content::resolver::{entry_answers, find_page, DirEntry, ResolutionError, ResolvedTarget};

fn entry(name: &str, is_dir: bool) -> DirEntry {
    DirEntry { name: name.as_bytes().to_vec(), is_dir }
}

fn path(text: &str) -> ContentPath {
    ContentPath::parse(text).unwrap()
}

#[test]
fn a_subdirectory_resolves_to_the_directory() {
    let listing = Some(vec![entry("evolve-3d", true)]);
    assert_eq!(
        find_page(&path("projects/evolve-3d"), &listing),
        Ok(ResolvedTarget::Directory { path: path("projects/evolve-3d") })
    );
}

#[test]
fn a_markdown_file_beside_its_sidecar_resolves_to_the_file() {
    let listing = Some(vec![entry("evolve-3d.md", false), entry("evolve-3d.toml", false)]);
    assert_eq!(
        find_page(&path("projects/evolve-3d"), &listing),
        Ok(ResolvedTarget::File { path: path("projects/evolve-3d.md"), is_markdown: true })
    );
}

#[test]
fn the_sidecar_is_never_matched_even_when_listed_first() {
    let listing = Some(vec![entry("evolve-3d.toml", false), entry("evolve-3d.md", false)]);
    assert_eq!(
        find_page(&path("projects/evolve-3d"), &listing),
        Ok(ResolvedTarget::File { path: path("projects/evolve-3d.md"), is_markdown: true })
    );
    let alone = Some(vec![entry("evolve-3d.toml", false)]);
    assert_eq!(find_page(&path("projects/evolve-3d"), &alone), Err(ResolutionError::NotFound));
}

#[test]
fn no_matching_entry_is_not_found() {
    let listing = Some(vec![entry("evolve-3d.md", false), entry("other", true)]);
    assert_eq!(find_page(&path("projects/missing"), &listing), Err(ResolutionError::NotFound));
    assert_eq!(find_page(&path("projects/missing"), &Some(vec![])), Err(ResolutionError::NotFound));
}

#[test]
fn a_directory_that_cannot_be_listed_is_not_found() {
    assert_eq!(find_page(&path("projects/evolve-3d"), &None), Err(ResolutionError::NotFound));
}

#[test]
fn the_root_resolves_to_nothing() {
    let listing = Some(vec![entry("index.md", false)]);
    assert_eq!(find_page(&ContentPath::root(), &listing), Err(ResolutionError::NotFound));
}

#[test]
fn files_without_extension_are_skipped_not_fatal() {
    let listing = Some(vec![
        entry("LICENSE", false),
        entry("about", false),
        entry("about.md", false),
    ]);
    assert_eq!(
        find_page(&path("about"), &listing),
        Ok(ResolvedTarget::File { path: path("about.md"), is_markdown: true })
    );
}

#[test]
fn a_file_of_another_kind_is_not_markdown() {
    let listing = Some(vec![entry("resume.txt", false)]);
    assert_eq!(
        find_page(&path("resume"), &listing),
        Ok(ResolvedTarget::File { path: path("resume.txt"), is_markdown: false })
    );
}

#[test]
fn the_first_match_in_listing_order_wins() {
    let listing = Some(vec![entry("page.txt", false), entry("page.md", false), entry("page", true)]);
    assert_eq!(
        find_page(&path("page"), &listing),
        Ok(ResolvedTarget::File { path: path("page.txt"), is_markdown: false })
    );
    let reversed = Some(vec![entry("page", true), entry("page.md", false)]);
    assert_eq!(
        find_page(&path("page"), &reversed),
        Ok(ResolvedTarget::Directory { path: path("page") })
    );
}

#[test]
fn the_extension_of_the_request_does_not_count() {
    let listing = Some(vec![entry("evolve-3d.md", false)]);
    assert_eq!(
        find_page(&path("projects/evolve-3d.html"), &listing),
        Ok(ResolvedTarget::File { path: path("projects/evolve-3d.md"), is_markdown: true })
    );
}

#[test]
fn a_directory_matches_by_its_stem() {
    let listing = Some(vec![entry("gallery.d", true)]);
    assert_eq!(
        find_page(&path("gallery"), &listing),
        Ok(ResolvedTarget::Directory { path: path("gallery.d") })
    );
}

#[test]
fn entries_that_cannot_stand_in_a_path_answer_nothing() {
    let climbing = DirEntry { name: b"..".to_vec(), is_dir: true };
    assert!(!entry_answers(&climbing, b"."));
    let nested = DirEntry { name: b"page.a/b".to_vec(), is_dir: false };
    assert!(!entry_answers(&nested, b"page"));
    let listing = Some(vec![climbing]);
    assert_eq!(find_page(&path("a/..x"), &listing), Err(ResolutionError::NotFound));
}

#[test]
fn entry_answers_follows_the_match_rules() {
    assert!(entry_answers(&entry("evolve-3d", true), b"evolve-3d"));
    assert!(entry_answers(&entry("evolve-3d.md", false), b"evolve-3d"));
    assert!(entry_answers(&entry("evolve-3d.", false), b"evolve-3d"));
    assert!(!entry_answers(&entry("evolve-3d", false), b"evolve-3d"));
    assert!(!entry_answers(&entry("evolve-3d.toml", false), b"evolve-3d"));
    assert!(entry_answers(&entry("evolve-3d.toml", true), b"evolve-3d"));
    assert!(!entry_answers(&entry("evolve-3d.md", false), b"evolve"));
}

#[test]
fn names_that_are_no_text_still_resolve() {
    let raw = DirEntry { name: vec![0x70, 0x2e, 0xff], is_dir: false };
    let found = find_page(&path("p"), &Some(vec![raw])).unwrap();
    match found {
        ResolvedTarget::File { path, is_markdown } => {
            assert_eq!(path.to_bytes(), vec![0x70, 0x2e, 0xff]);
            assert!(!is_markdown);
        }
        ResolvedTarget::Directory { .. } => panic!("a file was listed"),
    }
}
