//! Page resolution: from a requested path and the listing of its parent
//! directory to the file or directory that answers it.

use crate::content_path::{all_segments, with_extension, ContentPath};
use crate::names::{
    check_segment, extension, file_extension, file_stem, has_extension, is_markdown_extension,
    is_segment, is_sidecar, is_sidecar_extension, lemma_stem_dot_extension, markdown_extension,
    same_bytes, sidecar_extension, stem,
};
use vstd::prelude::*;

verus! {

/// One entry of a directory listing, as the file system names it.
#[derive(Debug, PartialEq, Eq)]
pub struct DirEntry {
    /// The entry's name, without any directory before it.
    pub name: Vec<u8>,
    /// Whether the entry is itself a directory.
    pub is_dir: bool,
}

/// A directory entry by its contents.
pub struct DirEntryView {
    pub name: Seq<u8>,
    pub is_dir: bool,
}

impl View for DirEntry {
    type V = DirEntryView;

    open spec fn view(&self) -> DirEntryView {
        DirEntryView { name: self.name@, is_dir: self.is_dir }
    }
}

/// The outcome of resolving a page.
#[derive(Debug, PartialEq, Eq)]
pub enum ResolvedTarget {
    /// A content file; `is_markdown` says whether it is to be rendered.
    File { path: ContentPath, is_markdown: bool },
    /// A directory of pages, to be listed.
    Directory { path: ContentPath },
}

/// A resolved target by its contents.
pub enum TargetView {
    File { path: Seq<Seq<u8>>, is_markdown: bool },
    Directory { path: Seq<Seq<u8>> },
}

impl View for ResolvedTarget {
    type V = TargetView;

    open spec fn view(&self) -> TargetView {
        match self {
            ResolvedTarget::File { path, is_markdown } => TargetView::File {
                path: path@,
                is_markdown: *is_markdown,
            },
            ResolvedTarget::Directory { path } => TargetView::Directory { path: path@ },
        }
    }
}

/// Why a page was not resolved.
#[derive(Debug, Clone, Copy, PartialEq, Eq)]
pub enum ResolutionError {
    /// Nothing answers the path: no entry matches it, its parent directory
    /// could not be listed, or it names no file at all.
    NotFound,
}

/// The entries of a listing by their contents.
pub open spec fn entry_views(entries: Seq<DirEntry>) -> Seq<DirEntryView> {
    entries.map_values(|entry: DirEntry| entry@)
}

/// A listing by its contents; none where the directory could not be listed.
pub open spec fn listing_view(listing: Option<Vec<DirEntry>>) -> Option<Seq<DirEntryView>> {
    match listing {
        Some(entries) => Some(entry_views(entries@)),
        None => None,
    }
}

/// Whether `entry` answers a search for `searching`: its stem is the name
/// searched for, and it is a directory, or a file whose extension is not the
/// sidecar's. A file without extension answers nothing, nor does an entry
/// whose name cannot stand in a path.
pub open spec fn answers(entry: DirEntryView, searching: Seq<u8>) -> bool {
    &&& is_segment(entry.name)
    &&& stem(entry.name) == searching
    &&& (entry.is_dir || (has_extension(entry.name) && extension(entry.name) != Some(
        sidecar_extension(),
    )))
}

/// The first entry, in the listing's order, that answers the search.
pub open spec fn first_answer(entries: Seq<DirEntryView>, searching: Seq<u8>) -> Option<
    DirEntryView,
>
    decreases entries.len(),
{
    if entries.len() == 0 {
        None
    } else if answers(entries.first(), searching) {
        Some(entries.first())
    } else {
        first_answer(entries.drop_first(), searching)
    }
}

/// What a matching entry resolves the path to: the entry itself where it is a
/// directory, else the path with the entry's extension.
pub open spec fn target_of(path: Seq<Seq<u8>>, entry: DirEntryView) -> TargetView {
    if entry.is_dir {
        TargetView::Directory { path: path.drop_last().push(entry.name) }
    } else {
        TargetView::File {
            path: with_extension(path, extension(entry.name)->0),
            is_markdown: extension(entry.name) == Some(markdown_extension()),
        }
    }
}

/// What `path` resolves to against the listing of its parent directory.
pub open spec fn resolution(path: Seq<Seq<u8>>, listing: Option<Seq<DirEntryView>>) -> Option<
    TargetView,
> {
    if path.len() == 0 {
        None
    } else {
        match listing {
            None => None,
            Some(entries) => match first_answer(entries, stem(path.last())) {
                None => None,
                Some(entry) => Some(target_of(path, entry)),
            },
        }
    }
}

/// The path of a target.
pub open spec fn target_path(target: TargetView) -> Seq<Seq<u8>> {
    match target {
        TargetView::File { path, .. } => path,
        TargetView::Directory { path } => path,
    }
}

/// The first answer is an entry of the listing that answers the search, and
/// no entry before it does; there is none only where no entry answers.
pub proof fn lemma_first_answer(entries: Seq<DirEntryView>, searching: Seq<u8>)
    ensures
        match first_answer(entries, searching) {
            Some(entry) => exists|i: int|
                0 <= i < entries.len() && #[trigger] entries[i] == entry && answers(
                    entry,
                    searching,
                ) && forall|j: int| 0 <= j < i ==> !answers(#[trigger] entries[j], searching),
            None => forall|i: int|
                0 <= i < entries.len() ==> !answers(#[trigger] entries[i], searching),
        },
    decreases entries.len(),
{
    if entries.len() == 0 {
    } else if answers(entries.first(), searching) {
        assert(entries[0] == entries.first());
    } else {
        let rest = entries.drop_first();
        lemma_first_answer(rest, searching);
        assert forall|i: int| 0 <= i < rest.len() implies #[trigger] rest[i] == entries[i + 1] by {}
        match first_answer(rest, searching) {
            Some(entry) => {
                let k = choose|k: int|
                    0 <= k < rest.len() && #[trigger] rest[k] == entry && answers(entry, searching)
                        && forall|j: int| 0 <= j < k ==> !answers(#[trigger] rest[j], searching);
                assert(entries[k + 1] == entry);
                assert forall|j: int| 0 <= j < k + 1 implies !answers(
                    #[trigger] entries[j],
                    searching,
                ) by {
                    if j > 0 {
                        assert(rest[j - 1] == entries[j]);
                    }
                }
            },
            None => {
                assert forall|i: int| 0 <= i < entries.len() implies !answers(
                    #[trigger] entries[i],
                    searching,
                ) by {
                    if i > 0 {
                        assert(rest[i - 1] == entries[i]);
                    }
                }
            },
        }
    }
}

/// A path resolves to nothing exactly where it is the root, its parent
/// directory could not be listed, or no entry of the listing answers it.
pub proof fn lemma_not_found(path: Seq<Seq<u8>>, listing: Option<Seq<DirEntryView>>)
    ensures
        resolution(path, listing) is None <==> (path.len() == 0 || listing is None || forall|
            i: int,
        |
            0 <= i < listing->0.len() ==> !answers(#[trigger] listing->0[i], stem(path.last()))),
{
    if path.len() > 0 && listing is Some {
        lemma_first_answer(listing->0, stem(path.last()));
    }
}

/// A target is the entry that answered, set beside the requested path: for a
/// file too, the path with the entry's extension names the entry itself.
pub proof fn lemma_target_is_sibling(path: Seq<Seq<u8>>, entry: DirEntryView)
    requires
        path.len() > 0,
        answers(entry, stem(path.last())),
    ensures
        target_path(target_of(path, entry)) == path.drop_last().push(entry.name),
{
    if !entry.is_dir {
        lemma_stem_dot_extension(entry.name);
    }
}

/// Resolution never hands out a sidecar as a file, whatever the listing
/// holds, and what it hands out stays below the root where the request did.
pub proof fn lemma_resolution(path: Seq<Seq<u8>>, listing: Option<Seq<DirEntryView>>)
    requires
        all_segments(path),
    ensures
        match resolution(path, listing) {
            Some(target) => {
                &&& all_segments(target_path(target))
                &&& target_path(target).len() == path.len()
                &&& target_path(target).drop_last() == path.drop_last()
                &&& stem(target_path(target).last()) == stem(path.last())
                &&& target is File ==> !is_sidecar(target_path(target).last())
                &&& target matches TargetView::File { path: file, is_markdown } ==> is_markdown
                    == (extension(file.last()) == Some(markdown_extension()))
            },
            None => true,
        },
{
    if path.len() > 0 && listing is Some {
        let entries = listing->0;
        let searching = stem(path.last());
        lemma_first_answer(entries, searching);
        if let Some(entry) = first_answer(entries, searching) {
            lemma_target_is_sibling(path, entry);
            let sibling = path.drop_last().push(entry.name);
            assert(sibling.drop_last() =~= path.drop_last());
            assert forall|i: int| 0 <= i < sibling.len() implies is_segment(
                #[trigger] sibling[i],
            ) by {
                if i < path.len() - 1 {
                    assert(sibling[i] == path[i]);
                }
            }
        }
    }
}

/// Whether `entry` answers a search for `searching`.
pub fn entry_answers(entry: &DirEntry, searching: &[u8]) -> (yes: bool)
    ensures
        yes == answers(entry@, searching@),
{
    let name = entry.name.as_slice();
    if !check_segment(name) {
        return false;
    }
    if !same_bytes(file_stem(name), searching) {
        return false;
    }
    if entry.is_dir {
        return true;
    }
    match file_extension(name) {
        Some(ext) => !is_sidecar_extension(ext),
        None => false,
    }
}

/// Matches a requested path such as `projects/evolve-3d` to the file or
/// directory that answers it, given the entries of its parent directory in
/// the order in which they were listed (`None` where listing failed).
pub fn find_page(path: &ContentPath, listing: &Option<Vec<DirEntry>>) -> (found: Result<
    ResolvedTarget,
    ResolutionError,
>)
    ensures
        match found {
            Ok(target) => resolution(path@, listing_view(*listing)) == Some(target@),
            Err(_) => resolution(path@, listing_view(*listing)) is None,
        },
{
    let name = match path.file_name() {
        Some(name) => name,
        None => {
            return Err(ResolutionError::NotFound);
        },
    };
    let entries = match listing {
        Some(entries) => entries,
        None => {
            return Err(ResolutionError::NotFound);
        },
    };
    let searching = file_stem(name.as_slice());
    let parent = match path.parent() {
        Some(parent) => parent,
        None => {
            return Err(ResolutionError::NotFound);
        },
    };
    let ghost views = entry_views(entries@);
    let mut i: usize = 0;
    proof {
        assert(views.skip(0) =~= views);
    }
    while i < entries.len()
        invariant
            i <= entries@.len(),
            views == entry_views(entries@),
            listing_view(*listing) == Some(views),
            first_answer(views, searching@) == first_answer(views.skip(i as int), searching@),
            searching@ == stem(path@.last()),
            path@.len() > 0,
            parent@ == path@.drop_last(),
        decreases entries@.len() - i,
    {
        let entry = &entries[i];
        let ghost rest = views.skip(i as int);
        proof {
            assert(rest.first() == entry@);
            assert(rest.drop_first() =~= views.skip(i + 1));
        }
        if entry_answers(entry, searching) {
            let target_path = match parent.child(entry.name.as_slice()) {
                Some(target_path) => target_path,
                None => {
                    return Err(ResolutionError::NotFound);
                },
            };
            if entry.is_dir {
                assert(first_answer(rest, searching@) == Some(entry@));
                return Ok(ResolvedTarget::Directory { path: target_path });
            }
            let is_markdown = match file_extension(entry.name.as_slice()) {
                Some(ext) => is_markdown_extension(ext),
                None => false,
            };
            proof {
                lemma_stem_dot_extension(entry.name@);
                assert(first_answer(rest, searching@) == Some(entry@));
            }
            return Ok(ResolvedTarget::File { path: target_path, is_markdown });
        }
        i = i + 1;
    }
    proof {
        assert(views.skip(i as int) =~= Seq::<DirEntryView>::empty());
    }
    Err(ResolutionError::NotFound)
}

} // verus!
