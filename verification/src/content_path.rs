//! Paths below a content root, held as their segments.

use crate::names::{check_segment, file_stem, is_segment, stem, DOT, SEPARATOR};
use vstd::prelude::*;
use vstd::slice::{slice_subrange, slice_to_vec};
use vstd::string::StringSliceAdditionalSpecFns;

verus! {

/// Every member of `path` can stand as a segment.
pub open spec fn all_segments(path: Seq<Seq<u8>>) -> bool {
    forall|i: int| 0 <= i < path.len() ==> is_segment(#[trigger] path[i])
}

/// The pieces that the separators cut `bytes` into, empty ones included.
pub open spec fn pieces(bytes: Seq<u8>) -> Seq<Seq<u8>>
    decreases bytes.len(),
{
    if bytes.len() == 0 {
        seq![Seq::<u8>::empty()]
    } else {
        let front = pieces(bytes.drop_last());
        if bytes.last() == SEPARATOR {
            front.push(Seq::<u8>::empty())
        } else {
            front.drop_last().push(front.last().push(bytes.last()))
        }
    }
}

/// A piece that stays when a path is normalised: empty pieces and `.` go.
pub open spec fn is_kept(piece: Seq<u8>) -> bool {
    piece.len() > 0 && piece != seq![DOT]
}

/// The segments that `bytes` names below a root: its pieces without the empty
/// ones and without `.`. Nothing where a piece is `..`, which could climb out
/// of the root.
pub open spec fn sanitized(bytes: Seq<u8>) -> Option<Seq<Seq<u8>>> {
    let all = pieces(bytes);
    if all.contains(seq![DOT, DOT]) {
        None
    } else {
        Some(all.filter(kept_pieces()))
    }
}

/// `is_kept` as a predicate to filter by.
pub open spec fn kept_pieces() -> spec_fn(Seq<u8>) -> bool {
    |piece: Seq<u8>| is_kept(piece)
}

/// The segments written as one path, a separator between neighbours.
pub open spec fn joined(path: Seq<Seq<u8>>) -> Seq<u8>
    decreases path.len(),
{
    if path.len() == 0 {
        Seq::<u8>::empty()
    } else if path.len() == 1 {
        path[0]
    } else {
        joined(path.drop_last()) + seq![SEPARATOR] + path.last()
    }
}

/// `path` with the extension of its last segment replaced by `ext`.
pub open spec fn with_extension(path: Seq<Seq<u8>>, ext: Seq<u8>) -> Seq<Seq<u8>>
    recommends
        path.len() > 0,
{
    path.drop_last().push(stem(path.last()) + seq![DOT] + ext)
}

/// The byte strings that a vector of vectors holds.
pub open spec fn rows(items: Seq<Vec<u8>>) -> Seq<Seq<u8>> {
    Seq::new(items.len(), |i: int| items[i]@)
}

/// A copy of the first `count` byte strings of `items`.
fn copy_rows(items: &Vec<Vec<u8>>, count: usize) -> (copy: Vec<Vec<u8>>)
    requires
        count <= items@.len(),
    ensures
        rows(copy@) == rows(items@).take(count as int),
{
    let mut copy: Vec<Vec<u8>> = Vec::new();
    let mut i: usize = 0;
    while i < count
        invariant
            i <= count <= items@.len(),
            copy@.len() == i,
            forall|j: int| 0 <= j < i ==> (#[trigger] copy@[j])@ == items@[j]@,
        decreases count - i,
    {
        let row = slice_to_vec(items[i].as_slice());
        copy.push(row);
        i = i + 1;
    }
    assert(rows(copy@) =~= rows(items@).take(count as int));
    copy
}

/// There is always a piece, and no piece holds a separator.
pub proof fn lemma_pieces_plain(bytes: Seq<u8>)
    ensures
        pieces(bytes).len() >= 1,
        forall|k: int|
            0 <= k < pieces(bytes).len() ==> !(#[trigger] pieces(bytes)[k]).contains(SEPARATOR),
    decreases bytes.len(),
{
    if bytes.len() == 0 {
        assert(!Seq::<u8>::empty().contains(SEPARATOR));
    } else {
        let front = pieces(bytes.drop_last());
        lemma_pieces_plain(bytes.drop_last());
        let all = pieces(bytes);
        if bytes.last() == SEPARATOR {
            assert(!Seq::<u8>::empty().contains(SEPARATOR));
            assert forall|k: int| 0 <= k < all.len() implies !(#[trigger] all[k]).contains(
                SEPARATOR,
            ) by {
                if k < front.len() {
                    assert(all[k] == front[k]);
                }
            }
        } else {
            let grown = front.last().push(bytes.last());
            if grown.contains(SEPARATOR) {
                let at = choose|at: int| 0 <= at < grown.len() && grown[at] == SEPARATOR;
                assert(front.last()[at] == SEPARATOR);
                assert(front.last().contains(SEPARATOR));
            }
            assert forall|k: int| 0 <= k < all.len() implies !(#[trigger] all[k]).contains(
                SEPARATOR,
            ) by {
                if k < front.len() - 1 {
                    assert(all[k] == front[k]);
                }
            }
        }
    }
}

/// What is read from any bytes stays below the root: every segment of a
/// sanitised path is a plain name.
pub proof fn lemma_sanitized_contained(bytes: Seq<u8>)
    ensures
        sanitized(bytes) matches Some(path) ==> all_segments(path),
{
    if let Some(path) = sanitized(bytes) {
        let all = pieces(bytes);
        lemma_pieces_plain(bytes);
        assert forall|k: int| 0 <= k < path.len() implies is_segment(#[trigger] path[k]) by {
            all.lemma_filter_pred(kept_pieces(), k);
            assert(path.contains(path[k]));
            all.lemma_filter_contains_rev(kept_pieces(), path[k]);
            let at = choose|at: int| 0 <= at < all.len() && all[at] == path[k];
            assert(!all[at].contains(SEPARATOR));
        }
    }
}

/// Bytes without a separator are one piece.
pub proof fn lemma_pieces_of_plain(name: Seq<u8>)
    requires
        !name.contains(SEPARATOR),
    ensures
        pieces(name) == seq![name],
    decreases name.len(),
{
    if name.len() == 0 {
        assert(name =~= Seq::<u8>::empty());
    } else {
        let front = name.drop_last();
        if front.contains(SEPARATOR) {
            let at = choose|at: int| 0 <= at < front.len() && front[at] == SEPARATOR;
            assert(name[at] == SEPARATOR);
        }
        assert(name[name.len() - 1] != SEPARATOR);
        lemma_pieces_of_plain(front);
        assert(front.push(name.last()) =~= name);
        assert(seq![front].drop_last().push(name) =~= seq![name]);
    }
}

/// Bytes without a separator, written behind others, lengthen the last piece.
pub proof fn lemma_pieces_extended(bytes: Seq<u8>, name: Seq<u8>)
    requires
        !name.contains(SEPARATOR),
    ensures
        pieces(bytes + name) == pieces(bytes).drop_last().push(pieces(bytes).last() + name),
    decreases name.len(),
{
    lemma_pieces_plain(bytes);
    let all = pieces(bytes);
    if name.len() == 0 {
        assert(bytes + name =~= bytes);
        assert(all.last() + name =~= all.last());
        assert(all.drop_last().push(all.last()) =~= all);
    } else {
        let front = name.drop_last();
        if front.contains(SEPARATOR) {
            let at = choose|at: int| 0 <= at < front.len() && front[at] == SEPARATOR;
            assert(name[at] == SEPARATOR);
        }
        assert(name[name.len() - 1] != SEPARATOR);
        lemma_pieces_extended(bytes, front);
        assert((bytes + name).drop_last() =~= bytes + front);
        let shorter = all.drop_last().push(all.last() + front);
        assert(shorter.drop_last() =~= all.drop_last());
        assert((all.last() + front).push(name.last()) =~= all.last() + name);
    }
}

/// The pieces of a written path are its segments.
pub proof fn lemma_pieces_of_joined(path: Seq<Seq<u8>>)
    requires
        path.len() > 0,
        all_segments(path),
    ensures
        pieces(joined(path)) == path,
    decreases path.len(),
{
    if path.len() == 1 {
        lemma_pieces_of_plain(path[0]);
        assert(seq![path[0]] =~= path);
    } else {
        let front = path.drop_last();
        assert forall|i: int| 0 <= i < front.len() implies is_segment(#[trigger] front[i]) by {
            assert(front[i] == path[i]);
        }
        lemma_pieces_of_joined(front);
        let cut = joined(front) + seq![SEPARATOR];
        assert(cut.drop_last() =~= joined(front));
        assert(pieces(cut) == front.push(Seq::<u8>::empty()));
        lemma_pieces_extended(cut, path.last());
        assert(front.push(Seq::<u8>::empty()).drop_last() =~= front);
        assert(Seq::<u8>::empty() + path.last() =~= path.last());
        assert(front.push(path.last()) =~= path);
    }
}

/// Filtering keeps a sequence whose members all pass.
proof fn lemma_filter_all(items: Seq<Seq<u8>>)
    requires
        forall|i: int| 0 <= i < items.len() ==> is_kept(#[trigger] items[i]),
    ensures
        items.filter(kept_pieces()) == items,
    decreases items.len(),
{
    reveal(Seq::filter);
    if items.len() > 0 {
        let front = items.drop_last();
        assert forall|i: int| 0 <= i < front.len() implies is_kept(#[trigger] front[i]) by {
            assert(front[i] == items[i]);
        }
        lemma_filter_all(front);
        assert(front.push(items.last()) =~= items);
    }
}

/// A path that is written out and read again is the same path.
pub proof fn lemma_written_and_read(path: Seq<Seq<u8>>)
    requires
        all_segments(path),
    ensures
        sanitized(joined(path)) == Some(path),
{
    let climb = seq![DOT, DOT];
    let dot = seq![DOT];
    if path.len() == 0 {
        reveal_with_fuel(Seq::filter, 2);
        let all = pieces(joined(path));
        assert(all == seq![Seq::<u8>::empty()]);
        assert(climb.len() == 2);
        if all.contains(climb) {
            let at = choose|at: int| 0 <= at < all.len() && all[at] == climb;
            assert(all[at].len() == 0);
        }
        assert(all.drop_last() =~= Seq::<Seq<u8>>::empty());
        assert(!is_kept(all.last()));
        assert(all.filter(kept_pieces()) =~= path);
    } else {
        lemma_pieces_of_joined(path);
        if path.contains(climb) {
            let at = choose|at: int| 0 <= at < path.len() && path[at] == climb;
            assert(is_segment(path[at]));
        }
        assert forall|i: int| 0 <= i < path.len() implies is_kept(#[trigger] path[i]) by {
            assert(is_segment(path[i]));
        }
        lemma_filter_all(path);
    }
}

/// What one more piece does to the pieces seen so far.
proof fn lemma_push_piece(closed: Seq<Seq<u8>>, piece: Seq<u8>)
    ensures
        closed.push(piece).filter(kept_pieces()) == if is_kept(piece) {
            closed.filter(kept_pieces()).push(piece)
        } else {
            closed.filter(kept_pieces())
        },
        closed.push(piece).contains(seq![DOT, DOT]) == (closed.contains(seq![DOT, DOT]) || piece
            == seq![DOT, DOT]),
{
    let grown = closed.push(piece);
    let climb = seq![DOT, DOT];
    reveal(Seq::filter);
    assert(grown.drop_last() =~= closed);
    assert(grown.last() == piece);
    if closed.contains(climb) {
        let k = choose|k: int| 0 <= k < closed.len() && closed[k] == climb;
        assert(grown[k] == climb);
    }
    if piece == climb {
        assert(grown[closed.len() as int] == climb);
    }
    if grown.contains(climb) {
        let k = choose|k: int| 0 <= k < grown.len() && grown[k] == climb;
        if k < closed.len() {
            assert(closed[k] == climb);
        }
    }
}

/// Takes `piece` into `segments` where normalising keeps it, and says whether
/// it is `..`.
fn keep_piece(segments: &mut Vec<Vec<u8>>, piece: &[u8]) -> (climbs: bool)
    requires
        !piece@.contains(SEPARATOR),
    ensures
        climbs == (piece@ == seq![DOT, DOT]),
        rows(final(segments)@) == if is_kept(piece@) {
            rows(old(segments)@).push(piece@)
        } else {
            rows(old(segments)@)
        },
{
    let n: usize = piece.len();
    if n == 0 {
        assert(rows(segments@) =~= rows(old(segments)@));
        return false;
    }
    if n == 1 && piece[0] == DOT {
        assert(piece@ =~= seq![DOT]);
        assert(rows(segments@) =~= rows(old(segments)@));
        return false;
    }
    assert(piece@ != seq![DOT]) by {
        if piece@ == seq![DOT] {
            assert(seq![DOT][0] == DOT);
        }
    }
    let climbs = n == 2 && piece[0] == DOT && piece[1] == DOT;
    proof {
        if climbs {
            assert(piece@ =~= seq![DOT, DOT]);
        } else if piece@ == seq![DOT, DOT] {
            assert(seq![DOT, DOT][0] == DOT);
            assert(seq![DOT, DOT][1] == DOT);
        }
    }
    segments.push(slice_to_vec(piece));
    assert(rows(segments@) =~= rows(old(segments)@).push(piece@));
    climbs
}

/// A relative path below a content root. It cannot climb out of the root:
/// each segment is a plain name.
#[derive(Debug, PartialEq, Eq)]
pub struct ContentPath {
    segments: Vec<Vec<u8>>,
}

impl View for ContentPath {
    type V = Seq<Seq<u8>>;

    closed spec fn view(&self) -> Seq<Seq<u8>> {
        rows(self.segments@)
    }
}

impl ContentPath {
    /// What holds of every path: its segments are plain names.
    #[verifier::type_invariant]
    pub open spec fn contained(&self) -> bool {
        all_segments(self@)
    }

    /// The root itself: the path without segments.
    pub fn root() -> (path: ContentPath)
        ensures
            path@ == Seq::<Seq<u8>>::empty(),
    {
        let segments: Vec<Vec<u8>> = Vec::new();
        assert(rows(segments@) =~= Seq::<Seq<u8>>::empty());
        ContentPath { segments }
    }

    /// Reads a path from its bytes: separators part the segments, empty
    /// pieces and `.` are passed over, and a `..` anywhere refuses the path.
    pub fn from_bytes(bytes: &[u8]) -> (path: Option<ContentPath>)
        ensures
            match path {
                Some(p) => sanitized(bytes@) == Some(p@),
                None => sanitized(bytes@) is None,
            },
    {
        let n: usize = bytes.len();
        let mut segments: Vec<Vec<u8>> = Vec::new();
        let mut climbs = false;
        let mut start: usize = 0;
        let mut i: usize = 0;
        let ghost mut closed: Seq<Seq<u8>> = Seq::empty();
        proof {
            reveal(Seq::filter);
            assert(bytes@.take(0) =~= Seq::<u8>::empty());
            assert(closed.push(bytes@.subrange(0, 0)) =~= seq![Seq::<u8>::empty()]);
            assert(rows(segments@) =~= closed.filter(kept_pieces()));
        }
        while i < n
            invariant
                n == bytes@.len(),
                start <= i <= n,
                pieces(bytes@.take(i as int)) == closed.push(
                    bytes@.subrange(start as int, i as int),
                ),
                forall|j: int| start <= j < i ==> bytes@[j] != SEPARATOR,
                climbs == closed.contains(seq![DOT, DOT]),
                rows(segments@) == closed.filter(kept_pieces()),
                forall|k: int|
                    0 <= k < closed.len() ==> !(#[trigger] closed[k]).contains(SEPARATOR),
            decreases n - i,
        {
            let ghost before = bytes@.take(i as int);
            let ghost current = bytes@.subrange(start as int, i as int);
            proof {
                assert(bytes@.take(i + 1).drop_last() =~= before);
                assert(bytes@.take(i + 1).last() == bytes@[i as int]);
            }
            if bytes[i] == SEPARATOR {
                let piece = slice_subrange(bytes, start, i);
                let up = keep_piece(&mut segments, piece);
                climbs = climbs || up;
                proof {
                    lemma_push_piece(closed, piece@);
                    closed = closed.push(piece@);
                    assert(bytes@.subrange(i + 1, i + 1) =~= Seq::<u8>::empty());
                }
                start = i + 1;
            } else {
                proof {
                    assert(closed.push(current).drop_last() =~= closed);
                    assert(current.push(bytes@[i as int]) =~= bytes@.subrange(
                        start as int,
                        i + 1,
                    ));
                }
            }
            i = i + 1;
        }
        let piece = slice_subrange(bytes, start, n);
        let up = keep_piece(&mut segments, piece);
        climbs = climbs || up;
        proof {
            lemma_push_piece(closed, piece@);
            assert(bytes@.take(n as int) =~= bytes@);
        }
        if climbs {
            return None;
        }
        proof {
            let all = closed.push(piece@);
            let found = rows(segments@);
            assert forall|k: int| 0 <= k < found.len() implies is_segment(#[trigger] found[k]) by {
                all.lemma_filter_pred(kept_pieces(), k);
                assert(found.contains(found[k]));
                all.lemma_filter_contains_rev(kept_pieces(), found[k]);
                let at = choose|at: int| 0 <= at < all.len() && all[at] == found[k];
                if at < closed.len() {
                    assert(!closed[at].contains(SEPARATOR));
                }
            }
        }
        Some(ContentPath { segments })
    }

    /// Reads a path from text, as `from_bytes` reads its bytes.
    pub fn parse(text: &str) -> (path: Option<ContentPath>)
        ensures
            match path {
                Some(p) => sanitized(text.spec_bytes()) == Some(p@),
                None => sanitized(text.spec_bytes()) is None,
            },
    {
        ContentPath::from_bytes(text.as_bytes())
    }

    /// The path written out, a separator between its segments.
    pub fn to_bytes(&self) -> (bytes: Vec<u8>)
        ensures
            bytes@ == joined(self@),
    {
        let n: usize = self.segments.len();
        let mut bytes: Vec<u8> = Vec::new();
        let mut i: usize = 0;
        while i < n
            invariant
                n == self.segments@.len(),
                i <= n,
                bytes@ == joined(rows(self.segments@).take(i as int)),
            decreases n - i,
        {
            let ghost done = rows(self.segments@).take(i as int);
            let ghost next = rows(self.segments@).take(i + 1);
            proof {
                assert(next.drop_last() =~= done);
                assert(next.last() == self.segments@[i as int]@);
            }
            if i > 0 {
                bytes.push(SEPARATOR);
            }
            let segment = &self.segments[i];
            let mut j: usize = 0;
            while j < segment.len()
                invariant
                    j <= segment@.len(),
                    bytes@ == (if i > 0 {
                        joined(done) + seq![SEPARATOR]
                    } else {
                        joined(done)
                    }) + segment@.take(j as int),
                decreases segment@.len() - j,
            {
                bytes.push(segment[j]);
                j = j + 1;
                assert(segment@.take(j as int) =~= segment@.take(j - 1).push(segment@[j - 1]));
            }
            assert(segment@.take(j as int) =~= segment@);
            i = i + 1;
        }
        assert(rows(self.segments@).take(n as int) =~= rows(self.segments@));
        bytes
    }

    /// Whether the path is the root.
    pub fn is_root(&self) -> (root: bool)
        ensures
            root == (self@.len() == 0),
    {
        self.segments.len() == 0
    }

    /// The last segment, which names the file or directory; the root has none.
    pub fn file_name(&self) -> (name: Option<&Vec<u8>>)
        ensures
            match name {
                Some(last) => self@.len() > 0 && last@ == self@.last() && is_segment(last@),
                None => self@.len() == 0,
            },
    {
        proof {
            use_type_invariant(self);
        }
        let n: usize = self.segments.len();
        if n == 0 {
            None
        } else {
            Some(&self.segments[n - 1])
        }
    }

    /// The path without its last segment; the root has no parent.
    pub fn parent(&self) -> (up: Option<ContentPath>)
        ensures
            match up {
                Some(dir) => self@.len() > 0 && dir@ == self@.drop_last(),
                None => self@.len() == 0,
            },
    {
        proof {
            use_type_invariant(self);
        }
        let n: usize = self.segments.len();
        if n == 0 {
            return None;
        }
        let segments = copy_rows(&self.segments, n - 1);
        assert(rows(self.segments@).take(n - 1) =~= rows(self.segments@).drop_last());
        Some(ContentPath { segments })
    }

    /// The path one segment deeper, where `name` can stand as a segment.
    pub fn child(&self, name: &[u8]) -> (down: Option<ContentPath>)
        ensures
            match down {
                Some(path) => is_segment(name@) && path@ == self@.push(name@),
                None => !is_segment(name@),
            },
    {
        proof {
            use_type_invariant(self);
        }
        if !check_segment(name) {
            return None;
        }
        let n: usize = self.segments.len();
        let mut segments = copy_rows(&self.segments, n);
        assert(rows(self.segments@).take(n as int) =~= rows(self.segments@));
        segments.push(slice_to_vec(name));
        assert(rows(segments@) =~= rows(self.segments@).push(name@));
        Some(ContentPath { segments })
    }

    /// The path with the extension of its last segment replaced by `ext`,
    /// where the path has a last segment and the new name can stand as one.
    pub fn with_extension(&self, ext: &[u8]) -> (changed: Option<ContentPath>)
        ensures
            match changed {
                Some(path) => self@.len() > 0 && path@ == with_extension(self@, ext@),
                None => self@.len() == 0 || !is_segment(stem(self@.last()) + seq![DOT] + ext@),
            },
    {
        let last = match self.file_name() {
            Some(last) => last,
            None => {
                return None;
            },
        };
        let dir = match self.parent() {
            Some(dir) => dir,
            None => {
                return None;
            },
        };
        let front = file_stem(last.as_slice());
        let mut name = slice_to_vec(front);
        name.push(DOT);
        let ghost base = name@;
        let mut i: usize = 0;
        while i < ext.len()
            invariant
                i <= ext@.len(),
                name@ == base + ext@.take(i as int),
            decreases ext@.len() - i,
        {
            name.push(ext[i]);
            i = i + 1;
            assert(ext@.take(i as int) =~= ext@.take(i - 1).push(ext@[i - 1]));
        }
        assert(ext@.take(i as int) =~= ext@);
        assert(name@ =~= stem(self@.last()) + seq![DOT] + ext@);
        dir.child(name.as_slice())
    }

    /// The path `other` taken below this one.
    pub fn join(&self, other: &ContentPath) -> (whole: ContentPath)
        ensures
            whole@ == self@ + other@,
    {
        proof {
            use_type_invariant(self);
            use_type_invariant(other);
        }
        let mut segments = copy_rows(&self.segments, self.segments.len());
        let n: usize = other.segments.len();
        let ghost front = rows(self.segments@);
        assert(front.take(front.len() as int) =~= front);
        let mut i: usize = 0;
        while i < n
            invariant
                n == other.segments@.len(),
                i <= n,
                rows(segments@) == front + rows(other.segments@).take(i as int),
            decreases n - i,
        {
            let ghost before = rows(segments@);
            segments.push(slice_to_vec(other.segments[i].as_slice()));
            i = i + 1;
            assert(rows(segments@) =~= before.push(other.segments@[i - 1]@));
            assert(rows(segments@) =~= front + rows(other.segments@).take(i as int));
        }
        assert(rows(other.segments@).take(n as int) =~= rows(other.segments@));
        ContentPath { segments }
    }

    /// A copy of the path.
    pub fn duplicate(&self) -> (copy: ContentPath)
        ensures
            copy@ == self@,
    {
        proof {
            use_type_invariant(self);
        }
        let n: usize = self.segments.len();
        let segments = copy_rows(&self.segments, n);
        assert(rows(self.segments@).take(n as int) =~= rows(self.segments@));
        ContentPath { segments }
    }
}

} // verus!
