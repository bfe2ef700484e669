//! File names as bytes: stem, extension and what may stand as one path segment.

use vstd::prelude::*;
use vstd::slice::slice_subrange;

verus! {

/// The byte that parts the segments of a path.
pub const SEPARATOR: u8 = 0x2f;

/// The byte that parts a name's stem from its extension.
pub const DOT: u8 = 0x2e;

/// Index of the last dot in `name`, or -1 where it holds none.
pub open spec fn last_dot(name: Seq<u8>) -> int
    decreases name.len(),
{
    if name.len() == 0 {
        -1
    } else if name.last() == DOT {
        name.len() - 1
    } else {
        last_dot(name.drop_last())
    }
}

/// A name has an extension where a dot stands in it that does not lead it:
/// `.profile` has none, `notes.` has the empty one.
pub open spec fn has_extension(name: Seq<u8>) -> bool {
    last_dot(name) > 0
}

/// What stands before the last dot; the whole name where it has no extension.
pub open spec fn stem(name: Seq<u8>) -> Seq<u8> {
    if has_extension(name) {
        name.take(last_dot(name))
    } else {
        name
    }
}

/// What stands behind the last dot, if the name has an extension.
pub open spec fn extension(name: Seq<u8>) -> Option<Seq<u8>> {
    if has_extension(name) {
        Some(name.skip(last_dot(name) + 1))
    } else {
        None
    }
}

/// A name that can stand as one segment of a path: not empty, free of
/// separators, and neither `.` nor `..`.
pub open spec fn is_segment(name: Seq<u8>) -> bool {
    &&& name.len() > 0
    &&& !name.contains(SEPARATOR)
    &&& name != seq![DOT]
    &&& name != seq![DOT, DOT]
}

/// The extension that marks a sidecar: `toml`.
pub open spec fn sidecar_extension() -> Seq<u8> {
    seq![0x74u8, 0x6fu8, 0x6du8, 0x6cu8]
}

/// The extension that marks a Markdown file: `md`.
pub open spec fn markdown_extension() -> Seq<u8> {
    seq![0x6du8, 0x64u8]
}

/// A name is a sidecar's where its extension is the sidecar extension.
pub open spec fn is_sidecar(name: Seq<u8>) -> bool {
    extension(name) == Some(sidecar_extension())
}

/// `last_dot` points at a dot, and no dot follows it.
pub proof fn lemma_last_dot(name: Seq<u8>)
    ensures
        -1 <= last_dot(name) < name.len(),
        last_dot(name) >= 0 ==> name[last_dot(name)] == DOT,
        forall|j: int| last_dot(name) < j < name.len() ==> name[j] != DOT,
    decreases name.len(),
{
    if name.len() > 0 && name.last() != DOT {
        let front = name.drop_last();
        lemma_last_dot(front);
        assert forall|j: int| last_dot(name) < j < name.len() implies name[j] != DOT by {
            if j < front.len() {
                assert(front[j] == name[j]);
            }
        }
    }
}

/// A dot with none behind it is the last one.
pub proof fn lemma_last_dot_unique(name: Seq<u8>, i: int)
    requires
        0 <= i < name.len(),
        name[i] == DOT,
        forall|j: int| i < j < name.len() ==> name[j] != DOT,
    ensures
        last_dot(name) == i,
    decreases name.len(),
{
    if name.last() != DOT {
        lemma_last_dot_unique(name.drop_last(), i);
    }
}

/// A name without any dot has no last dot.
pub proof fn lemma_last_dot_none(name: Seq<u8>)
    requires
        forall|j: int| 0 <= j < name.len() ==> name[j] != DOT,
    ensures
        last_dot(name) == -1,
    decreases name.len(),
{
    if name.len() > 0 {
        lemma_last_dot_none(name.drop_last());
    }
}

/// Where the last dot of `name` stands.
pub fn find_last_dot(name: &[u8]) -> (found: Option<usize>)
    ensures
        match found {
            Some(i) => i == last_dot(name@) && i < name@.len() && name@[i as int] == DOT,
            None => last_dot(name@) == -1,
        },
{
    let mut i: usize = name.len();
    while i > 0
        invariant
            i <= name@.len(),
            forall|j: int| i <= j < name@.len() ==> name@[j] != DOT,
        decreases i,
    {
        i = i - 1;
        if name[i] == DOT {
            proof {
                lemma_last_dot_unique(name@, i as int);
            }
            return Some(i);
        }
    }
    proof {
        lemma_last_dot_none(name@);
    }
    None
}

/// The stem of `name`.
pub fn file_stem(name: &[u8]) -> (out: &[u8])
    ensures
        out@ == stem(name@),
{
    match find_last_dot(name) {
        Some(i) => {
            if i > 0 {
                let out = slice_subrange(name, 0, i);
                out
            } else {
                name
            }
        },
        None => name,
    }
}

/// The extension of `name`, if it has one.
pub fn file_extension(name: &[u8]) -> (out: Option<&[u8]>)
    ensures
        match out {
            Some(ext) => extension(name@) == Some(ext@),
            None => extension(name@) is None,
        },
{
    match find_last_dot(name) {
        Some(i) => {
            if i > 0 {
                assert(i < name.len());
                let out = slice_subrange(name, i + 1, name.len());
                Some(out)
            } else {
                None
            }
        },
        None => None,
    }
}

/// A name with an extension is its stem, a dot and the extension.
pub proof fn lemma_stem_dot_extension(name: Seq<u8>)
    requires
        has_extension(name),
    ensures
        name == stem(name) + seq![DOT] + extension(name)->0,
        stem(name).len() > 0,
{
    lemma_last_dot(name);
    assert(name =~= stem(name) + seq![DOT] + extension(name)->0);
}

/// The stem and the extension that a dotted name was put together from come
/// out of it again, where the extension holds no dot and the stem is not empty.
pub proof fn lemma_compose(front: Seq<u8>, ext: Seq<u8>)
    requires
        front.len() > 0,
        forall|j: int| 0 <= j < ext.len() ==> ext[j] != DOT,
    ensures
        stem(front + seq![DOT] + ext) == front,
        extension(front + seq![DOT] + ext) == Some(ext),
{
    let name = front + seq![DOT] + ext;
    lemma_last_dot_unique(name, front.len() as int);
    assert(name.take(front.len() as int) =~= front);
    assert(name.skip(front.len() as int + 1) =~= ext);
}

/// A name that can stand as a segment still can when its extension is
/// replaced by one that is not empty and holds no separator.
pub proof fn lemma_extended_segment(name: Seq<u8>, ext: Seq<u8>)
    requires
        is_segment(name),
        ext.len() > 0,
        !ext.contains(SEPARATOR),
    ensures
        is_segment(stem(name) + seq![DOT] + ext),
{
    let front = stem(name);
    let whole = front + seq![DOT] + ext;
    lemma_last_dot(name);
    assert(front.len() > 0);
    assert(whole.len() >= 3);
    assert(seq![DOT].len() == 1);
    assert(seq![DOT, DOT].len() == 2);
    if whole.contains(SEPARATOR) {
        let k = choose|k: int| 0 <= k < whole.len() && whole[k] == SEPARATOR;
        if k < front.len() {
            assert(name[k] == SEPARATOR);
            assert(name.contains(SEPARATOR));
        } else if k > front.len() {
            assert(ext[k - front.len() - 1] == SEPARATOR);
            assert(ext.contains(SEPARATOR));
        }
    }
}

/// Whether `ext` is the sidecar extension.
pub fn is_sidecar_extension(ext: &[u8]) -> (yes: bool)
    ensures
        yes == (ext@ == sidecar_extension()),
{
    let yes = ext.len() == 4 && ext[0] == 0x74 && ext[1] == 0x6f && ext[2] == 0x6d && ext[3]
        == 0x6c;
    proof {
        let want = sidecar_extension();
        if yes {
            assert(ext@ =~= want);
        } else if ext@ == want {
            assert(want.len() == 4);
            assert(want[0] == 0x74 && want[1] == 0x6f && want[2] == 0x6d && want[3] == 0x6c);
        }
    }
    yes
}

/// Whether `ext` is the Markdown extension.
pub fn is_markdown_extension(ext: &[u8]) -> (yes: bool)
    ensures
        yes == (ext@ == markdown_extension()),
{
    let yes = ext.len() == 2 && ext[0] == 0x6d && ext[1] == 0x64;
    proof {
        let want = markdown_extension();
        if yes {
            assert(ext@ =~= want);
        } else if ext@ == want {
            assert(want.len() == 2);
            assert(want[0] == 0x6d && want[1] == 0x64);
        }
    }
    yes
}

/// Whether `name` is a sidecar's name.
pub fn is_sidecar_name(name: &[u8]) -> (yes: bool)
    ensures
        yes == is_sidecar(name@),
{
    match file_extension(name) {
        Some(ext) => is_sidecar_extension(ext),
        None => false,
    }
}

/// Whether two byte strings hold the same bytes.
pub fn same_bytes(a: &[u8], b: &[u8]) -> (same: bool)
    ensures
        same == (a@ == b@),
{
    if a.len() != b.len() {
        return false;
    }
    let mut i: usize = 0;
    while i < a.len()
        invariant
            i <= a@.len(),
            a@.len() == b@.len(),
            forall|j: int| 0 <= j < i ==> a@[j] == b@[j],
        decreases a@.len() - i,
    {
        if a[i] != b[i] {
            return false;
        }
        i = i + 1;
    }
    assert(a@ =~= b@);
    true
}

/// Whether `name` can stand as one segment of a path.
pub fn check_segment(name: &[u8]) -> (ok: bool)
    ensures
        ok == is_segment(name@),
{
    let n: usize = name.len();
    if n == 0 {
        return false;
    }
    if n == 1 && name[0] == DOT {
        assert(name@ =~= seq![DOT]);
        return false;
    }
    if n == 2 && name[0] == DOT && name[1] == DOT {
        assert(name@ =~= seq![DOT, DOT]);
        return false;
    }
    let mut i: usize = 0;
    while i < n
        invariant
            i <= n,
            n == name@.len(),
            forall|j: int| 0 <= j < i ==> name@[j] != SEPARATOR,
        decreases n - i,
    {
        if name[i] == SEPARATOR {
            return false;
        }
        i = i + 1;
    }
    assert(name@ != seq![DOT]) by {
        if name@ == seq![DOT] {
            assert(seq![DOT][0] == DOT);
        }
    }
    assert(name@ != seq![DOT, DOT]) by {
        if name@ == seq![DOT, DOT] {
            assert(seq![DOT, DOT][0] == DOT);
            assert(seq![DOT, DOT][1] == DOT);
        }
    }
    true
}

} // verus!
