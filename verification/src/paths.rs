//! The rules on relative paths.
//!
//! A relative path is text with `/` between its segments, as the remote host
//! writes it. Paths that come from the local file system are brought to that
//! form first, so that equal files have equal paths on both sides.

use vstd::prelude::*;
use vstd::slice::slice_subrange;
use crate::text::{chars_of, string_of, same_chars};

verus! {

/// The path with every backslash turned into a forward slash.
pub open spec fn normalized(path: Seq<char>) -> Seq<char> {
    Seq::new(
        path.len(),
        |i: int|
            if path[i] == '\\' {
                '/'
            } else {
                path[i]
            },
    )
}

/// No separator occurs in the text.
pub open spec fn separator_free(text: Seq<char>) -> bool {
    forall|i: int| 0 <= i < text.len() ==> text[i] != '/'
}

/// The path's first segment begins with a dot: version-control metadata and
/// the like, which take no part in a run. A path that climbs out of the root
/// with `..` begins with a dot too.
pub open spec fn is_hidden(path: Seq<char>) -> bool {
    path.len() > 0 && path[0] == '.'
}

/// The character parts segments on some file system.
pub open spec fn is_separator(c: char) -> bool {
    c == '/' || c == '\\'
}

/// A segment `..` begins at position `at`.
pub open spec fn parent_segment_at(path: Seq<char>, at: int) -> bool {
    &&& 0 <= at
    &&& at + 2 <= path.len()
    &&& path[at] == '.'
    &&& path[at + 1] == '.'
    &&& (at == 0 || is_separator(path[at - 1]))
    &&& (at + 2 == path.len() || is_separator(path[at + 2]))
}

/// The path has a segment `..`, by which it could leave the root.
pub open spec fn climbs(path: Seq<char>) -> bool {
    exists|at: int| parent_segment_at(path, at)
}

/// Two separators stand side by side at position `at`.
pub open spec fn empty_segment_at(path: Seq<char>, at: int) -> bool {
    0 <= at < path.len() - 1 && path[at] == '/' && path[at + 1] == '/'
}

/// A segment of the path is empty: the path is empty, begins or ends with
/// the separator, or has two of them in a row.
pub open spec fn has_empty_segment(path: Seq<char>) -> bool {
    ||| path.len() == 0
    ||| path[0] == '/'
    ||| path.last() == '/'
    ||| exists|at: int| empty_segment_at(path, at)
}

/// Every segment of the path has a name, and none is `..`: the path names a
/// place below the root.
pub open spec fn is_clean(path: Seq<char>) -> bool {
    !has_empty_segment(path) && !climbs(path)
}

/// The path that a name from one of the two sides stands for: none for an
/// empty name and for one whose first segment begins with a dot, which
/// take no part in a run; else the name with `/` between its segments.
pub open spec fn candidate(name: Seq<char>) -> Option<Seq<char>> {
    if name.len() == 0 || is_hidden(name) {
        None
    } else {
        Some(normalized(name))
    }
}

/// The path is one that a record of an inventory bears: it names a file in
/// one way only. Every segment has a name, a backslash occurs nowhere, the
/// first segment does not begin with a dot, and no segment is `..`, so
/// that the path stays below the root.
pub open spec fn is_relative(path: Seq<char>) -> bool {
    &&& !has_empty_segment(path)
    &&& !path.contains('\\')
    &&& !is_hidden(path)
    &&& !climbs(path)
}

/// The last segment of a path: what follows its last separator, or all of
/// it where it has none.
pub open spec fn file_name(path: Seq<char>) -> Seq<char>
    decreases path.len(),
{
    if path.len() == 0 || path.last() == '/' {
        Seq::empty()
    } else {
        file_name(path.drop_last()).push(path.last())
    }
}

/// The file names that desktop systems scatter by themselves. A local file
/// of such a name is never removed, though the remote side has none.
pub open spec fn is_noise_marker(name: Seq<char>) -> bool {
    name == ".DS_Store"@ || name == "Thumbs.db"@
}

/// `root` is what stands in `name` up to and including its first separator.
pub open spec fn is_root_of(root: Seq<char>, name: Seq<char>) -> bool {
    &&& root.len() >= 1
    &&& root.is_prefix_of(name)
    &&& root.last() == '/'
    &&& separator_free(root.drop_last())
}

/// The leading directory of a name: the name up to and including its first
/// separator. A name without a separator has none.
pub open spec fn leading_dir(name: Seq<char>) -> Option<Seq<char>> {
    if separator_free(name) {
        None
    } else {
        Some(choose|root: Seq<char>| is_root_of(root, name))
    }
}

/// What is left of `name` behind `prefix`, where it begins with it.
pub open spec fn stripped(name: Seq<char>, prefix: Seq<char>) -> Option<Seq<char>> {
    if prefix.is_prefix_of(name) {
        Some(name.skip(prefix.len() as int))
    } else {
        None
    }
}

/// Brings a path of the local file system to the form of the remote side.
pub fn normalize_separators(path: &str) -> (out: String)
    ensures
        out@ == normalized(path@),
{
    let chars = chars_of(path);
    let mut out: Vec<char> = Vec::new();
    let mut i: usize = 0;
    while i < chars.len()
        invariant
            i <= chars.len(),
            out@ == normalized(chars@).take(i as int),
        decreases chars.len() - i,
    {
        let c = chars[i];
        if c == '\\' {
            out.push('/');
        } else {
            out.push(c);
        }
        i += 1;
        assert(out@ =~= normalized(chars@).take(i as int));
    }
    assert(out@ =~= normalized(chars@));
    string_of(out.as_slice())
}

/// Whether the path's first segment begins with a dot.
pub fn has_hidden_root(path: &str) -> (hidden: bool)
    ensures
        hidden == is_hidden(path@),
{
    let chars = chars_of(path);
    chars.len() > 0 && chars[0] == '.'
}

/// Whether every segment of the path has a name and none is `..`.
pub fn is_clean_path(path: &str) -> (clean: bool)
    ensures
        clean == is_clean(path@),
{
    let chars = chars_of(path);
    let total: usize = chars.len();
    if total == 0 || chars[0] == '/' || chars[total - 1] == '/' {
        return false;
    }
    let mut at: usize = 0;
    while at + 1 < total
        invariant
            0 < total == chars@.len(),
            at < total,
            chars@ == path@,
            forall|j: int| 0 <= j < at ==> !empty_segment_at(chars@, j),
            forall|j: int| 0 <= j < at ==> !parent_segment_at(chars@, j),
        decreases total - at,
    {
        if chars[at] == '/' && chars[at + 1] == '/' {
            assert(empty_segment_at(chars@, at as int));
            return false;
        }
        if chars[at] == '.' && chars[at + 1] == '.' {
            let opens = at == 0 || chars[at - 1] == '/' || chars[at - 1] == '\\';
            let closes = at + 2 == total || chars[at + 2] == '/' || chars[at + 2] == '\\';
            if opens && closes {
                assert(parent_segment_at(chars@, at as int));
                return false;
            }
        }
        at += 1;
    }
    assert forall|j: int| !parent_segment_at(chars@, j) by {
        if 0 <= j && j + 2 <= total {
            assert(j < at);
        }
    }
    assert forall|j: int| !empty_segment_at(chars@, j) by {
        if 0 <= j < total - 1 {
            assert(j < at);
        }
    }
    true
}

/// The path that a name from one of the two sides stands for.
pub fn candidate_path(name: &str) -> (path: Option<String>)
    ensures
        match path {
            Some(p) => candidate(name@) == Some(p@),
            None => candidate(name@) is None,
        },
{
    if name.is_empty() || has_hidden_root(name) {
        None
    } else {
        Some(normalize_separators(name))
    }
}

/// The last segment of a path.
pub fn file_name_of(path: &str) -> (name: String)
    ensures
        name@ == file_name(path@),
{
    let chars = chars_of(path);
    let total: usize = chars.len();
    let mut start: usize = total;
    proof {
        assert(chars@.take(total as int) =~= chars@);
        assert(file_name(chars@) + chars@.skip(total as int) =~= file_name(chars@));
    }
    while start > 0 && chars[start - 1] != '/'
        invariant
            start <= total == chars@.len(),
            file_name(chars@) == file_name(chars@.take(start as int)) + chars@.skip(start as int),
        decreases start,
    {
        proof {
            let head = chars@.take(start as int);
            assert(head.drop_last() =~= chars@.take(start - 1));
            assert(file_name(head) == file_name(chars@.take(start - 1)).push(head.last()));
            assert(file_name(chars@.take(start - 1)).push(head.last()) + chars@.skip(start as int)
                =~= file_name(chars@.take(start - 1)) + chars@.skip(start - 1));
        }
        start -= 1;
    }
    proof {
        assert(file_name(chars@.take(start as int)) =~= Seq::<char>::empty());
        assert(chars@.take(0) =~= Seq::<char>::empty());
        assert(file_name(chars@) =~= chars@.skip(start as int));
    }
    string_of(slice_subrange(chars.as_slice(), start, total))
}

/// Whether a file of this name is one that desktop systems leave behind.
pub fn is_noise_name(name: &str) -> (noise: bool)
    ensures
        noise == is_noise_marker(name@),
{
    let chars = chars_of(name);
    let finder = chars_of(".DS_Store");
    let thumbs = chars_of("Thumbs.db");
    same_chars(chars.as_slice(), finder.as_slice()) || same_chars(
        chars.as_slice(),
        thumbs.as_slice(),
    )
}

/// The leading directory that an archive entry's name stands under: the name
/// up to and including its first separator. A name without a separator has
/// none.
pub fn archive_root(name: &str) -> (root: Option<String>)
    ensures
        match root {
            Some(r) => is_root_of(r@, name@) && leading_dir(name@) == Some(r@),
            None => separator_free(name@) && leading_dir(name@) is None,
        },
{
    let chars = chars_of(name);
    let mut i: usize = 0;
    while i < chars.len()
        invariant
            i <= chars.len(),
            chars@ == name@,
            separator_free(chars@.take(i as int)),
        decreases chars.len() - i,
    {
        if chars[i] == '/' {
            let root = string_of(slice_subrange(chars.as_slice(), 0, i + 1));
            proof {
                assert(root@ =~= chars@.take(i + 1));
                assert(root@.drop_last() =~= chars@.take(i as int));
                assert(root@.last() == '/');
                assert(root@.is_prefix_of(chars@));
                assert(name@[i as int] == '/');
                assert(is_root_of(root@, name@));
                let chosen = choose|r: Seq<char>| is_root_of(r, name@);
                lemma_root_unique(chosen, root@, name@);
            }
            return Some(root);
        }
        i += 1;
    }
    assert(chars@.take(i as int) =~= chars@);
    None
}

/// Takes the leading directory off an entry's name. `None` where the name
/// does not stand under it.
pub fn strip_root(name: &str, root: &str) -> (rest: Option<String>)
    ensures
        match rest {
            Some(r) => stripped(name@, root@) == Some(r@),
            None => stripped(name@, root@) is None,
        },
{
    let chars = chars_of(name);
    let lead = chars_of(root);
    if crate::text::starts_with(chars.as_slice(), lead.as_slice()) {
        Some(string_of(slice_subrange(chars.as_slice(), lead.len(), chars.len())))
    } else {
        None
    }
}

/// Two roots of one name are the same text: a name has one leading directory.
pub proof fn lemma_root_unique(a: Seq<char>, b: Seq<char>, name: Seq<char>)
    requires
        is_root_of(a, name),
        is_root_of(b, name),
    ensures
        a == b,
{
    if a.len() < b.len() {
        assert(b.drop_last()[a.len() - 1] == a.last());
    } else if b.len() < a.len() {
        assert(a.drop_last()[b.len() - 1] == b.last());
    }
    assert(a =~= b);
}

} // verus!
