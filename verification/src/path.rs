//! What a request path says about the file it may name: whether it looks like
//! a file at all, and which extension it ends in.

use vstd::prelude::*;
use vstd::slice::slice_subrange;
use crate::chars::{is_whitespace, whitespace};

verus! {

/// Whether the dot at position `i` of `path` stands between two characters
/// that are not white space.
pub open spec fn dot_between(path: Seq<char>, i: int) -> bool {
    &&& 0 < i < path.len() - 1
    &&& path[i] == '.'
    &&& !whitespace(path[i - 1])
    &&& !whitespace(path[i + 1])
}

/// Whether `path` looks like the name of a file: somewhere in it stand one or
/// more characters that are not white space, a dot, and again one or more
/// characters that are not white space.
pub open spec fn file_like(path: Seq<char>) -> bool {
    exists|i: int| dot_between(path, i)
}

/// The position of the last `c` in `s`, or -1 where `s` holds none.
pub open spec fn last_position(s: Seq<char>, c: char) -> int
    decreases s.len(),
{
    if s.len() == 0 {
        -1
    } else if s.last() == c {
        s.len() - 1
    } else {
        last_position(s.drop_last(), c)
    }
}

/// The last segment of `path`: what follows its last slash, or all of it
/// where it holds no slash.
pub open spec fn final_segment(path: Seq<char>) -> Seq<char> {
    path.subrange(last_position(path, '/') + 1, path.len() as int)
}

/// The extension of `path`: what follows the last dot of its last segment.
/// A last segment without a dot has none.
pub open spec fn extension_of(path: Seq<char>) -> Option<Seq<char>> {
    let segment = final_segment(path);
    let dot = last_position(segment, '.');
    if dot < 0 {
        None
    } else {
        Some(segment.subrange(dot + 1, segment.len() as int))
    }
}

/// What `last_position` finds: a place that holds `c` with no `c` behind it,
/// or -1 and no `c` anywhere.
pub proof fn lemma_last_position(s: Seq<char>, c: char)
    ensures
        -1 <= last_position(s, c) < s.len(),
        last_position(s, c) >= 0 ==> s[last_position(s, c)] == c,
        forall|i: int| last_position(s, c) < i < s.len() ==> s[i] != c,
    decreases s.len(),
{
    if s.len() > 0 && s.last() != c {
        lemma_last_position(s.drop_last(), c);
        assert forall|i: int| last_position(s, c) < i < s.len() implies s[i] != c by {
            if i < s.len() - 1 {
                assert(s.drop_last()[i] == s[i]);
            }
        }
    }
}

/// Tells whether `path` looks like the name of a file.
pub fn is_file_like(path: &[char]) -> (b: bool)
    ensures
        b == file_like(path@),
{
    let n: usize = path.len();
    if n < 3 {
        return false;
    }
    let mut i: usize = 1;
    while i < n - 1
        invariant
            1 <= i <= n - 1,
            n == path@.len(),
            forall|k: int| 0 <= k < i ==> !dot_between(path@, k),
        decreases n - i,
    {
        if path[i] == '.' && !is_whitespace(path[i - 1]) && !is_whitespace(path[i + 1]) {
            assert(dot_between(path@, i as int));
            return true;
        }
        i += 1;
    }
    false
}

/// Finds the last `c` in `s`: the position after it, or 0 where there is none.
fn after_last(s: &[char], c: char) -> (i: usize)
    ensures
        i == last_position(s@, c) + 1,
        i <= s@.len(),
{
    let mut i: usize = s.len();
    assert(s@.take(i as int) == s@);
    while i > 0 && s[i - 1] != c
        invariant
            i <= s@.len(),
            last_position(s@, c) == last_position(s@.take(i as int), c),
        decreases i,
    {
        assert(s@.take(i as int).drop_last() == s@.take(i - 1));
        i -= 1;
    }
    i
}

/// Finds the extension of `path`.
pub fn extension(path: &[char]) -> (ext: Option<&[char]>)
    ensures
        match ext {
            Some(e) => extension_of(path@) == Some(e@),
            None => extension_of(path@) is None,
        },
{
    let start: usize = after_last(path, '/');
    let segment = slice_subrange(path, start, path.len());
    let dot: usize = after_last(segment, '.');
    if dot == 0 {
        None
    } else {
        Some(slice_subrange(segment, dot, segment.len()))
    }
}

} // verus!
