//! Paths as text: the name of a file, its stem, and a path below a directory.

use crate::text::chars_of;
use vstd::prelude::*;

verus! {

/// What separates the parts of a path.
pub const SEPARATOR: &'static str = "/";

/// The position of the last `c` in `s`, or -1 where `s` holds none.
pub open spec fn last_index_of(s: Seq<char>, c: char) -> int
    decreases s.len(),
{
    if s.len() == 0 {
        -1
    } else if s.last() == c {
        s.len() - 1
    } else {
        last_index_of(s.drop_last(), c)
    }
}

/// The name of the file that `path` leads to: what follows its last `/`, or
/// all of it where it holds none.
pub open spec fn file_name(path: Seq<char>) -> Seq<char> {
    path.skip(last_index_of(path, '/') + 1)
}

/// The stem of a file name: the name without its extension. The extension
/// begins at the last `.` of the name, unless that is its first character.
pub open spec fn file_stem(name: Seq<char>) -> Seq<char> {
    let dot = last_index_of(name, '.');
    if dot <= 0 {
        name
    } else {
        name.take(dot)
    }
}

/// The path of `name` below the directory `dir`.
pub open spec fn join_path(dir: Seq<char>, name: Seq<char>) -> Seq<char> {
    dir + SEPARATOR@ + name
}

/// `last_index_of` gives a position of `c`, behind which there is no other.
pub proof fn lemma_last_index_of(s: Seq<char>, c: char)
    ensures
        -1 <= last_index_of(s, c) < s.len(),
        last_index_of(s, c) >= 0 ==> s[last_index_of(s, c)] == c,
        forall|i: int| last_index_of(s, c) < i < s.len() ==> s[i] != c,
    decreases s.len(),
{
    if s.len() > 0 && s.last() != c {
        let front = s.drop_last();
        lemma_last_index_of(front, c);
        assert forall|i: int| last_index_of(s, c) < i < s.len() implies s[i] != c by {
            if i < front.len() {
                assert(front[i] == s[i]);
            }
        }
    }
}

/// The position of the last `c` in `v`, if it holds one.
fn find_last(v: &Vec<char>, c: char) -> (found: Option<usize>)
    ensures
        match found {
            Some(i) => i < v.len() && i == last_index_of(v@, c),
            None => last_index_of(v@, c) == -1,
        },
{
    let mut i: usize = v.len();
    assert(v@.take(i as int) == v@);
    while i > 0
        invariant
            i <= v.len(),
            last_index_of(v@, c) == last_index_of(v@.take(i as int), c),
        decreases i,
    {
        if v[i - 1] == c {
            return Some(i - 1);
        }
        assert(v@.take(i as int).drop_last() == v@.take(i - 1));
        i -= 1;
    }
    None
}

/// The name of the file that `path` leads to.
pub fn file_name_of(path: &str) -> (name: &str)
    ensures
        name@ == file_name(path@),
{
    let chars = chars_of(path);
    let n = chars.len();
    match find_last(&chars, '/') {
        Some(i) => {
            assert(path@.skip(i + 1) == path@.subrange(i + 1, n as int));
            path.substring_char(i + 1, n)
        },
        None => {
            assert(path@.skip(0) == path@);
            path
        },
    }
}

/// The stem of the file name `name`.
pub fn file_stem_of(name: &str) -> (stem: &str)
    ensures
        stem@ == file_stem(name@),
{
    let chars = chars_of(name);
    match find_last(&chars, '.') {
        Some(i) => {
            if i == 0 {
                name
            } else {
                assert(name@.take(i as int) == name@.subrange(0, i as int));
                name.substring_char(0, i)
            }
        },
        None => name,
    }
}

/// The path of `name` below the directory `dir`.
pub fn join_paths(dir: &str, name: &str) -> (path: String)
    ensures
        path@ == join_path(dir@, name@),
{
    let mut path = String::new();
    path.append(dir);
    path.append(SEPARATOR);
    path.append(name);
    path
}

} // verus!
