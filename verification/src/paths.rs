//! Paths as strings whose parts are separated by `/`. A path is taken as it
//! is written: a separator at its end and the parts `.` and `..` have no
//! meaning of their own.

use vstd::prelude::*;
use vstd::string::{StrSliceExecFns, StringExecFns};

verus! {

/// The offset of the last `c` in `s`, or -1 where `s` holds none.
pub open spec fn last_index_of(s: Seq<char>, c: char) -> int
    decreases s.len(),
{
    if s.len() == 0 {
        -1
    } else if s.last() == c {
        s.len() - 1
    } else {
        last_index_of(s.drop_last(), c)
    }
}

/// `last_index_of` is below the length, and what it finds is a `c` after
/// which no other follows.
pub proof fn lemma_last_index_of(s: Seq<char>, c: char)
    ensures
        -1 <= last_index_of(s, c) < s.len(),
        last_index_of(s, c) >= 0 ==> s[last_index_of(s, c)] == c,
        forall|j: int| last_index_of(s, c) < j < s.len() ==> s[j] != c,
    decreases s.len(),
{
    if s.len() > 0 && s.last() != c {
        lemma_last_index_of(s.drop_last(), c);
        assert forall|j: int| last_index_of(s, c) < j < s.len() implies s[j] != c by {
            if j < s.len() - 1 {
                assert(s.drop_last()[j] == s[j]);
            }
        }
    }
}

/// `dir` with `name` below it: `name` alone where it starts at the root or
/// `dir` is empty, else `dir`, a separator unless `dir` ends with one, and
/// `name`.
pub open spec fn join_spec(dir: Seq<char>, name: Seq<char>) -> Seq<char> {
    if name.len() > 0 && name[0] == '/' {
        name
    } else if dir.len() == 0 {
        name
    } else if dir.last() == '/' {
        dir + name
    } else {
        dir + seq!['/'] + name
    }
}

/// The last part of `path`: what follows its last separator.
pub open spec fn file_name_spec(path: Seq<char>) -> Seq<char> {
    path.subrange(last_index_of(path, '/') + 1, path.len() as int)
}

/// `path` up to and with its last separator; empty where it has none.
pub open spec fn dir_prefix_spec(path: Seq<char>) -> Seq<char> {
    path.subrange(0, last_index_of(path, '/') + 1)
}

/// The file name of `path` without its extension: up to its last dot,
/// unless the name has none or starts with it.
pub open spec fn file_stem_spec(path: Seq<char>) -> Seq<char> {
    let name = file_name_spec(path);
    let dot = last_index_of(name, '.');
    if dot <= 0 {
        name
    } else {
        name.subrange(0, dot)
    }
}

/// Finds the last `c` in `s`.
pub fn rfind_char(s: &str, c: char) -> (found: Option<usize>)
    ensures
        match found {
            Some(i) => i == last_index_of(s@, c),
            None => last_index_of(s@, c) == -1,
        },
{
    let mut i: usize = s.unicode_len();
    proof {
        assert(s@.subrange(0, i as int) =~= s@);
    }
    while i > 0
        invariant
            i <= s@.len(),
            last_index_of(s@, c) == last_index_of(s@.subrange(0, i as int), c),
        decreases i,
    {
        let ghost head = s@.subrange(0, i as int);
        proof {
            assert(head.last() == s@[i - 1]);
            assert(head.drop_last() =~= s@.subrange(0, i - 1));
        }
        if s.get_char(i - 1) == c {
            return Some(i - 1);
        }
        i -= 1;
    }
    None
}

/// Puts `name` below `dir`.
pub fn join_path(dir: &str, name: &str) -> (path: String)
    ensures
        path@ == join_spec(dir@, name@),
{
    let name_len = name.unicode_len();
    let dir_len = dir.unicode_len();
    if name_len > 0 && name.get_char(0) == '/' {
        return String::from_str(name);
    }
    if dir_len == 0 {
        return String::from_str(name);
    }
    let mut path = String::from_str(dir);
    if dir.get_char(dir_len - 1) != '/' {
        proof {
            reveal_strlit("/");
            assert("/"@ =~= seq!['/']);
        }
        path.append("/");
    }
    path.append(name);
    path
}

/// The last part of `path`.
pub fn file_name(path: &str) -> (name: String)
    ensures
        name@ == file_name_spec(path@),
{
    proof {
        lemma_last_index_of(path@, '/');
    }
    let len = path.unicode_len();
    let start: usize = match rfind_char(path, '/') {
        Some(i) => i + 1,
        None => 0,
    };
    String::from_str(path.substring_char(start, len))
}

/// `path` up to and with its last separator.
pub fn dir_prefix(path: &str) -> (prefix: String)
    ensures
        prefix@ == dir_prefix_spec(path@),
{
    proof {
        lemma_last_index_of(path@, '/');
    }
    let len = path.unicode_len();
    let end: usize = match rfind_char(path, '/') {
        Some(i) => i + 1,
        None => 0,
    };
    String::from_str(path.substring_char(0, end))
}

/// The file name of `path` without its extension.
pub fn file_stem(path: &str) -> (stem: String)
    ensures
        stem@ == file_stem_spec(path@),
{
    let name = file_name(path);
    proof {
        lemma_last_index_of(name@, '.');
    }
    match rfind_char(name.as_str(), '.') {
        Some(dot) => {
            if dot == 0 {
                name
            } else {
                String::from_str(name.as_str().substring_char(0, dot))
            }
        },
        None => name,
    }
}

/// `s` ends with `suffix`.
pub open spec fn ends_with_spec(s: Seq<char>, suffix: Seq<char>) -> bool {
    suffix.len() <= s.len() && s.subrange(s.len() - suffix.len(), s.len() as int) == suffix
}

/// Tells whether `s` ends with `suffix`.
pub fn ends_with(s: &str, suffix: &str) -> (ends: bool)
    ensures
        ends == ends_with_spec(s@, suffix@),
{
    let len = s.unicode_len();
    let suffix_len = suffix.unicode_len();
    if suffix_len > len {
        return false;
    }
    String::from_str(s.substring_char(len - suffix_len, len)) == String::from_str(suffix)
}

} // verus!
