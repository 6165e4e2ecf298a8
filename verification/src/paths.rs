//! Path strings, `/`-separated. The engine computes destination paths,
//! traversal bases and pattern splits on plain strings; the surrounding
//! binary passes the results to the filesystem unchanged.

use vstd::prelude::*;
use vstd::string::StrSliceExecFns;
use vstd::string::StringExecFns;
use crate::strutil::{last_index_of, lemma_last_index_of_bounds, str_eq, str_rfind_char};

verus! {

broadcast use lemma_last_index_of_bounds;

/// Whether the path names a location from the root.
pub open spec fn spec_is_absolute(s: Seq<char>) -> bool {
    s.len() > 0 && s[0] == '/'
}

pub fn is_absolute(path: &str) -> (r: bool)
    ensures
        r == spec_is_absolute(path@),
{
    path.unicode_len() > 0 && path.get_char(0) == '/'
}

/// The directory part of a path: everything before the last separator,
/// `/` itself for an entry of the root, and nothing for a bare name.
pub open spec fn spec_parent_dir(s: Seq<char>) -> Option<Seq<char>> {
    let j = last_index_of(s, '/');
    if j < 0 {
        None
    } else if j == 0 {
        Some(seq!['/'])
    } else {
        Some(s.subrange(0, j))
    }
}

pub fn parent_dir(path: &str) -> (r: Option<String>)
    ensures
        match r {
            Some(p) => spec_parent_dir(path@) matches Some(q) && p@ == q,
            None => spec_parent_dir(path@) is None,
        },
{
    match str_rfind_char(path, '/') {
        None => None,
        Some(j) => {
            if j == 0 {
                let root = String::from_str("/");
                proof {
                    reveal_strlit("/");
                    assert(root@ =~= seq!['/']);
                }
                Some(root)
            } else {
                Some(String::from_str(path.substring_char(0, j)))
            }
        },
    }
}

/// The final component of a path: everything after the last separator, or
/// the whole path when it has none.
pub open spec fn spec_file_name(s: Seq<char>) -> Seq<char> {
    s.subrange(last_index_of(s, '/') + 1, s.len() as int)
}

pub fn file_name_of(path: &str) -> (r: String)
    ensures
        r@ == spec_file_name(path@),
{
    let n = path.unicode_len();
    match str_rfind_char(path, '/') {
        None => String::from_str(path),
        Some(j) => String::from_str(path.substring_char(j + 1, n)),
    }
}

/// A path under a base: the two joined with one separator between them.
/// An empty relative part names the base itself.
pub open spec fn spec_join(base: Seq<char>, rel: Seq<char>) -> Seq<char> {
    if rel.len() == 0 {
        base
    } else if base.len() == 0 {
        rel
    } else if base.last() == '/' {
        base + rel
    } else {
        base + seq!['/'] + rel
    }
}

pub fn join_path(base: &str, rel: &str) -> (r: String)
    ensures
        r@ == spec_join(base@, rel@),
{
    let bn = base.unicode_len();
    if rel.unicode_len() == 0 {
        String::from_str(base)
    } else if bn == 0 {
        String::from_str(rel)
    } else if base.get_char(bn - 1) == '/' {
        let r = String::from_str(base).concat(rel);
        r
    } else {
        let sep = "/";
        proof {
            reveal_strlit("/");
            assert(sep@ =~= seq!['/']);
        }
        let r = String::from_str(base).concat(sep).concat(rel);
        r
    }
}

/// The remainder of `path` under `base`: nothing when `path` is `base`
/// itself, the tail after the separator when `base` is a proper ancestor,
/// and `None` when `path` does not lie under `base`. An empty base leaves
/// the path whole.
pub open spec fn spec_strip_prefix(path: Seq<char>, base: Seq<char>) -> Option<Seq<char>> {
    if base.len() == 0 {
        Some(path)
    } else if path == base {
        Some(Seq::empty())
    } else if base.last() == '/' && path.len() > base.len() && path.subrange(
        0,
        base.len() as int,
    ) == base {
        Some(path.subrange(base.len() as int, path.len() as int))
    } else if path.len() > base.len() && path.subrange(0, base.len() as int) == base && path[base.len() as int]
        == '/' {
        Some(path.subrange(base.len() as int + 1, path.len() as int))
    } else {
        None
    }
}

pub fn strip_prefix(path: &str, base: &str) -> (r: Option<String>)
    ensures
        match r {
            Some(p) => spec_strip_prefix(path@, base@) matches Some(q) && p@ == q,
            None => spec_strip_prefix(path@, base@) is None,
        },
{
    let pn = path.unicode_len();
    let bn = base.unicode_len();
    if bn == 0 {
        return Some(String::from_str(path));
    }
    if str_eq(path, base) {
        let empty = String::new();
        proof {
            assert(empty@ =~= Seq::<char>::empty());
        }
        return Some(empty);
    }
    if pn > bn && str_eq(path.substring_char(0, bn), base) {
        if base.get_char(bn - 1) == '/' {
            return Some(String::from_str(path.substring_char(bn, pn)));
        }
        if path.get_char(bn) == '/' {
            return Some(String::from_str(path.substring_char(bn + 1, pn)));
        }
        return None;
    }
    None
}

/// The directory whose entries a wildcard pattern names, and the final
/// component that the entries are matched against. A pattern without a
/// separator names the current directory.
pub fn split_pattern(pattern: &str) -> (r: (String, String))
    ensures
        (match spec_parent_dir(pattern@) {
            Some(d) => r.0@ == d,
            None => r.0@ == "."@,
        }),
        r.1@ == spec_file_name(pattern@),
{
    let dir = match parent_dir(pattern) {
        Some(d) => d,
        None => {
            let dot = String::from_str(".");
            dot
        },
    };
    let name = file_name_of(pattern);
    (dir, name)
}

/// One step of materializing a file on disk: the directory chain to ensure
/// first, when the path has one, and then the file itself.
pub struct WriteStep {
    pub parent: Option<String>,
    pub path: String,
}

/// Plans how to materialize the given files with shared content: for each
/// path, in order, the parent directory to create first and the file to
/// write there.
pub fn create_test_files(files: &Vec<String>) -> (r: Vec<WriteStep>)
    ensures
        r@.len() == files@.len(),
        forall|i: int|
            0 <= i < files@.len() ==> (#[trigger] r@[i]).path@ == files@[i]@ && (match r@[i].parent {
                Some(p) => spec_parent_dir(files@[i]@) matches Some(q) && p@ == q,
                None => spec_parent_dir(files@[i]@) is None,
            }),
{
    let mut r: Vec<WriteStep> = Vec::new();
    let mut i: usize = 0;
    while i < files.len()
        invariant
            i <= files@.len(),
            r@.len() == i,
            forall|j: int|
                0 <= j < i ==> (#[trigger] r@[j]).path@ == files@[j]@ && (match r@[j].parent {
                    Some(p) => spec_parent_dir(files@[j]@) matches Some(q) && p@ == q,
                    None => spec_parent_dir(files@[j]@) is None,
                }),
        decreases files@.len() - i,
    {
        let path = files[i].clone();
        let parent = parent_dir(path.as_str());
        r.push(WriteStep { parent, path });
        i = i + 1;
    }
    r
}

} // verus!
