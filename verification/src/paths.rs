//! Paths as `/`-separated text.

use crate::text::{chars_of, concat2, find_last, last_index_of, lemma_last_index_of, suffix_from};
use vstd::prelude::*;

verus! {

/// `child` below the directory `base`.
pub open spec fn joined(base: Seq<char>, child: Seq<char>) -> Seq<char> {
    base + seq!['/'] + child
}

/// What follows the last `/` of `path`; all of `path` where it holds none.
pub open spec fn base_name(path: Seq<char>) -> Seq<char> {
    path.skip(last_index_of(path, '/') + 1)
}

/// `path` is `dir` itself or lies below it: `dir` is a prefix of `path` that
/// ends where a component of `path` ends.
pub open spec fn is_under(path: Seq<char>, dir: Seq<char>) -> bool {
    &&& dir.is_prefix_of(path)
    &&& (path.len() == dir.len() || (dir.len() > 0 && dir.last() == '/') || path[dir.len() as int]
        == '/')
}

/// The path of `child` below the directory `base`.
pub fn join(base: &str, child: &str) -> (out: String)
    ensures
        out@ == joined(base@, child@),
{
    let mut out = concat2(base, "/");
    out.append(child);
    proof {
        reveal_strlit("/");
        assert("/"@ =~= seq!['/']);
    }
    out
}

/// The last component of `path`.
pub fn file_name(path: &str) -> (out: String)
    ensures
        out@ == base_name(path@),
{
    let chars = chars_of(path);
    proof {
        lemma_last_index_of(path@, '/');
    }
    match find_last(&chars, '/') {
        Some(i) => suffix_from(path, i + 1),
        None => suffix_from(path, 0),
    }
}

/// Whether `path` is `dir` or lies below it.
pub fn starts_with_dir(path: &str, dir: &str) -> (r: bool)
    ensures
        r == is_under(path@, dir@),
{
    let pc = chars_of(path);
    let dc = chars_of(dir);
    if dc.len() > pc.len() {
        return false;
    }
    let mut i: usize = 0;
    while i < dc.len()
        invariant
            pc@ == path@,
            dc@ == dir@,
            dc.len() <= pc.len(),
            i <= dc.len(),
            forall|j: int| 0 <= j < i ==> pc@[j] == dc@[j],
        decreases dc.len() - i,
    {
        if pc[i] != dc[i] {
            assert(pc@.subrange(0, dc@.len() as int)[i as int] == pc@[i as int]);
            return false;
        }
        i += 1;
    }
    assert(pc@.subrange(0, dc@.len() as int) =~= dc@);
    pc.len() == dc.len() || (dc.len() > 0 && dc[dc.len() - 1] == '/') || pc[dc.len()] == '/'
}

} // verus!
