//! Whether one path lies inside a directory, compared piece by piece.
//!
//! Both paths are taken as `canonicalize` gives them: absolute, with `/`
//! between pieces and no `.` or `..` pieces.  On such paths the comparison
//! is the one `Path::starts_with` makes: the directory's pieces are the first
//! pieces of the path, so `/work/app` lies inside `/work` and `/workshop`
//! does not.
use vstd::prelude::*;

use crate::text::{
    chars_of, drop_empty, drop_empty_vec, seq_eq, split_by, split_vec, starts_with,
    starts_with_vec, views_v, CharClass,
};

verus! {

/// The non-empty pieces of a path between `/` separators.
pub open spec fn path_pieces(p: Seq<char>) -> Seq<Seq<char>> {
    drop_empty(split_by(p, (seq!['/'], false, false)))
}

/// `path` is `dir` or lies below it: both are rooted alike and the pieces of
/// `dir` begin the pieces of `path`.
pub open spec fn path_within(path: Seq<char>, dir: Seq<char>) -> bool {
    &&& starts_with(path, "/"@) == starts_with(dir, "/"@)
    &&& path_pieces(dir).len() <= path_pieces(path).len()
    &&& path_pieces(path).take(path_pieces(dir).len() as int) == path_pieces(dir)
}

fn pieces_vec(p: &Vec<char>) -> (r: Vec<Vec<char>>)
    ensures
        views_v(r@) == path_pieces(p@),
{
    let cls = CharClass::of(vec!['/']);
    assert(cls@ == (seq!['/'], false, false));
    let parts = split_vec(p, &cls);
    drop_empty_vec(&parts)
}

/// Whether the canonical `path` is the canonical `dir` or lies below it.
pub fn is_within_dir(path: &str, dir: &str) -> (r: bool)
    ensures
        r == path_within(path@, dir@),
{
    let p = chars_of(path);
    let d = chars_of(dir);
    let slash = chars_of("/");
    if starts_with_vec(&p, &slash) != starts_with_vec(&d, &slash) {
        return false;
    }
    let pp = pieces_vec(&p);
    let dp = pieces_vec(&d);
    if dp.len() > pp.len() {
        return false;
    }
    let ghost pv = views_v(pp@);
    let ghost dv = views_v(dp@);
    let mut i: usize = 0;
    while i < dp.len()
        invariant
            i <= dp.len() <= pp.len(),
            pv == views_v(pp@),
            dv == views_v(dp@),
            pv == path_pieces(path@),
            dv == path_pieces(dir@),
            starts_with(path@, "/"@) == starts_with(dir@, "/"@),
            forall|k: int| 0 <= k < i ==> #[trigger] pv[k] == dv[k],
        decreases dp.len() - i,
    {
        if !seq_eq(&pp[i], &dp[i]) {
            assert(pv[i as int] == pp@[i as int]@ && dv[i as int] == dp@[i as int]@);
            assert(pv.take(dv.len() as int)[i as int] != dv[i as int]);
            return false;
        }
        assert(pv[i as int] == pp@[i as int]@ && dv[i as int] == dp@[i as int]@);
        i += 1;
    }
    assert(pv.take(dv.len() as int) =~= dv);
    true
}

} // verus!
