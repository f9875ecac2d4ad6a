//! Markdown files that open with a `---` delimited frontmatter block.
use vstd::prelude::*;

use crate::text::{
    chars_of, find, find_vec, lemma_find, slice_vec, starts_with, starts_with_vec, trim_start,
    trim_start_vec,
};

verus! {

/// The raw frontmatter block and the body of a markdown text: the text,
/// without leading whitespace, must start with `---`; the block runs up to
/// the first `\n---` after that, and the body starts right after it, without
/// leading whitespace.  `None` when there is no such block.
pub open spec fn frontmatter_parts(raw: Seq<char>) -> Option<(Seq<char>, Seq<char>)> {
    let t = trim_start(raw);
    let a = t.skip(3);
    let c = find(a, "\n---"@);
    let bs = 3 + c + 4;
    if !starts_with(t, "---"@) || c < 0 {
        None
    } else {
        Some(
            (
                a.take(c),
                if bs < t.len() {
                    trim_start(t.skip(bs))
                } else {
                    Seq::<char>::empty()
                },
            ),
        )
    }
}

pub fn frontmatter_parts_vec(raw: &Vec<char>) -> (r: Option<(Vec<char>, Vec<char>)>)
    ensures
        match frontmatter_parts(raw@) {
            None => r is None,
            Some((b, body)) => r matches Some((x, y)) && x@ == b && y@ == body,
        },
{
    let t = trim_start_vec(raw);
    let open = chars_of("---");
    if !starts_with_vec(&t, &open) {
        return None;
    }
    proof {
        reveal_strlit("---");
    }
    let a = slice_vec(&t, 3, t.len());
    let close = chars_of("\n---");
    proof {
        reveal_strlit("\n---");
        lemma_find(a@, close@);
    }
    match find_vec(&a, &close) {
        None => None,
        Some(c) => {
            assert(c + 4 <= a.len());
            let block = slice_vec(&a, 0, c);
            let bs = 3 + c + 4;
            let body = if bs < t.len() {
                let rest = slice_vec(&t, bs, t.len());
                trim_start_vec(&rest)
            } else {
                Vec::new()
            };
            assert(a@ =~= t@.skip(3));
            proof {
                if bs < t.len() {
                    assert(t@.subrange(bs as int, t@.len() as int) =~= t@.skip(bs as int));
                } else {
                    assert(body@ =~= Seq::<char>::empty());
                }
                assert(a@.subrange(0, c as int) =~= a@.take(c as int));
            }
            Some((block, body))
        },
    }
}

} // verus!
