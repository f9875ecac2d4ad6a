//! Reading a JSON object out of a model's answer: the whole answer, the
//! answer without its code-fence lines, or the text from its first `{` to
//! its last `}`, whichever JSON accepts first.
use vstd::prelude::*;

use crate::text::{
    append_str, chars_of, index_of, index_of_vec, join, join_vec, last_index_of,
    last_index_of_vec, lines, lines_vec, slice_vec, starts_with, starts_with_vec, string_of,
    trim, trim_start, trim_start_vec, trim_vec, views_v,
};

verus! {

/// Whether serde_json accepts a text as a JSON document.
pub uninterp spec fn json_accepts(text: Seq<char>) -> bool;

/// serde_json's `from_str::<Value>`: whether it succeeds is the function
/// `json_accepts` of the text; what the JSON grammar accepts is not stated.
#[verifier::external_body]
fn parses_as_json(text: &str) -> (r: bool)
    ensures
        r == json_accepts(text@),
{
    serde_json::from_str::<serde_json::Value>(text).is_ok()
}

/// Keeps the lines that do not open or close a code fence.
pub open spec fn not_fence() -> spec_fn(Seq<char>) -> bool {
    |l: Seq<char>| !starts_with(trim_start(l), "```"@)
}

/// The answer without its code-fence lines.
pub open spec fn fence_free(response: Seq<char>) -> Seq<char> {
    join(lines(response).filter(not_fence()), "\n"@)
}

/// The first `{` and the last `}` of a text, when it has both.
pub open spec fn braces(t: Seq<char>) -> Option<(int, int)> {
    if index_of(t, '{') >= 0 && last_index_of(t, '}') >= 0 {
        Some((index_of(t, '{'), last_index_of(t, '}')))
    } else {
        None
    }
}

/// Whether reading the answer would slice it from a `{` that comes after
/// the last `}` with something between: the reading fails there.
pub open spec fn payload_panics(response: Seq<char>) -> bool {
    let t = trim(response);
    &&& !json_accepts(t)
    &&& !json_accepts(trim(fence_free(response)))
    &&& braces(t) matches Some((a, b)) && a > b + 1
}

/// The JSON text read out of an answer, if any.
pub open spec fn json_payload(response: Seq<char>) -> Option<Seq<char>> {
    let t = trim(response);
    if json_accepts(t) {
        Some(t)
    } else if json_accepts(trim(fence_free(response))) {
        Some(trim(fence_free(response)))
    } else {
        match braces(t) {
            Some((a, b)) => if json_accepts(t.subrange(a, b + 1)) {
                Some(t.subrange(a, b + 1))
            } else {
                None
            },
            None => None,
        }
    }
}

fn fence_free_vec(response: &Vec<char>) -> (r: Vec<char>)
    ensures
        r@ == fence_free(response@),
{
    let ls = lines_vec(response);
    let ghost lv = views_v(ls@);
    let ghost pred = not_fence();
    let fence = chars_of("```");
    let mut kept: Vec<Vec<char>> = Vec::new();
    let mut i: usize = 0;
    assert(lv.take(0) =~= Seq::<Seq<char>>::empty());
    reveal_with_fuel(Seq::filter, 1);
    while i < ls.len()
        invariant
            i <= ls.len(),
            lv == views_v(ls@),
            pred == not_fence(),
            fence@ == "```"@,
            views_v(kept@) =~= lv.take(i as int).filter(pred),
        decreases ls.len() - i,
    {
        reveal_with_fuel(Seq::filter, 1);
        assert(lv.take(i + 1).drop_last() =~= lv.take(i as int));
        assert(lv.take(i + 1).last() == ls@[i as int]@);
        let ghost prev = kept@;
        if !starts_with_vec(&trim_start_vec(&ls[i]), &fence) {
            kept.push(crate::text::copy_vec(&ls[i]));
            assert(views_v(kept@) =~= views_v(prev).push(ls@[i as int]@));
        }
        i += 1;
    }
    assert(lv.take(ls.len() as int) =~= lv);
    join_vec(&kept, &chars_of("\n"))
}

/// Reads the JSON text out of an answer (see `json_payload`).
pub fn parse_json_payload(response: &str) -> (r: Option<String>)
    requires
        !payload_panics(response@),
    ensures
        match json_payload(response@) {
            Some(p) => r matches Some(s) && s@ == p,
            None => r is None,
        },
{
    let rv = chars_of(response);
    let t = trim_vec(&rv);
    let ts = string_of(&t);
    if parses_as_json(ts.as_str()) {
        return Some(ts);
    }
    let u = trim_vec(&fence_free_vec(&rv));
    let us = string_of(&u);
    if parses_as_json(us.as_str()) {
        return Some(us);
    }
    proof {
        crate::text::lemma_last_index_before(t@, '}', t@.len() as int);
        crate::text::lemma_index_of_from(t@, '{', 0);
    }
    match (index_of_vec(&t, '{'), last_index_of_vec(&t, '}')) {
        (Some(a), Some(b)) => {
            assert(braces(t@) == Some((a as int, b as int)));
            let c = slice_vec(&t, a, b + 1);
            let cs = string_of(&c);
            if parses_as_json(cs.as_str()) {
                Some(cs)
            } else {
                None
            }
        },
        _ => None,
    }
}

/// Reads the JSON text out of any answer: `None` where the reading would
/// fail on a `{` after the last `}` (see `payload_panics`), else what
/// `parse_json_payload` gives.
pub fn parse_json_payload_checked(response: &str) -> (r: Option<Option<String>>)
    ensures
        payload_panics(response@) <==> r is None,
        r matches Some(x) ==> match json_payload(response@) {
            Some(p) => x matches Some(s) && s@ == p,
            None => x is None,
        },
{
    let rv = chars_of(response);
    let t = trim_vec(&rv);
    let ts = string_of(&t);
    let u = trim_vec(&fence_free_vec(&rv));
    let us = string_of(&u);
    if !parses_as_json(ts.as_str()) && !parses_as_json(us.as_str()) {
        let first = index_of_vec(&t, '{');
        let last = last_index_of_vec(&t, '}');
        proof {
            crate::text::lemma_last_index_before(t@, '}', t@.len() as int);
            crate::text::lemma_index_of_from(t@, '{', 0);
        }
        match (first, last) {
            (Some(a), Some(b)) => {
                assert(index_of(t@, '{') == crate::text::index_of_from(t@, '{', 0));
                assert(index_of(t@, '{') < t@.len());
                assert(last_index_of(t@, '}') == crate::text::last_index_before(t@, '}', t@.len() as int));
                assert(last_index_of(t@, '}') < t@.len());
                assert(first == Some(a));
                assert(last == Some(b));
                assert(a as int == index_of(t@, '{'));
                assert(b as int == last_index_of(t@, '}'));
                assert(braces(t@) == Some((a as int, b as int)));
                if a > b + 1 {
                    return None;
                }
            },
            _ => {},
        }
    }
    Some(parse_json_payload(response))
}

} // verus!
