//! Completion of `@` references while typing a prompt: agents, skills and
//! workspace paths, ranked by a fuzzy match against the query.
//!
//! Listing the workspace is the caller's business; this module scores and
//! ranks the candidates.
use vstd::prelude::*;
use vstd::string::StrSliceExecFns;
use vstd::utf8::{encode_scalar, encode_utf8, has_width_1_encoding};

use crate::text::{
    chars_of, contains, contains_vec, is_ws, last_index_of, last_index_of_vec, lower, lower_char,
    lower_vec, rsplit_once, rsplit_once_vec, slice_vec, starts_with, starts_with_vec,
    strip_prefix_all, strip_prefix_all_vec, string_of, trim, trim_matches, trim_matches_vec,
    trim_vec, trimmed,
};

verus! {

// ---------------------------------------------------------------------------
// Directories and queries
// ---------------------------------------------------------------------------

/// Directories that are never listed.
pub open spec fn skipped_dir_name(name: Seq<char>) -> bool {
    name == ".git"@ || name == "node_modules"@ || name == "target"@ || name == "dist"@ || name == ".orchestrix"@
}

/// Whether a directory entry is left out of the listing: a directory with
/// one of the skipped names.
pub fn should_skip_dir(name: &str, is_dir: bool) -> (r: bool)
    ensures
        r == (is_dir && skipped_dir_name(name@)),
{
    if !is_dir {
        return false;
    }
    let n = chars_of(name);
    crate::text::str_eq(".git", &n) || crate::text::str_eq("node_modules", &n) || crate::text::str_eq("target", &n)
        || crate::text::str_eq("dist", &n) || crate::text::str_eq(".orchestrix", &n)
}

/// The directory to list (`.` for the root) and the part of the query
/// after its last `/`.
pub open spec fn base_and_needle(query: Seq<char>) -> (Seq<char>, Seq<char>) {
    let t = trim_matches(strip_prefix_all(trim(query), "./"@), '/');
    if t.len() == 0 {
        ("."@, Seq::<char>::empty())
    } else {
        match rsplit_once(t, '/') {
            Some((base, needle)) => (if base.len() == 0 {
                "."@
            } else {
                base
            }, needle),
            None => ("."@, t),
        }
    }
}

pub fn split_base_and_needle(query: &str) -> (r: (String, String))
    ensures
        r.0@ == base_and_needle(query@).0,
        r.1@ == base_and_needle(query@).1,
{
    let t = trim_matches_vec(&strip_prefix_all_vec(&trimmed(query), &chars_of("./")), '/');
    if t.len() == 0 {
        return (String::from_str("."), String::new());
    }
    match rsplit_once_vec(&t, '/') {
        Some((base, needle)) => {
            let b = if base.len() == 0 {
                String::from_str(".")
            } else {
                string_of(&base)
            };
            (b, string_of(&needle))
        },
        None => (String::from_str("."), string_of(&t)),
    }
}

// ---------------------------------------------------------------------------
// Fuzzy matching
// ---------------------------------------------------------------------------

/// A byte where a character starts, or the end of the text.
pub open spec fn char_boundary(h: Seq<u8>, pos: int) -> bool {
    pos == h.len() || (0 <= pos < h.len() && (h[pos] < 0x80 || h[pos] >= 0xC0))
}

pub open spec fn bytes_at(s: Seq<u8>, p: Seq<u8>, i: int) -> bool {
    0 <= i && i + p.len() <= s.len() && s.subrange(i, i + p.len()) == p
}

/// The first index at or after `i` where `p` occurs in `s`, or -1.
pub open spec fn find_bytes_from(s: Seq<u8>, p: Seq<u8>, i: int) -> int
    decreases s.len() + 1 - i,
{
    if i < 0 || i + p.len() > s.len() {
        -1
    } else if bytes_at(s, p, i) {
        i
    } else {
        find_bytes_from(s, p, i + 1)
    }
}

pub proof fn lemma_find_bytes_from(s: Seq<u8>, p: Seq<u8>, i: int)
    requires
        0 <= i,
    ensures
        find_bytes_from(s, p, i) == -1 || (i <= find_bytes_from(s, p, i) && bytes_at(s, p, find_bytes_from(s, p, i))),
    decreases s.len() + 1 - i,
{
    if i + p.len() <= s.len() && !bytes_at(s, p, i) {
        lemma_find_bytes_from(s, p, i + 1);
    }
}

fn bytes_match_at(v: &Vec<u8>, p: &Vec<u8>, i: usize) -> (r: bool)
    ensures
        r == bytes_at(v@, p@, i as int),
{
    if i > v.len() || p.len() > v.len() - i {
        return false;
    }
    let mut k: usize = 0;
    while k < p.len()
        invariant
            k <= p.len(),
            i + p.len() <= v.len(),
            v@.subrange(i as int, i + k) == p@.take(k as int),
        decreases p.len() - k,
    {
        if v[i + k] != p[k] {
            assert(v@.subrange(i as int, i + p.len())[k as int] != p@[k as int]);
            return false;
        }
        assert(v@.subrange(i as int, i + k + 1) =~= v@.subrange(i as int, i + k).push(v@[i + k]));
        assert(p@.take(k + 1) =~= p@.take(k as int).push(p@[k as int]));
        k += 1;
    }
    assert(p@.take(p.len() as int) =~= p@);
    true
}

fn find_bytes(v: &Vec<u8>, p: &Vec<u8>, from: usize) -> (r: Option<usize>)
    ensures
        match r {
            Some(i) => i as int == find_bytes_from(v@, p@, from as int),
            None => find_bytes_from(v@, p@, from as int) == -1,
        },
{
    let mut i = from;
    while i <= v.len() && p.len() <= v.len() - i
        invariant
            from <= i,
            find_bytes_from(v@, p@, from as int) == find_bytes_from(v@, p@, i as int),
        decreases v.len() + 1 - i,
    {
        if bytes_match_at(v, p, i) {
            return Some(i);
        }
        assert(i < v.len()) by {
            if i == v.len() {
                assert(v@.subrange(i as int, i as int) =~= p@);
            }
        }
        i += 1;
    }
    None
}

/// The outcome of looking up the needle's characters in order: one is
/// missing, the scan would slice the haystack inside a character, or the
/// points earned.
pub enum Scan {
    Miss,
    Panic,
    Hit(int),
}

/// Points for a character found at `found`, the previous one at `last`.
pub open spec fn hit_points(h: Seq<u8>, found: int, last: Option<int>) -> int {
    10 + (match last {
        Some(l) => if found == l + 1 {
            12int
        } else if found <= l + 3 {
            4int
        } else {
            0int
        },
        None => 0int,
    }) + (if found == 0 || h[found - 1] == 47u8 {
        8int
    } else {
        0int
    })
}

/// Looks up characters `k..` of the needle in the haystack's bytes from
/// byte `pos` on, each after the first byte of the previous one.
pub open spec fn scan(ns: Seq<char>, h: Seq<u8>, k: int, pos: int, last: Option<int>) -> Scan
    decreases ns.len() - k,
{
    if k < 0 || k >= ns.len() {
        Scan::Hit(0)
    } else if !char_boundary(h, pos) {
        Scan::Panic
    } else {
        let f = find_bytes_from(h, encode_utf8(seq![ns[k]]), pos);
        if f < 0 {
            Scan::Miss
        } else {
            match scan(ns, h, k + 1, f + 1, Some(f)) {
                Scan::Hit(s) => Scan::Hit(hit_points(h, f, last) + s),
                other => other,
            }
        }
    }
}

/// The part of a text after its last `/`.
pub open spec fn basename(s: Seq<char>) -> Seq<char> {
    match rsplit_once(s, '/') {
        Some((_, b)) => b,
        None => s,
    }
}

/// Whether scoring the needle against the haystack would slice the
/// haystack inside a multi-byte character.
pub open spec fn fuzzy_panics(needle: Seq<char>, haystack: Seq<char>) -> bool {
    let n = lower(needle);
    let h = lower(haystack);
    trim(needle).len() > 0 && h != n && scan(n, encode_utf8(h), 0, 0, None) is Panic
}

/// How well a needle matches a haystack, ignoring ASCII case: 0 for a
/// blank needle, 400 for an exact match, -1 when a character of the needle
/// is missing (in order); else bonuses for a prefix, a basename prefix and
/// a substring, points for each character found (more when adjacent to the
/// previous one or after a `/`), less an eighth of the haystack's bytes.
pub open spec fn fuzzy(needle: Seq<char>, haystack: Seq<char>) -> int {
    let n = lower(needle);
    let h = lower(haystack);
    let hb = encode_utf8(h);
    if trim(needle).len() == 0 {
        0
    } else if h == n {
        400
    } else {
        match scan(n, hb, 0, 0, None) {
            Scan::Hit(s) => (if starts_with(h, n) {
                140int
            } else {
                0int
            }) + (if starts_with(basename(h), n) {
                120int
            } else {
                0int
            }) + (if contains(h, n) {
                80int
            } else {
                0int
            }) + s - hb.len() as int / 8,
            _ => -1,
        }
    }
}

/// Lower-casing ASCII letters keeps the UTF-8 length.
pub proof fn lemma_lower_bytes(s: Seq<char>)
    ensures
        encode_utf8(lower(s)).len() == encode_utf8(s).len(),
    decreases s.len(),
{
    if s.len() > 0 {
        lemma_lower_bytes(s.drop_first());
        assert(lower(s).drop_first() =~= lower(s.drop_first()));
        let c = s[0];
        if 'A' <= c && c <= 'Z' {
            assert(has_width_1_encoding(c as u32));
            assert(has_width_1_encoding(lower_char(c) as u32));
        }
    }
}

/// The largest haystack, in bytes, that scoring accepts: beyond the address
/// space of current machines, and below the point where scores would
/// overflow.
pub const MAX_HAYSTACK_BYTES: u64 = 0x1_0000_0000_0000;

proof fn lemma_scan_bound(ns: Seq<char>, h: Seq<u8>, k: int, pos: int, last: Option<int>)
    requires
        0 <= k <= ns.len(),
        0 <= pos <= h.len(),
    ensures
        scan(ns, h, k, pos, last) matches Scan::Hit(s) ==> 0 <= s <= 30 * (h.len() - pos + 1),
    decreases ns.len() - k,
{
    if k < ns.len() && char_boundary(h, pos) {
        let f = find_bytes_from(h, encode_utf8(seq![ns[k]]), pos);
        lemma_find_bytes_from(h, encode_utf8(seq![ns[k]]), pos);
        if f >= 0 {
            assert(encode_utf8(seq![ns[k]]).len() >= 1) by {
                assert(seq![ns[k]].drop_first() =~= Seq::<char>::empty());
            }
            lemma_scan_bound(ns, h, k + 1, f + 1, Some(f));
        }
    }
}

fn char_bytes(c: char) -> (r: Vec<u8>)
    ensures
        r@ == encode_utf8(seq![c]),
{
    let v = vec![c];
    let s = string_of(&v);
    assert(s@ =~= seq![c]);
    s.as_str().as_bytes_vec()
}

/// Scores a needle against a haystack (see `fuzzy`).
pub fn fuzzy_score(needle: &str, haystack: &str) -> (r: i64)
    requires
        !fuzzy_panics(needle@, haystack@),
        encode_utf8(haystack@).len() < MAX_HAYSTACK_BYTES,
    ensures
        r as int == fuzzy(needle@, haystack@),
{
    if trimmed(needle).len() == 0 {
        return 0;
    }
    let nv = lower_vec(&chars_of(needle));
    let hv = lower_vec(&chars_of(haystack));
    if crate::text::seq_eq(&hv, &nv) {
        return 400;
    }
    let hs = string_of(&hv);
    let hb = hs.as_str().as_bytes_vec();
    proof {
        lemma_lower_bytes(haystack@);
    }
    let base = match rsplit_once_vec(&hv, '/') {
        Some((_, b)) => b,
        None => crate::text::copy_vec(&hv),
    };
    let mut score: i64 = 0;
    if starts_with_vec(&hv, &nv) {
        score += 140;
    }
    if starts_with_vec(&base, &nv) {
        score += 120;
    }
    if contains_vec(&hv, &nv) {
        score += 80;
    }
    let ghost head = score as int;
    let ghost ns = nv@;
    let ghost h = hb@;
    proof {
        lemma_scan_bound(ns, h, 0, 0, None);
    }
    assert(!(scan(ns, h, 0, 0, None) is Panic));
    let mut gained: i64 = 0;
    let mut pos: usize = 0;
    let mut last: Option<usize> = None;
    let mut k: usize = 0;
    while k < nv.len()
        invariant
            k <= nv.len(),
            ns == nv@,
            h == hb@,
            h.len() < MAX_HAYSTACK_BYTES,
            h.len() == hb.len(),
            pos <= h.len(),
            0 <= gained <= 30 * k,
            k <= pos,
            k == 0 ==> pos == 0 && last is None,
            last matches Some(l) ==> l < h.len() && pos == l + 1,
            ns == lower(needle@),
            h == encode_utf8(lower(haystack@)),
            trim(needle@).len() > 0,
            lower(haystack@) != lower(needle@),
            !(scan(ns, h, 0, 0, None) is Panic),
            scan(ns, h, 0, 0, None) matches Scan::Hit(t) ==> (scan(ns, h, k as int, pos as int, match last { Some(l) => Some(l as int), None => None }) matches Scan::Hit(u) && t == gained + u),
            scan(ns, h, 0, 0, None) is Miss ==> scan(ns, h, k as int, pos as int, match last { Some(l) => Some(l as int), None => None }) is Miss,
            !(scan(ns, h, 0, 0, None) is Panic) ==> !(scan(ns, h, k as int, pos as int, match last { Some(l) => Some(l as int), None => None }) is Panic),
        decreases nv.len() - k,
    {
        let ghost lastv = match last { Some(l) => Some(l as int), None => None::<int> };
        assert(char_boundary(h, pos as int));
        let e = char_bytes(nv[k]);
        proof {
            lemma_find_bytes_from(h, e@, pos as int);
        }
        match find_bytes(&hb, &e, pos) {
            None => {
                return -1;
            },
            Some(found) => {
                assert(e@.len() >= 1) by {
                    assert(seq![ns[k as int]].drop_first() =~= Seq::<char>::empty());
                }
                assert(bytes_at(h, e@, found as int));
                assert(found < h.len());
                let mut pts: i64 = 10;
                if let Some(l) = last {
                    if found == l + 1 {
                        pts += 12;
                    } else if found - l <= 3 {
                        pts += 4;
                    }
                }
                if found == 0 || hb[found - 1] == 47u8 {
                    pts += 8;
                }
                assert(pts as int == hit_points(h, found as int, lastv));
                gained = gained + pts;
                last = Some(found);
                pos = found + 1;
            },
        }
        k += 1;
    }
    assert(scan(ns, h, k as int, pos as int, match last { Some(l) => Some(l as int), None => None }) == Scan::Hit(0));
    let penalty = (hb.len() / 8) as i64;
    score + gained - penalty
}

/// Whether scoring would slice the haystack inside a character (see
/// `fuzzy_panics`), or the haystack is beyond what scoring accepts.
pub fn fuzzy_would_fail(needle: &str, haystack: &str) -> (r: bool)
    ensures
        r == (fuzzy_panics(needle@, haystack@) || encode_utf8(haystack@).len() >= MAX_HAYSTACK_BYTES),
{
    let hb0 = haystack.as_bytes_vec();
    if hb0.len() as u64 >= MAX_HAYSTACK_BYTES {
        return true;
    }
    if trimmed(needle).len() == 0 {
        return false;
    }
    let nv = lower_vec(&chars_of(needle));
    let hv = lower_vec(&chars_of(haystack));
    if crate::text::seq_eq(&hv, &nv) {
        return false;
    }
    let hs = string_of(&hv);
    let hb = hs.as_str().as_bytes_vec();
    proof {
        lemma_lower_bytes(haystack@);
    }
    let ghost ns = nv@;
    let ghost h = hb@;
    let mut pos: usize = 0;
    let mut last: Option<usize> = None;
    let mut k: usize = 0;
    while k < nv.len()
        invariant
            k <= nv.len(),
            ns == nv@,
            h == hb@,
            pos <= h.len(),
            last matches Some(l) ==> l < h.len() && pos == l + 1,
            k == 0 ==> pos == 0 && last is None,
            ns == lower(needle@),
            h == encode_utf8(lower(haystack@)),
            trim(needle@).len() > 0,
            lower(haystack@) != lower(needle@),
            encode_utf8(haystack@).len() < MAX_HAYSTACK_BYTES,
            (scan(ns, h, 0, 0, None) is Panic) == (scan(ns, h, k as int, pos as int, match last {
                Some(l) => Some(l as int),
                None => None,
            }) is Panic),
        decreases nv.len() - k,
    {
        let boundary = pos == hb.len() || hb[pos] < 0x80u8 || hb[pos] >= 0xC0u8;
        if !boundary {
            return true;
        }
        let e = char_bytes(nv[k]);
        proof {
            lemma_find_bytes_from(h, e@, pos as int);
        }
        match find_bytes(&hb, &e, pos) {
            None => {
                return false;
            },
            Some(found) => {
                assert(e@.len() >= 1) by {
                    assert(seq![ns[k as int]].drop_first() =~= Seq::<char>::empty());
                }
                assert(bytes_at(h, e@, found as int));
                last = Some(found);
                pos = found + 1;
            },
        }
        k += 1;
    }
    false
}

} // verus!
