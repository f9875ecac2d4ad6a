//! Lexicographic order on character sequences and a stable sort by key.
//!
//! `String`'s `Ord` compares UTF-8 bytes, which orders strings exactly as the
//! lexicographic order on their characters' code points does; `lex_le` is
//! that order.
use vstd::prelude::*;

verus! {

/// `a <= b` in lexicographic order by code point.
pub open spec fn lex_le(a: Seq<char>, b: Seq<char>) -> bool
    decreases a.len(),
{
    if a.len() == 0 {
        true
    } else if b.len() == 0 {
        false
    } else if a[0] != b[0] {
        a[0] < b[0]
    } else {
        lex_le(a.drop_first(), b.drop_first())
    }
}

pub proof fn lemma_lex_refl(a: Seq<char>)
    ensures
        lex_le(a, a),
    decreases a.len(),
{
    if a.len() > 0 {
        lemma_lex_refl(a.drop_first());
    }
}

pub proof fn lemma_lex_total(a: Seq<char>, b: Seq<char>)
    ensures
        lex_le(a, b) || lex_le(b, a),
    decreases a.len(),
{
    if a.len() > 0 && b.len() > 0 && a[0] == b[0] {
        lemma_lex_total(a.drop_first(), b.drop_first());
    } else if a.len() > 0 && b.len() > 0 {
    }
}

pub proof fn lemma_lex_antisym(a: Seq<char>, b: Seq<char>)
    requires
        lex_le(a, b),
        lex_le(b, a),
    ensures
        a == b,
    decreases a.len(),
{
    if a.len() > 0 && b.len() > 0 {
        if a[0] == b[0] {
            lemma_lex_antisym(a.drop_first(), b.drop_first());
            assert(a =~= seq![a[0]] + a.drop_first());
            assert(b =~= seq![b[0]] + b.drop_first());
        }
    } else {
        assert(a.len() == 0 && b.len() == 0);
        assert(a =~= b);
    }
}

pub proof fn lemma_lex_trans(a: Seq<char>, b: Seq<char>, c: Seq<char>)
    requires
        lex_le(a, b),
        lex_le(b, c),
    ensures
        lex_le(a, c),
    decreases a.len(),
{
    if a.len() > 0 && b.len() > 0 && c.len() > 0 {
        if a[0] == b[0] && b[0] == c[0] {
            lemma_lex_trans(a.drop_first(), b.drop_first(), c.drop_first());
        }
    }
}

/// `x` may stand before `y`: ascending, or descending when `desc` holds.
pub open spec fn ordered(x: Seq<char>, y: Seq<char>, desc: bool) -> bool {
    if desc {
        lex_le(y, x)
    } else {
        lex_le(x, y)
    }
}

pub proof fn lemma_ordered_facts(x: Seq<char>, y: Seq<char>, z: Seq<char>, desc: bool)
    ensures
        ordered(x, x, desc),
        ordered(x, y, desc) || ordered(y, x, desc),
        ordered(x, y, desc) && ordered(y, z, desc) ==> ordered(x, z, desc),
        ordered(x, y, desc) && ordered(y, x, desc) ==> x == y,
{
    lemma_lex_refl(x);
    lemma_lex_total(x, y);
    if ordered(x, y, desc) && ordered(y, z, desc) {
        if desc {
            lemma_lex_trans(z, y, x);
        } else {
            lemma_lex_trans(x, y, z);
        }
    }
    if ordered(x, y, desc) && ordered(y, x, desc) {
        lemma_lex_antisym(x, y);
    }
}

pub fn lex_le_vec(a: &Vec<char>, b: &Vec<char>) -> (r: bool)
    ensures
        r == lex_le(a@, b@),
{
    let mut i: usize = 0;
    assert(a@.skip(0) =~= a@);
    assert(b@.skip(0) =~= b@);
    while i < a.len() && i < b.len()
        invariant
            i <= a.len(),
            i <= b.len(),
            lex_le(a@, b@) == lex_le(a@.skip(i as int), b@.skip(i as int)),
        decreases a.len() - i,
    {
        if a[i] != b[i] {
            assert(a@.skip(i as int)[0] == a@[i as int]);
            assert(b@.skip(i as int)[0] == b@[i as int]);
            return a[i] < b[i];
        }
        assert(a@.skip(i as int).drop_first() =~= a@.skip(i + 1));
        assert(b@.skip(i as int).drop_first() =~= b@.skip(i + 1));
        i += 1;
    }
    i == a.len()
}

pub fn ordered_vec(x: &Vec<char>, y: &Vec<char>, desc: bool) -> (r: bool)
    ensures
        r == ordered(x@, y@, desc),
{
    if desc {
        lex_le_vec(y, x)
    } else {
        lex_le_vec(x, y)
    }
}

/// Position `j` is listed somewhere in `idx`.
pub open spec fn appears(idx: Seq<usize>, j: int) -> bool {
    exists|k: int| 0 <= k < idx.len() && #[trigger] idx[k] == j
}

/// `idx` lists each of `0..n` exactly once.
pub open spec fn is_permutation(idx: Seq<usize>, n: nat) -> bool {
    &&& idx.len() == n
    &&& forall|k: int| 0 <= k < idx.len() ==> #[trigger] idx[k] < n
    &&& forall|a: int, b: int| 0 <= a < b < idx.len() ==> #[trigger] idx[a] != #[trigger] idx[b]
    &&& forall|j: int| 0 <= j < n ==> #[trigger] appears(idx, j)
}

/// Reading `keys` through `idx` gives an ordered sequence, and equal keys
/// keep their relative order.
pub open spec fn sorted_stably(keys: Seq<Seq<char>>, idx: Seq<usize>, desc: bool) -> bool {
    &&& forall|a: int, b: int|
        #![trigger idx[a], idx[b]]
        0 <= a < b < idx.len() ==> ordered(keys[idx[a] as int], keys[idx[b] as int], desc)
    &&& forall|a: int, b: int|
        #![trigger idx[a], idx[b]]
        0 <= a < b < idx.len() && keys[idx[a] as int] == keys[idx[b] as int] ==> idx[a] < idx[b]
}

/// `out` reads `src` at the positions `idx`.
pub open spec fn picks<V>(src: Seq<V>, out: Seq<V>, idx: Seq<usize>) -> bool {
    &&& out.len() == idx.len()
    &&& forall|k: int| 0 <= k < out.len() ==> #[trigger] out[k] == src[idx[k] as int]
}

pub open spec fn key_views(keys: Seq<Vec<char>>) -> Seq<Seq<char>> {
    Seq::new(keys.len(), |i: int| keys[i]@)
}

/// A stable sort of the positions `0..keys.len()` by key.
pub fn sort_indices(keys: &Vec<Vec<char>>, desc: bool) -> (idx: Vec<usize>)
    ensures
        is_permutation(idx@, keys@.len()),
        sorted_stably(key_views(keys@), idx@, desc),
{
    let ghost kv = key_views(keys@);
    let mut idx: Vec<usize> = Vec::new();
    let mut i: usize = 0;
    while i < keys.len()
        invariant
            i <= keys.len(),
            kv == key_views(keys@),
            is_permutation(idx@, i as nat),
            sorted_stably(kv, idx@, desc),
        decreases keys.len() - i,
    {
        let mut p: usize = idx.len();
        while p > 0 && !ordered_vec(&keys[idx[p - 1]], &keys[i], desc)
            invariant
                p <= idx.len(),
                i < keys.len(),
                kv == key_views(keys@),
                is_permutation(idx@, i as nat),
                forall|q: int| p <= q < idx.len() ==> !ordered(kv[#[trigger] idx@[q] as int], kv[i as int], desc),
            decreases p,
        {
            p -= 1;
        }
        let ghost old_idx = idx@;
        idx.insert(p, i);
        proof {
            let ni = idx@;
            assert(ni =~= old_idx.take(p as int).push(i) + old_idx.skip(p as int));
            assert forall|k: int| 0 <= k < ni.len() implies #[trigger] ni[k] < i + 1 by {
                if k < p {
                    assert(ni[k] == old_idx[k]);
                } else if k > p {
                    assert(ni[k] == old_idx[k - 1]);
                }
            }
            assert forall|a: int, b: int| 0 <= a < b < ni.len() implies #[trigger] ni[a] != #[trigger] ni[b] by {
                let oa = if a < p { a } else { a - 1 };
                let ob = if b < p { b } else { b - 1 };
                if a != p && b != p {
                    assert(ni[a] == old_idx[oa]);
                    assert(ni[b] == old_idx[ob]);
                    assert(old_idx[oa] != old_idx[ob]);
                } else if a == p {
                    assert(ni[b] == old_idx[ob]);
                    assert(old_idx[ob] < i);
                } else {
                    assert(ni[a] == old_idx[oa]);
                    assert(old_idx[oa] < i);
                }
            }
            assert forall|j: int| 0 <= j < i + 1 implies #[trigger] appears(ni, j) by {
                if j == i {
                    assert(ni[p as int] == j);
                } else {
                    assert(appears(old_idx, j));
                    let k = choose|k: int| 0 <= k < old_idx.len() && #[trigger] old_idx[k] == j;
                    if k < p {
                        assert(ni[k] == j);
                    } else {
                        assert(ni[k + 1] == j);
                    }
                }
            }
            assert forall|a: int, b: int|
                #![trigger ni[a], ni[b]]
                0 <= a < b < ni.len() implies ordered(kv[ni[a] as int], kv[ni[b] as int], desc) && (kv[ni[a] as int] == kv[ni[b] as int] ==> ni[a] < ni[b]) by {
                let oa = if a < p { a } else { a - 1 };
                let ob = if b < p { b } else { b - 1 };
                let ki = kv[i as int];
                if a != p && b != p {
                    assert(ni[a] == old_idx[oa]);
                    assert(ni[b] == old_idx[ob]);
                    assert(oa < ob);
                    assert(ordered(kv[old_idx[oa] as int], kv[old_idx[ob] as int], desc));
                } else if b == p {
                    assert(ni[a] == old_idx[a]);
                    assert(ni[b] == i);
                    let last = kv[old_idx[p - 1] as int];
                    assert(ordered(last, ki, desc));
                    if a < p - 1 {
                        assert(ordered(kv[old_idx[a] as int], last, desc));
                        lemma_ordered_facts(kv[old_idx[a] as int], last, ki, desc);
                    }
                    assert(old_idx[a] < i);
                } else {
                    assert(a == p);
                    assert(ni[a] == i);
                    assert(ni[b] == old_idx[ob]);
                    let kb = kv[old_idx[ob] as int];
                    assert(!ordered(kb, ki, desc));
                    lemma_ordered_facts(ki, kb, ki, desc);
                    lemma_ordered_facts(kb, kb, kb, desc);
                }
            }
        }
        i += 1;
    }
    idx
}

} // verus!
