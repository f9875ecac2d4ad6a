//! Listings of discovered items: the first item found for each id wins, and
//! the result is ordered by lower-cased name.
use vstd::prelude::*;

use crate::order::{appears, key_views, lex_le, ordered, sort_indices};
use crate::text::{lower, lower_vec, seq_eq};

verus! {

/// An item with an id and a display name.
pub trait Listed: View + Sized {
    spec fn id_of(v: Self::V) -> Seq<char>;

    spec fn name_of(v: Self::V) -> Seq<char>;

    fn id_chars(&self) -> (r: Vec<char>)
        ensures
            r@ == Self::id_of(self@),
    ;

    fn name_chars(&self) -> (r: Vec<char>)
        ensures
            r@ == Self::name_of(self@),
    ;

    fn copy_item(&self) -> (r: Self)
        ensures
            r@ == self@,
    ;
}

pub open spec fn item_views<T: View>(v: Seq<T>) -> Seq<T::V> {
    Seq::new(v.len(), |i: int| v[i]@)
}

/// Entry `i` of `all` is the first one there with its id.
pub open spec fn first_of_id<T: Listed>(all: Seq<T::V>, i: int) -> bool {
    &&& 0 <= i < all.len()
    &&& forall|j: int| 0 <= j < i ==> T::id_of(#[trigger] all[j]) != T::id_of(all[i])
}

pub open spec fn from_first<T: Listed>(all: Seq<T::V>, x: T::V) -> bool {
    exists|i: int| #[trigger] first_of_id::<T>(all, i) && x == all[i]
}

pub open spec fn in_listing<V>(out: Seq<V>, x: V) -> bool {
    exists|k: int| 0 <= k < out.len() && #[trigger] out[k] == x
}

/// `out` lists, for each id of `all`, the first entry with it, once,
/// ordered by lower-cased name.
pub open spec fn first_listing<T: Listed>(all: Seq<T::V>, out: Seq<T::V>) -> bool {
    &&& forall|k: int| 0 <= k < out.len() ==> #[trigger] from_first::<T>(all, out[k])
    &&& forall|i: int| #[trigger] first_of_id::<T>(all, i) ==> in_listing(out, all[i])
    &&& forall|a: int, b: int|
        0 <= a < b < out.len() ==> T::id_of(#[trigger] out[a]) != T::id_of(#[trigger] out[b])
    &&& forall|a: int, b: int|
        0 <= a < b < out.len() ==> lex_le(lower(T::name_of(#[trigger] out[a])), lower(T::name_of(#[trigger] out[b])))
}

/// The first item of each id, ordered by lower-cased name.
pub fn first_by_id_sorted<T: Listed>(all: &Vec<T>) -> (out: Vec<T>)
    ensures
        first_listing::<T>(item_views(all@), item_views(out@)),
{
    let ghost av = item_views(all@);
    let mut kept: Vec<usize> = Vec::new();
    let mut i: usize = 0;
    while i < all.len()
        invariant
            i <= all.len(),
            av == item_views(all@),
            forall|k: int| 0 <= k < kept@.len() ==> #[trigger] kept@[k] < i && first_of_id::<T>(av, kept@[k] as int),
            forall|a: int, b: int| 0 <= a < b < kept@.len() ==> #[trigger] kept@[a] < #[trigger] kept@[b],
            forall|j: int| 0 <= j < i && #[trigger] first_of_id::<T>(av, j) ==> appears(kept@, j),
        decreases all.len() - i,
    {
        let id_i = all[i].id_chars();
        let mut j: usize = 0;
        let mut first = true;
        while j < i
            invariant
                j <= i < all.len(),
                av == item_views(all@),
                id_i@ == T::id_of(av[i as int]),
                first == forall|m: int| 0 <= m < j ==> T::id_of(#[trigger] av[m]) != T::id_of(av[i as int]),
            decreases i - j,
        {
            let id_j = all[j].id_chars();
            assert(av[j as int] == all@[j as int]@);
            if seq_eq(&id_j, &id_i) {
                first = false;
            }
            j += 1;
        }
        let ghost prev = kept@;
        if first {
            kept.push(i);
            assert(kept@[kept@.len() - 1] == i);
        }
        proof {
            assert forall|jj: int| 0 <= jj < i + 1 && #[trigger] first_of_id::<T>(av, jj) implies appears(kept@, jj) by {
                if jj < i {
                    assert(appears(prev, jj));
                    let w = choose|w: int| 0 <= w < prev.len() && #[trigger] prev[w] == jj;
                    assert(kept@[w] == jj);
                } else {
                    assert(first);
                    assert(kept@[kept@.len() - 1] == jj);
                }
            }
        }
        i += 1;
    }
    let mut keys: Vec<Vec<char>> = Vec::new();
    let mut k: usize = 0;
    while k < kept.len()
        invariant
            k <= kept.len(),
            av == item_views(all@),
            forall|m: int| 0 <= m < kept@.len() ==> #[trigger] kept@[m] < all@.len(),
            keys@.len() == k,
            forall|m: int| 0 <= m < k ==> #[trigger] keys@[m]@ == lower(T::name_of(av[kept@[m] as int])),
        decreases kept.len() - k,
    {
        let n = all[kept[k]].name_chars();
        let l = lower_vec(&n);
        keys.push(l);
        k += 1;
    }
    let idx = sort_indices(&keys, false);
    let mut out: Vec<T> = Vec::new();
    let mut m: usize = 0;
    while m < idx.len()
        invariant
            m <= idx.len(),
            idx@.len() == kept@.len(),
            av == item_views(all@),
            forall|q: int| 0 <= q < kept@.len() ==> #[trigger] kept@[q] < all@.len(),
            forall|q: int| 0 <= q < idx@.len() ==> #[trigger] idx@[q] < kept@.len(),
            out@.len() == m,
            forall|q: int| 0 <= q < m ==> #[trigger] out@[q]@ == av[kept@[idx@[q] as int] as int],
        decreases idx.len() - m,
    {
        let c = all[kept[idx[m]]].copy_item();
        out.push(c);
        m += 1;
    }
    proof {
        let ov = item_views(out@);
        let kv = key_views(keys@);
        assert forall|q: int| 0 <= q < ov.len() implies #[trigger] from_first::<T>(av, ov[q]) by {
            assert(ov[q] == av[kept@[idx@[q] as int] as int]);
            assert(first_of_id::<T>(av, kept@[idx@[q] as int] as int));
        }
        assert forall|i: int| #[trigger] first_of_id::<T>(av, i) implies in_listing(ov, av[i]) by {
            assert(appears(kept@, i));
            let k = choose|k: int| 0 <= k < kept@.len() && #[trigger] kept@[k] == i;
            assert(appears(idx@, k));
            let q = choose|q: int| 0 <= q < idx@.len() && #[trigger] idx@[q] == k;
            assert(ov[q] == av[i]);
        }
        assert forall|a: int, b: int| 0 <= a < b < ov.len() implies T::id_of(#[trigger] ov[a]) != T::id_of(#[trigger] ov[b]) by {
            let ka = idx@[a] as int;
            let kb = idx@[b] as int;
            assert(ka != kb);
            let ia = kept@[ka] as int;
            let ib = kept@[kb] as int;
            if ka < kb {
                assert(ia < ib);
                assert(first_of_id::<T>(av, ib));
                assert(T::id_of(av[ia]) != T::id_of(av[ib]));
            } else {
                assert(ib < ia);
                assert(first_of_id::<T>(av, ia));
                assert(T::id_of(av[ib]) != T::id_of(av[ia]));
            }
        }
        assert forall|a: int, b: int| 0 <= a < b < ov.len() implies lex_le(lower(T::name_of(#[trigger] ov[a])), lower(T::name_of(#[trigger] ov[b]))) by {
            assert(ordered(kv[idx@[a] as int], kv[idx@[b] as int], false));
            assert(kv[idx@[a] as int] == lower(T::name_of(av[kept@[idx@[a] as int] as int])));
            assert(kv[idx@[b] as int] == lower(T::name_of(av[kept@[idx@[b] as int] as int])));
        }
    }
    out
}

} // verus!
