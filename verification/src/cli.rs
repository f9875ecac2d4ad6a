//! Command-line arguments of the benchmark programs: comma-separated lists,
//! `provider=value` overrides and positive integers.
use vstd::prelude::*;

use crate::bench::llm::{llm_provider_of, LlmProviderConfig, LlmProviderId};
use crate::text::{
    append_str, chars_of, copy_string, drop_empty, drop_empty_vec, map_trim, map_trim_vec,
    parse_unsigned, parse_unsigned_vec, split_by, split_once, split_once_vec, split_vec,
    string_of, strings_of, trim, trim_vec, trimmed, views, views_v, CharClass,
};

verus! {

pub open spec fn comma() -> (Seq<char>, bool, bool) {
    (seq![','], false, false)
}

/// The non-empty trimmed items of a comma-separated list.
pub open spec fn list_items(value: Seq<char>) -> Seq<Seq<char>> {
    drop_empty(map_trim(split_by(value, comma())))
}

pub(crate) fn list_items_vec(value: &str) -> (r: Vec<Vec<char>>)
    ensures
        views_v(r@) == list_items(value@),
{
    let c = CharClass::single(',');
    let parts = split_vec(&chars_of(value), &c);
    drop_empty_vec(&map_trim_vec(&parts))
}

// ---------------------------------------------------------------------------
// Positive integers
// ---------------------------------------------------------------------------

pub open spec fn not_integer_message(flag: Seq<char>, value: Seq<char>) -> Seq<char> {
    flag + " expects a positive integer, got '"@ + value + "'"@
}

pub open spec fn zero_message(flag: Seq<char>) -> Seq<char> {
    flag + " expects a value greater than 0"@
}

/// A flag's value as a positive integer no larger than `max`.
pub open spec fn positive_of(value: Seq<char>, flag: Seq<char>, max: nat) -> Result<nat, Seq<char>> {
    match parse_unsigned(value, max) {
        None => Err(not_integer_message(flag, value)),
        Some(n) => if n == 0 {
            Err(zero_message(flag))
        } else {
            Ok(n)
        },
    }
}

fn quoted(start: &str, value: &str, end: &str) -> (r: String)
    ensures
        r@ == start@ + value@ + end@,
{
    let mut m = chars_of(start);
    append_str(&mut m, value);
    append_str(&mut m, end);
    string_of(&m)
}

fn message2(flag: &str, middle: &str, value: &str, end: &str) -> (r: String)
    ensures
        r@ == flag@ + middle@ + value@ + end@,
{
    let mut m = chars_of(flag);
    append_str(&mut m, middle);
    append_str(&mut m, value);
    append_str(&mut m, end);
    string_of(&m)
}

fn parse_positive(value: &str, flag: &str, max: u64) -> (r: Result<u64, String>)
    ensures
        match positive_of(value@, flag@, max as nat) {
            Ok(n) => r == Ok::<u64, String>(n as u64),
            Err(m) => r matches Err(e) && e@ == m,
        },
{
    match parse_unsigned_vec(&chars_of(value), max) {
        None => Err(message2(flag, " expects a positive integer, got '", value, "'")),
        Some(n) => {
            if n == 0 {
                let mut m = chars_of(flag);
                append_str(&mut m, " expects a value greater than 0");
                Err(string_of(&m))
            } else {
                Ok(n)
            }
        },
    }
}

pub fn parse_positive_u32(value: &str, flag: &str) -> (r: Result<u32, String>)
    ensures
        match positive_of(value@, flag@, u32::MAX as nat) {
            Ok(n) => r == Ok::<u32, String>(n as u32),
            Err(m) => r matches Err(e) && e@ == m,
        },
{
    match parse_positive(value, flag, u32::MAX as u64) {
        Ok(n) => Ok(n as u32),
        Err(e) => Err(e),
    }
}

pub fn parse_positive_u64(value: &str, flag: &str) -> (r: Result<u64, String>)
    ensures
        match positive_of(value@, flag@, u64::MAX as nat) {
            Ok(n) => r == Ok::<u64, String>(n as u64),
            Err(m) => r matches Err(e) && e@ == m,
        },
{
    parse_positive(value, flag, u64::MAX)
}

pub fn parse_positive_usize(value: &str, flag: &str) -> (r: Result<usize, String>)
    ensures
        match positive_of(value@, flag@, usize::MAX as nat) {
            Ok(n) => r == Ok::<usize, String>(n as usize),
            Err(m) => r matches Err(e) && e@ == m,
        },
{
    match parse_positive(value, flag, usize::MAX as u64) {
        Ok(n) => Ok(n as usize),
        Err(e) => Err(e),
    }
}

// ---------------------------------------------------------------------------
// Lists
// ---------------------------------------------------------------------------

/// A non-empty list of names, else the given error.
pub open spec fn names_or(value: Seq<char>, error: Seq<char>) -> Result<Seq<Seq<char>>, Seq<char>> {
    if list_items(value).len() == 0 {
        Err(error)
    } else {
        Ok(list_items(value))
    }
}

fn names_or_vec(value: &str, error: &str) -> (r: Result<Vec<String>, String>)
    ensures
        match names_or(value@, error@) {
            Ok(v) => r matches Ok(x) && views(x@) == v,
            Err(m) => r matches Err(e) && e@ == m,
        },
{
    let items = list_items_vec(value);
    if items.len() == 0 {
        return Err(String::from_str(error));
    }
    let out = strings_of(&items);
    assert(views(out@) =~= views_v(items@));
    Ok(out)
}

/// The task ids of a `--tasks` value.
pub fn parse_task_filter(value: &str) -> (r: Result<Vec<String>, String>)
    ensures
        match names_or(value@, "at least one task id is required"@) {
            Ok(v) => r matches Ok(x) && views(x@) == v,
            Err(m) => r matches Err(e) && e@ == m,
        },
{
    names_or_vec(value, "at least one task id is required")
}

/// The scenario names of a `--business-ops-scenarios` value.
pub fn parse_scenario_list(value: &str) -> (r: Result<Vec<String>, String>)
    ensures
        match names_or(value@, "--business-ops-scenarios must include at least one scenario"@) {
            Ok(v) => r matches Ok(x) && views(x@) == v,
            Err(m) => r matches Err(e) && e@ == m,
        },
{
    names_or_vec(value, "--business-ops-scenarios must include at least one scenario")
}

/// Reads the items in order, dropping repeats: the first failing item's
/// error, or the distinct values.
pub open spec fn distinct_providers(items: Seq<Seq<char>>) -> Result<Seq<LlmProviderId>, Seq<char>>
    decreases items.len(),
{
    if items.len() == 0 {
        Ok(Seq::<LlmProviderId>::empty())
    } else {
        match distinct_providers(items.drop_last()) {
            Err(m) => Err(m),
            Ok(ps) => match llm_provider_of(items.last()) {
                None => Err("unsupported llm provider: "@ + items.last()),
                Some(p) => if ps.contains(p) {
                    Ok(ps)
                } else {
                    Ok(ps.push(p))
                },
            },
        }
    }
}

/// A list of providers: at least one, each once, in order of first mention.
pub open spec fn provider_list_of(value: Seq<char>, empty_error: Seq<char>) -> Result<Seq<LlmProviderId>, Seq<char>> {
    match distinct_providers(list_items(value)) {
        Err(m) => Err(m),
        Ok(ps) => if ps.len() == 0 {
            Err(empty_error)
        } else {
            Ok(ps)
        },
    }
}

fn contains_provider(v: &Vec<LlmProviderId>, p: LlmProviderId) -> (r: bool)
    ensures
        r == v@.contains(p),
{
    let mut i: usize = 0;
    while i < v.len()
        invariant
            i <= v.len(),
            forall|k: int| 0 <= k < i ==> v@[k] != p,
        decreases v.len() - i,
    {
        if v[i] == p {
            assert(v@[i as int] == p);
            return true;
        }
        i += 1;
    }
    false
}

/// Reads a comma-separated provider list.
pub fn parse_provider_list(value: &str, empty_error: &str) -> (r: Result<Vec<LlmProviderId>, String>)
    ensures
        match provider_list_of(value@, empty_error@) {
            Ok(v) => r matches Ok(x) && x@ == v,
            Err(m) => r matches Err(e) && e@ == m,
        },
{
    let items = list_items_vec(value);
    let ghost iv = views_v(items@);
    let mut out: Vec<LlmProviderId> = Vec::new();
    let mut i: usize = 0;
    assert(iv.take(0) =~= Seq::<Seq<char>>::empty());
    while i < items.len()
        invariant
            i <= items.len(),
            iv == views_v(items@),
            iv == list_items(value@),
            distinct_providers(iv.take(i as int)) == Ok::<Seq<LlmProviderId>, Seq<char>>(out@),
        decreases items.len() - i,
    {
        assert(iv.take(i + 1).drop_last() =~= iv.take(i as int));
        assert(iv.take(i + 1).last() == items@[i as int]@);
        let name = string_of(&items[i]);
        match LlmProviderId::parse(name.as_str()) {
            Err(e) => {
                proof {
                    lemma_providers_err(iv, i + 1);
                }
                return Err(e);
            },
            Ok(p) => {
                if !contains_provider(&out, p) {
                    out.push(p);
                }
            },
        }
        i += 1;
    }
    assert(iv.take(items.len() as int) =~= iv);
    if out.len() == 0 {
        return Err(String::from_str(empty_error));
    }
    Ok(out)
}

/// Reads the items as positive sizes in order, dropping repeats.
pub open spec fn distinct_sizes(items: Seq<Seq<char>>) -> Result<Seq<usize>, Seq<char>>
    decreases items.len(),
{
    if items.len() == 0 {
        Ok(Seq::<usize>::empty())
    } else {
        match distinct_sizes(items.drop_last()) {
            Err(m) => Err(m),
            Ok(vs) => match positive_of(items.last(), "--batch-sizes"@, usize::MAX as nat) {
                Err(m) => Err(m),
                Ok(n) => if vs.contains(n as usize) {
                    Ok(vs)
                } else {
                    Ok(vs.push(n as usize))
                },
            },
        }
    }
}

pub open spec fn batch_sizes_of(value: Seq<char>) -> Result<Seq<usize>, Seq<char>> {
    match distinct_sizes(list_items(value)) {
        Err(m) => Err(m),
        Ok(vs) => if vs.len() == 0 {
            Err("--batch-sizes must include at least one value"@)
        } else {
            Ok(vs)
        },
    }
}

fn contains_size(v: &Vec<usize>, n: usize) -> (r: bool)
    ensures
        r == v@.contains(n),
{
    let mut i: usize = 0;
    while i < v.len()
        invariant
            i <= v.len(),
            forall|k: int| 0 <= k < i ==> v@[k] != n,
        decreases v.len() - i,
    {
        if v[i] == n {
            assert(v@[i as int] == n);
            return true;
        }
        i += 1;
    }
    false
}

/// The batch sizes of a `--batch-sizes` value.
pub fn parse_batch_sizes(value: &str) -> (r: Result<Vec<usize>, String>)
    ensures
        match batch_sizes_of(value@) {
            Ok(v) => r matches Ok(x) && x@ == v,
            Err(m) => r matches Err(e) && e@ == m,
        },
{
    let items = list_items_vec(value);
    let ghost iv = views_v(items@);
    let mut out: Vec<usize> = Vec::new();
    let mut i: usize = 0;
    assert(iv.take(0) =~= Seq::<Seq<char>>::empty());
    while i < items.len()
        invariant
            i <= items.len(),
            iv == views_v(items@),
            iv == list_items(value@),
            distinct_sizes(iv.take(i as int)) == Ok::<Seq<usize>, Seq<char>>(out@),
        decreases items.len() - i,
    {
        assert(iv.take(i + 1).drop_last() =~= iv.take(i as int));
        assert(iv.take(i + 1).last() == items@[i as int]@);
        let s = string_of(&items[i]);
        match parse_positive_usize(s.as_str(), "--batch-sizes") {
            Err(e) => {
                proof {
                    lemma_sizes_err(iv, i + 1);
                }
                return Err(e);
            },
            Ok(n) => {
                if !contains_size(&out, n) {
                    out.push(n);
                }
            },
        }
        i += 1;
    }
    assert(iv.take(items.len() as int) =~= iv);
    if out.len() == 0 {
        return Err(String::from_str("--batch-sizes must include at least one value"));
    }
    Ok(out)
}

// ---------------------------------------------------------------------------
// Provider overrides
// ---------------------------------------------------------------------------

/// `HashMap::insert` on an association list: replaces the value of `k`, or
/// appends the pair.
pub open spec fn ov_insert(m: Seq<(LlmProviderId, Seq<char>)>, k: LlmProviderId, v: Seq<char>) -> Seq<(LlmProviderId, Seq<char>)>
    decreases m.len(),
{
    if m.len() == 0 {
        seq![(k, v)]
    } else if m[0].0 == k {
        m.update(0, (k, v))
    } else {
        seq![m[0]] + ov_insert(m.drop_first(), k, v)
    }
}

/// The value given for a provider.
pub open spec fn ov_get(m: Seq<(LlmProviderId, Seq<char>)>, k: LlmProviderId) -> Option<Seq<char>>
    decreases m.len(),
{
    if m.len() == 0 {
        None
    } else if m[0].0 == k {
        Some(m[0].1)
    } else {
        ov_get(m.drop_first(), k)
    }
}

pub open spec fn ov_views(m: Seq<(LlmProviderId, String)>) -> Seq<(LlmProviderId, Seq<char>)> {
    Seq::new(m.len(), |i: int| (m[i].0, m[i].1@))
}

pub(crate) fn ov_insert_vec(m: &mut Vec<(LlmProviderId, String)>, k: LlmProviderId, v: String)
    ensures
        ov_views(final(m)@) == ov_insert(ov_views(old(m)@), k, v@),
{
    let ghost mv = ov_views(m@);
    let mut i: usize = 0;
    while i < m.len() && m[i].0 != k
        invariant
            i <= m.len(),
            mv == ov_views(m@),
            forall|j: int| 0 <= j < i ==> m@[j].0 != k,
        decreases m.len() - i,
    {
        i += 1;
    }
    proof {
        lemma_ov_insert_prefix(mv, k, v@, i as int);
    }
    if i < m.len() {
        m.set(i, (k, v));
        assert(ov_views(m@) =~= mv.update(i as int, (k, v@)));
    } else {
        m.push((k, v));
        assert(ov_views(m@) =~= mv.push((k, v@)));
    }
}

pub proof fn lemma_ov_insert_prefix(m: Seq<(LlmProviderId, Seq<char>)>, k: LlmProviderId, v: Seq<char>, i: int)
    requires
        0 <= i <= m.len(),
        forall|j: int| 0 <= j < i ==> m[j].0 != k,
    ensures
        i < m.len() && m[i].0 == k ==> ov_insert(m, k, v) == m.update(i, (k, v)),
        i == m.len() ==> ov_insert(m, k, v) == m.push((k, v)),
    decreases i,
{
    if i > 0 {
        lemma_ov_insert_prefix(m.drop_first(), k, v, i - 1);
        if i < m.len() && m[i].0 == k {
            assert(seq![m[0]] + m.drop_first().update(i - 1, (k, v)) =~= m.update(i, (k, v)));
        }
        if i == m.len() {
            assert(seq![m[0]] + m.drop_first().push((k, v)) =~= m.push((k, v)));
        }
    } else {
        if m.len() == 0 {
            assert(seq![(k, v)] =~= m.push((k, v)));
        }
    }
}

/// Reads `provider=value` items in order; a later value for a provider
/// replaces an earlier one.
pub open spec fn overrides_from(items: Seq<Seq<char>>) -> Result<Seq<(LlmProviderId, Seq<char>)>, Seq<char>>
    decreases items.len(),
{
    if items.len() == 0 {
        Ok(Seq::<(LlmProviderId, Seq<char>)>::empty())
    } else {
        match overrides_from(items.drop_last()) {
            Err(m) => Err(m),
            Ok(acc) => {
                let t = items.last();
                match split_once(t, '=') {
                    None => Err("override entry '"@ + t + "' must be provider=value"@),
                    Some((p, v)) => match llm_provider_of(trim(p)) {
                        None => Err("unsupported llm provider: "@ + trim(p)),
                        Some(id) => if trim(v).len() == 0 {
                            Err("override entry '"@ + t + "' has an empty value"@)
                        } else {
                            Ok(ov_insert(acc, id, trim(v)))
                        },
                    },
                }
            },
        }
    }
}

/// Reads a comma-separated list of `provider=value` overrides.
pub fn parse_provider_overrides(value: &str) -> (r: Result<Vec<(LlmProviderId, String)>, String>)
    ensures
        match overrides_from(list_items(value@)) {
            Ok(v) => r matches Ok(x) && ov_views(x@) == v,
            Err(m) => r matches Err(e) && e@ == m,
        },
{
    let items = list_items_vec(value);
    let ghost iv = views_v(items@);
    let mut out: Vec<(LlmProviderId, String)> = Vec::new();
    let mut i: usize = 0;
    assert(iv.take(0) =~= Seq::<Seq<char>>::empty());
    assert(ov_views(out@) =~= Seq::<(LlmProviderId, Seq<char>)>::empty());
    while i < items.len()
        invariant
            i <= items.len(),
            iv == views_v(items@),
            iv == list_items(value@),
            overrides_from(iv.take(i as int)) == Ok::<Seq<(LlmProviderId, Seq<char>)>, Seq<char>>(ov_views(out@)),
        decreases items.len() - i,
    {
        assert(iv.take(i + 1).drop_last() =~= iv.take(i as int));
        assert(iv.take(i + 1).last() == items@[i as int]@);
        let t = string_of(&items[i]);
        match split_once_vec(&items[i], '=') {
            None => {
                proof {
                    lemma_overrides_err(iv, i + 1);
                }
                return Err(quoted("override entry '", t.as_str(), "' must be provider=value"));
            },
            Some((p, v)) => {
                let pt = string_of(&trim_vec(&p));
                match LlmProviderId::parse(pt.as_str()) {
                    Err(e) => {
                        proof {
                            lemma_overrides_err(iv, i + 1);
                        }
                        return Err(e);
                    },
                    Ok(id) => {
                        let vt = trim_vec(&v);
                        if vt.len() == 0 {
                            proof {
                                lemma_overrides_err(iv, i + 1);
                            }
                            return Err(quoted("override entry '", t.as_str(), "' has an empty value"));
                        }
                        ov_insert_vec(&mut out, id, string_of(&vt));
                    },
                }
            },
        }
        i += 1;
    }
    assert(iv.take(items.len() as int) =~= iv);
    Ok(out)
}

proof fn lemma_providers_err(s: Seq<Seq<char>>, n: int)
    requires
        0 <= n <= s.len(),
        distinct_providers(s.take(n)) is Err,
    ensures
        distinct_providers(s) == distinct_providers(s.take(n)),
    decreases s.len() - n,
{
    if n < s.len() {
        assert(s.take(n + 1).drop_last() =~= s.take(n));
        lemma_providers_err(s, n + 1);
    } else {
        assert(s.take(n) =~= s);
    }
}

proof fn lemma_sizes_err(s: Seq<Seq<char>>, n: int)
    requires
        0 <= n <= s.len(),
        distinct_sizes(s.take(n)) is Err,
    ensures
        distinct_sizes(s) == distinct_sizes(s.take(n)),
    decreases s.len() - n,
{
    if n < s.len() {
        assert(s.take(n + 1).drop_last() =~= s.take(n));
        lemma_sizes_err(s, n + 1);
    } else {
        assert(s.take(n) =~= s);
    }
}

proof fn lemma_overrides_err(s: Seq<Seq<char>>, n: int)
    requires
        0 <= n <= s.len(),
        overrides_from(s.take(n)) is Err,
    ensures
        overrides_from(s) == overrides_from(s.take(n)),
    decreases s.len() - n,
{
    if n < s.len() {
        assert(s.take(n + 1).drop_last() =~= s.take(n));
        lemma_overrides_err(s, n + 1);
    } else {
        assert(s.take(n) =~= s);
    }
}

} // verus!
