//! Per-project auto memory: a `MEMORY.md` file whose preferences block, a
//! JSON document between two HTML comment markers, holds the user's
//! preferences.
//!
//! Reading and writing files, the environment and the JSON (de)serialisation
//! are the caller's business; this module decides where the file lives,
//! finds and replaces the block, and edits the preference list.
use vstd::prelude::*;

use crate::json_value::{entries_view, get, get_key, json_view, lemma_entries_view, push_entry, JsonValue, JsonView};
use crate::listing::item_views;
use crate::order::{appears, is_permutation, key_views, picks, sort_indices, sorted_stably};
use crate::text::{
    append_str, append_vec, chars_of, copy_string, find, find_vec, is_alnum, occurs_at,
    is_ascii_alphanumeric, join, join_vec, lemma_find, lines, lines_vec, lit, lower, lower_vec,
    opt_str_view, opt_view, seq_eq, slice_vec, string_of, trim, trim_vec, trimmed,
    trimmed_nonempty, trimmed_nonempty_str, views, views_v,
};

verus! {

/// The marker that opens the preferences block.
pub open spec fn start_marker() -> Seq<char> {
    "<!-- PREFERENCES_START -->"@
}

/// The marker that closes the preferences block.
pub open spec fn end_marker() -> Seq<char> {
    "<!-- PREFERENCES_END -->"@
}

/// At most this many lines of the memory file go into a run's context.
pub const MAX_MEMORY_LINES: usize = 200;

/// At most this many preferences are kept, the most recently updated.
pub const MAX_PREFERENCES: usize = 100;

// ---------------------------------------------------------------------------
// Entries
// ---------------------------------------------------------------------------

#[derive(Debug)]
pub struct PreferenceEntry {
    pub key: String,
    pub value: String,
    pub category: Option<String>,
    /// An RFC 3339 timestamp.
    pub updated_at: String,
}

pub struct PreferenceView {
    pub key: Seq<char>,
    pub value: Seq<char>,
    pub category: Option<Seq<char>>,
    pub updated_at: Seq<char>,
}

impl View for PreferenceEntry {
    type V = PreferenceView;

    open spec fn view(&self) -> PreferenceView {
        PreferenceView {
            key: self.key@,
            value: self.value@,
            category: opt_view(self.category),
            updated_at: self.updated_at@,
        }
    }
}

impl PreferenceEntry {
    pub fn copy(&self) -> (r: PreferenceEntry)
        ensures
            r@ == self@,
    {
        PreferenceEntry {
            key: copy_string(&self.key),
            value: copy_string(&self.value),
            category: match &self.category {
                Some(c) => Some(copy_string(c)),
                None => None,
            },
            updated_at: copy_string(&self.updated_at),
        }
    }
}

// ---------------------------------------------------------------------------
// Ordering
// ---------------------------------------------------------------------------

/// The sort key of each entry: its update time, or its key.
pub open spec fn entry_keys(ps: Seq<PreferenceView>, by_updated: bool) -> Seq<Seq<char>> {
    Seq::new(
        ps.len(),
        |i: int|
            if by_updated {
                ps[i].updated_at
            } else {
                ps[i].key
            },
    )
}

pub open spec fn min(a: nat, b: nat) -> nat {
    if a <= b {
        a
    } else {
        b
    }
}

/// `out` is the first `limit` entries of `src` after a stable sort: newest
/// update first when `by_updated`, else by key in ascending order.
pub open spec fn sorted_prefix(src: Seq<PreferenceView>, out: Seq<PreferenceView>, by_updated: bool, limit: nat) -> bool {
    exists|idx: Seq<usize>|
        is_permutation(idx, src.len()) && sorted_stably(entry_keys(src, by_updated), idx, by_updated)
            && #[trigger] picks(src, out, idx.take(min(limit, src.len()) as int))
}

fn sort_entries(prefs: &Vec<PreferenceEntry>, by_updated: bool, limit: usize) -> (r: Vec<PreferenceEntry>)
    ensures
        sorted_prefix(item_views(prefs@), item_views(r@), by_updated, limit as nat),
{
    let ghost pv = item_views(prefs@);
    let mut keys: Vec<Vec<char>> = Vec::new();
    let mut i: usize = 0;
    while i < prefs.len()
        invariant
            i <= prefs.len(),
            pv == item_views(prefs@),
            keys@.len() == i,
            forall|k: int| 0 <= k < i ==> #[trigger] keys@[k]@ == entry_keys(pv, by_updated)[k],
        decreases prefs.len() - i,
    {
        let k = if by_updated {
            chars_of(prefs[i].updated_at.as_str())
        } else {
            chars_of(prefs[i].key.as_str())
        };
        keys.push(k);
        i += 1;
    }
    assert(key_views(keys@) =~= entry_keys(pv, by_updated));
    let idx = sort_indices(&keys, by_updated);
    let n = if limit < idx.len() {
        limit
    } else {
        idx.len()
    };
    let mut out: Vec<PreferenceEntry> = Vec::new();
    let mut q: usize = 0;
    while q < n
        invariant
            q <= n <= idx.len(),
            idx@.len() == prefs@.len(),
            pv == item_views(prefs@),
            forall|m: int| 0 <= m < idx@.len() ==> #[trigger] idx@[m] < prefs@.len(),
            out@.len() == q,
            forall|m: int| 0 <= m < q ==> #[trigger] out@[m]@ == pv[idx@[m] as int],
        decreases n - q,
    {
        out.push(prefs[idx[q]].copy());
        q += 1;
    }
    proof {
        assert(pv.len() == prefs@.len());
        assert(min(limit as nat, pv.len()) == n);
        assert forall|k: int| 0 <= k < item_views(out@).len() implies #[trigger] item_views(out@)[k] == pv[idx@.take(n as int)[k] as int] by {
            assert(out@[k]@ == pv[idx@[k] as int]);
        }
        assert(picks(pv, item_views(out@), idx@.take(n as int)));
        assert(is_permutation(idx@, pv.len()) && sorted_stably(entry_keys(pv, by_updated), idx@, by_updated)
            && picks(pv, item_views(out@), idx@.take(min(limit as nat, pv.len()) as int)));
    }
    out
}

/// The preferences ordered by key.
pub fn list_preferences(prefs: &Vec<PreferenceEntry>) -> (r: Vec<PreferenceEntry>)
    ensures
        sorted_prefix(item_views(prefs@), item_views(r@), false, prefs@.len()),
        r@.len() == prefs@.len(),
{
    sort_entries(prefs, false, prefs.len())
}

/// The most recently updated preferences, newest first, at most
/// `MAX_PREFERENCES` of them.
pub fn newest_preferences(prefs: &Vec<PreferenceEntry>) -> (r: Vec<PreferenceEntry>)
    ensures
        sorted_prefix(item_views(prefs@), item_views(r@), true, MAX_PREFERENCES as nat),
        r@.len() == min(prefs@.len(), MAX_PREFERENCES as nat),
{
    let r = sort_entries(prefs, true, MAX_PREFERENCES);
    proof {
        let idx = choose|idx: Seq<usize>|
            is_permutation(idx, prefs@.len()) && sorted_stably(entry_keys(item_views(prefs@), true), idx, true)
                && #[trigger] picks(item_views(prefs@), item_views(r@), idx.take(min(MAX_PREFERENCES as nat, prefs@.len()) as int));
        assert(item_views(r@).len() == r@.len());
    }
    r
}

// ---------------------------------------------------------------------------
// Editing the list
// ---------------------------------------------------------------------------

/// The first index at or after `i` of an entry with the key, or -1.
pub open spec fn key_index_from(ps: Seq<PreferenceView>, key: Seq<char>, i: int) -> int
    decreases ps.len() - i,
{
    if i < 0 || i >= ps.len() {
        -1
    } else if ps[i].key == key {
        i
    } else {
        key_index_from(ps, key, i + 1)
    }
}

pub proof fn lemma_key_index_from(ps: Seq<PreferenceView>, key: Seq<char>, i: int)
    requires
        0 <= i,
    ensures
        key_index_from(ps, key, i) == -1 || (i <= key_index_from(ps, key, i) < ps.len()
            && ps[key_index_from(ps, key, i)].key == key),
        key_index_from(ps, key, i) == -1 ==> forall|j: int| i <= j < ps.len() ==> #[trigger] ps[j].key != key,
    decreases ps.len() - i,
{
    if i < ps.len() && ps[i].key != key {
        lemma_key_index_from(ps, key, i + 1);
    }
}

/// The list with `e` in place of the first entry with its key, or with `e`
/// appended when there is none.
pub open spec fn upserted(ps: Seq<PreferenceView>, e: PreferenceView) -> Seq<PreferenceView> {
    let i = key_index_from(ps, e.key, 0);
    if i >= 0 {
        ps.update(i, e)
    } else {
        ps.push(e)
    }
}

/// The entry stored for a preference.
pub open spec fn preference_entry(key: Seq<char>, value: Seq<char>, category: Option<Seq<char>>, now: Seq<char>) -> PreferenceView {
    PreferenceView { key: key, value: value, category: trimmed_nonempty(category), updated_at: now }
}

/// Checks a preference write before the memory file is touched: refused
/// when auto memory is off, or when the key is blank.  Gives the trimmed
/// key.
pub fn upsert_precheck(enabled: bool, key: &str) -> (r: Result<String, String>)
    ensures
        !enabled ==> (r matches Err(m) && m@ == "auto memory is disabled"@),
        enabled && trim(key@).len() == 0 ==> (r matches Err(m) && m@ == "preference key cannot be empty"@),
        enabled && trim(key@).len() > 0 ==> (r matches Ok(k) && k@ == trim(key@)),
{
    if !enabled {
        return Err(String::from_str("auto memory is disabled"));
    }
    let k = trimmed(key);
    if k.len() == 0 {
        return Err(String::from_str("preference key cannot be empty"));
    }
    Ok(string_of(&k))
}

/// Sets a preference at the given time: the entry with the key is replaced,
/// or the entry is added; then the newest `MAX_PREFERENCES` are kept, newest
/// first.  Gives the new list and the stored entry.
pub fn upsert_preference_at(
    prefs: &Vec<PreferenceEntry>,
    key: &str,
    value: &str,
    category: Option<&str>,
    now: &str,
) -> (r: (Vec<PreferenceEntry>, PreferenceEntry))
    ensures
        r.1@ == preference_entry(key@, value@, opt_str_view(category), now@),
        sorted_prefix(upserted(item_views(prefs@), r.1@), item_views(r.0@), true, MAX_PREFERENCES as nat),
{
    let ghost pv = item_views(prefs@);
    let cat = match trimmed_nonempty_str(category) {
        Some(c) => Some(string_of(&c)),
        None => None,
    };
    let entry = PreferenceEntry {
        key: String::from_str(key),
        value: String::from_str(value),
        category: cat,
        updated_at: String::from_str(now),
    };
    let want = chars_of(key);
    let mut next: Vec<PreferenceEntry> = Vec::new();
    let mut found = false;
    let mut i: usize = 0;
    proof {
        lemma_key_index_from(pv, key@, 0);
    }
    while i < prefs.len()
        invariant
            i <= prefs.len(),
            pv == item_views(prefs@),
            want@ == key@,
            entry@ == preference_entry(key@, value@, opt_str_view(category), now@),
            next@.len() == i,
            found ==> 0 <= key_index_from(pv, key@, 0) < i,
            !found ==> key_index_from(pv, key@, 0) == key_index_from(pv, key@, i as int),
            forall|k: int| 0 <= k < i ==> #[trigger] next@[k]@ == upserted(pv, entry@)[k],
        decreases prefs.len() - i,
    {
        let have = chars_of(prefs[i].key.as_str());
        assert(pv[i as int] == prefs@[i as int]@);
        let ghost prev = next@;
        if !found && seq_eq(&have, &want) {
            assert(key_index_from(pv, key@, i as int) == i);
            next.push(entry.copy());
            found = true;
            assert(upserted(pv, entry@)[i as int] == entry@);
        } else {
            proof {
                if !found {
                    assert(pv[i as int].key != key@);
                    assert(key_index_from(pv, key@, i as int) == key_index_from(pv, key@, i + 1));
                    lemma_key_index_from(pv, key@, i + 1);
                }
            }
            next.push(prefs[i].copy());
            assert(upserted(pv, entry@)[i as int] == pv[i as int]);
        }
        assert(forall|k: int| 0 <= k < i ==> next@[k] == prev[k]);
        i += 1;
    }
    if !found {
        next.push(entry.copy());
    }
    assert(item_views(next@) =~= upserted(pv, entry@));
    let doc = sort_entries(&next, true, MAX_PREFERENCES);
    (doc, entry)
}

/// The current time in RFC 3339 form: chrono's `Utc::now().to_rfc3339()`.
/// Nothing is claimed of the value: it depends on the clock.
#[verifier::external_body]
pub(crate) fn now_rfc3339() -> (r: String) {
    chrono::Utc::now().to_rfc3339()
}

/// Sets a preference now (see `upsert_preference_at`); the stored entry
/// carries the time used.
pub fn upsert_preference(
    prefs: &Vec<PreferenceEntry>,
    key: &str,
    value: &str,
    category: Option<&str>,
) -> (r: (Vec<PreferenceEntry>, PreferenceEntry))
    ensures
        r.1@ == preference_entry(key@, value@, opt_str_view(category), r.1@.updated_at),
        sorted_prefix(upserted(item_views(prefs@), r.1@), item_views(r.0@), true, MAX_PREFERENCES as nat),
{
    let now = now_rfc3339();
    upsert_preference_at(prefs, key, value, category, now.as_str())
}

/// `out` holds `e`.
pub open spec fn holds_entry(out: Seq<PreferenceView>, e: PreferenceView) -> bool {
    exists|k: int| 0 <= k < out.len() && #[trigger] out[k] == e
}

/// After a preference is set, the list holds the stored entry, unless the
/// list had to be cut to `MAX_PREFERENCES` entries.
pub proof fn law_upsert_keeps_entry(ps: Seq<PreferenceView>, e: PreferenceView, out: Seq<PreferenceView>)
    requires
        sorted_prefix(upserted(ps, e), out, true, MAX_PREFERENCES as nat),
        upserted(ps, e).len() <= MAX_PREFERENCES,
    ensures
        holds_entry(out, e),
{
    let u = upserted(ps, e);
    let idx = choose|idx: Seq<usize>|
        is_permutation(idx, u.len()) && sorted_stably(entry_keys(u, true), idx, true)
            && #[trigger] picks(u, out, idx.take(min(MAX_PREFERENCES as nat, u.len()) as int));
    lemma_key_index_from(ps, e.key, 0);
    let p = if key_index_from(ps, e.key, 0) >= 0 {
        key_index_from(ps, e.key, 0)
    } else {
        ps.len() as int
    };
    assert(u[p] == e);
    assert(appears(idx, p));
    let k = choose|k: int| 0 <= k < idx.len() && #[trigger] idx[k] == p;
    assert(idx.take(u.len() as int) =~= idx);
    assert(out[k] == u[idx[k] as int]);
}

/// The entries without the given key, in order.
pub open spec fn without_key(ps: Seq<PreferenceView>, key: Seq<char>) -> Seq<PreferenceView>
    decreases ps.len(),
{
    if ps.len() == 0 {
        ps
    } else if ps.last().key == key {
        without_key(ps.drop_last(), key)
    } else {
        without_key(ps.drop_last(), key).push(ps.last())
    }
}

/// Checks a preference removal before the memory file is touched: nothing
/// to do (`None`) when auto memory is off, refused when the key is blank.
/// Gives the trimmed key.
pub fn delete_precheck(enabled: bool, key: &str) -> (r: Result<Option<String>, String>)
    ensures
        !enabled ==> r matches Ok(None),
        enabled && trim(key@).len() == 0 ==> (r matches Err(m) && m@ == "preference key cannot be empty"@),
        enabled && trim(key@).len() > 0 ==> (r matches Ok(Some(k)) && k@ == trim(key@)),
{
    if !enabled {
        return Ok(None);
    }
    let k = trimmed(key);
    if k.len() == 0 {
        return Err(String::from_str("preference key cannot be empty"));
    }
    Ok(Some(string_of(&k)))
}

/// Removes every entry with the key; `None` when there is none.
pub fn remove_preference(prefs: &Vec<PreferenceEntry>, key: &str) -> (r: Option<Vec<PreferenceEntry>>)
    ensures
        without_key(item_views(prefs@), key@).len() == prefs@.len() <==> r is None,
        r matches Some(v) ==> item_views(v@) == without_key(item_views(prefs@), key@),
{
    let ghost pv = item_views(prefs@);
    let want = chars_of(key);
    let mut out: Vec<PreferenceEntry> = Vec::new();
    let mut i: usize = 0;
    assert(pv.take(0) =~= Seq::<PreferenceView>::empty());
    while i < prefs.len()
        invariant
            i <= prefs.len(),
            pv == item_views(prefs@),
            want@ == key@,
            item_views(out@) == without_key(pv.take(i as int), key@),
            out@.len() <= i,
        decreases prefs.len() - i,
    {
        assert(pv.take(i + 1).drop_last() =~= pv.take(i as int));
        let have = chars_of(prefs[i].key.as_str());
        if !seq_eq(&have, &want) {
            let ghost prev = out@;
            out.push(prefs[i].copy());
            assert(item_views(out@) =~= item_views(prev).push(pv[i as int]));
        }
        i += 1;
    }
    assert(pv.take(prefs.len() as int) =~= pv);
    if out.len() == prefs.len() {
        None
    } else {
        Some(out)
    }
}

/// After a removal no entry has the key.
pub proof fn law_removed_key_is_gone(ps: Seq<PreferenceView>, key: Seq<char>)
    ensures
        forall|k: int| 0 <= k < without_key(ps, key).len() ==> (#[trigger] without_key(ps, key)[k]).key != key,
        without_key(ps, key).len() <= ps.len(),
    decreases ps.len(),
{
    if ps.len() > 0 {
        law_removed_key_is_gone(ps.drop_last(), key);
        let w = without_key(ps.drop_last(), key);
        if ps.last().key != key {
            assert forall|k: int| 0 <= k < w.push(ps.last()).len() implies (#[trigger] w.push(ps.last())[k]).key != key by {
                if k < w.len() {
                    assert(w.push(ps.last())[k] == w[k]);
                }
            }
        }
    }
}

/// Keeps the newest `MAX_PREFERENCES` entries, newest first; gives them and
/// the number dropped.
pub fn compact_preferences(prefs: &Vec<PreferenceEntry>) -> (r: (Vec<PreferenceEntry>, usize))
    ensures
        sorted_prefix(item_views(prefs@), item_views(r.0@), true, MAX_PREFERENCES as nat),
        r.0@.len() == min(prefs@.len(), MAX_PREFERENCES as nat),
        r.0@.len() <= MAX_PREFERENCES,
        r.1 == prefs@.len() - r.0@.len(),
{
    let kept = newest_preferences(prefs);
    let dropped = prefs.len() - kept.len();
    (kept, dropped)
}

/// The preferences that replace an empty memory list: the legacy ones,
/// newest first and cut to `MAX_PREFERENCES`; `None` when there are none.
pub fn migrated_preferences(legacy: &Vec<PreferenceEntry>) -> (r: Option<Vec<PreferenceEntry>>)
    ensures
        legacy@.len() == 0 <==> r is None,
        r matches Some(v) ==> sorted_prefix(item_views(legacy@), item_views(v@), true, MAX_PREFERENCES as nat),
{
    if legacy.len() == 0 {
        None
    } else {
        Some(newest_preferences(legacy))
    }
}

// ---------------------------------------------------------------------------
// The memory file
// ---------------------------------------------------------------------------

/// Where the text after the start marker begins, and the length of the
/// block up to the end marker, when both markers are there.
pub open spec fn block_bounds(c: Seq<char>) -> Option<(int, int)> {
    let s = find(c, start_marker());
    let a = s + start_marker().len();
    let e = find(c.skip(a), end_marker());
    if s < 0 || e < 0 {
        None
    } else {
        Some((a, e))
    }
}

/// The trimmed text between the markers.
pub open spec fn preferences_block(c: Seq<char>) -> Option<Seq<char>> {
    match block_bounds(c) {
        Some((a, e)) => Some(trim(c.subrange(a, a + e))),
        None => None,
    }
}

fn block_bounds_vec(c: &Vec<char>) -> (r: Option<(usize, usize)>)
    ensures
        match block_bounds(c@) {
            Some((a, e)) => r matches Some((x, y)) && x == a && y == e && a + e <= c@.len(),
            None => r is None,
        },
        r matches Some((x, y)) ==> x + y <= c@.len() && block_bounds(c@) == Some((x as int, y as int)),
{
    let sm = chars_of("<!-- PREFERENCES_START -->");
    let em = chars_of("<!-- PREFERENCES_END -->");
    proof {
        lemma_find(c@, sm@);
    }
    match find_vec(c, &sm) {
        None => None,
        Some(s) => {
            assert(find(c@, sm@) >= 0);
            assert(occurs_at(c@, sm@, find(c@, sm@)));
            assert(c@.len() == c.len());
            assert(find(c@, sm@) <= usize::MAX);
            assert(s as int == find(c@, sm@));
            let a = s + sm.len();
            let rest = slice_vec(c, a, c.len());
            assert(c@.subrange(a as int, c@.len() as int) =~= c@.skip(a as int));
            proof {
                lemma_find(rest@, em@);
            }
            match find_vec(&rest, &em) {
                None => None,
                Some(e) => {
                    assert(find(rest@, em@) >= 0);
                    assert(occurs_at(rest@, em@, find(rest@, em@)));
                    assert(rest@.len() == rest.len());
                    assert(find(rest@, em@) <= usize::MAX);
                    assert(e as int == find(rest@, em@));
                    Some((a, e))
                },
            }
        },
    }
}

/// The trimmed text between the preference markers, when both are there.
pub fn parse_block(content: &str) -> (r: Option<String>)
    ensures
        opt_view(r) == preferences_block(content@),
{
    let c = chars_of(content);
    let b = block_bounds_vec(&c);
    match b {
        None => None,
        Some((a, e)) => {
            assert(a + e <= c@.len());
            let inner = slice_vec(&c, a, a + e);
            Some(string_of(&trim_vec(&inner)))
        },
    }
}

/// The memory text with `block` as its preferences block: between the
/// markers when they are there, else in a new section at the end.
pub open spec fn with_block(c: Seq<char>, block: Seq<char>) -> Seq<char> {
    match block_bounds(c) {
        Some((a, e)) => c.take(a) + "\n"@ + block + "\n"@ + c.skip(a + e),
        None => (if c.len() > 0 && c.last() == '\n' {
            c
        } else {
            c.push('\n')
        }) + "\n## User Preferences\n\n"@ + start_marker() + "\n"@ + block + "\n"@ + end_marker() + "\n"@,
    }
}

/// Puts a serialised preference document into the memory text.
pub fn replace_block(content: &str, block: &str) -> (r: String)
    ensures
        r@ == with_block(content@, block@),
{
    let c = chars_of(content);
    match block_bounds_vec(&c) {
        Some((a, e)) => {
            let mut out = slice_vec(&c, 0, a);
            append_str(&mut out, "\n");
            append_str(&mut out, block);
            append_str(&mut out, "\n");
            append_vec(&mut out, &slice_vec(&c, a + e, c.len()));
            assert(out@ =~= with_block(content@, block@));
            string_of(&out)
        },
        None => {
            let mut out = c;
            if !(out.len() > 0 && out[out.len() - 1] == '\n') {
                out.push('\n');
            }
            append_str(&mut out, "\n## User Preferences\n\n");
            append_str(&mut out, "<!-- PREFERENCES_START -->");
            append_str(&mut out, "\n");
            append_str(&mut out, block);
            append_str(&mut out, "\n");
            append_str(&mut out, "<!-- PREFERENCES_END -->");
            append_str(&mut out, "\n");
            assert(out@ =~= with_block(content@, block@));
            string_of(&out)
        },
    }
}

pub open spec fn default_memory_text() -> Seq<char> {
    "# Auto Memory\n\nThis file stores concise per-project memories loaded into each run context.\n\n## Preferences\n\n"@
        + start_marker() + "\n{\n  \"preferences\": []\n}\n"@ + end_marker() + "\n"@
}

/// The text of a new memory file: an empty preference document.
pub fn default_memory_content() -> (r: String)
    ensures
        r@ == default_memory_text(),
{
    let mut out = chars_of(
        "# Auto Memory\n\nThis file stores concise per-project memories loaded into each run context.\n\n## Preferences\n\n",
    );
    append_str(&mut out, "<!-- PREFERENCES_START -->");
    append_str(&mut out, "\n{\n  \"preferences\": []\n}\n");
    append_str(&mut out, "<!-- PREFERENCES_END -->");
    append_str(&mut out, "\n");
    string_of(&out)
}

/// The first `MAX_MEMORY_LINES` lines of the memory file, joined by `\n`.
pub open spec fn startup_context(c: Seq<char>) -> Seq<char> {
    let ls = lines(c);
    join(
        if ls.len() > MAX_MEMORY_LINES {
            ls.take(MAX_MEMORY_LINES as int)
        } else {
            ls
        },
        "\n"@,
    )
}

/// The part of the memory file loaded into a run's context.
pub fn startup_memory_context(content: &str) -> (r: String)
    ensures
        r@ == startup_context(content@),
{
    let ls = lines_vec(&chars_of(content));
    let n = if ls.len() > MAX_MEMORY_LINES {
        MAX_MEMORY_LINES
    } else {
        ls.len()
    };
    let mut head: Vec<Vec<char>> = Vec::new();
    let mut i: usize = 0;
    while i < n
        invariant
            i <= n <= ls.len(),
            head@.len() == i,
            forall|k: int| 0 <= k < i ==> #[trigger] head@[k]@ == ls@[k]@,
        decreases n - i,
    {
        head.push(crate::text::copy_vec(&ls[i]));
        i += 1;
    }
    assert(views_v(head@) =~= (if views_v(ls@).len() > MAX_MEMORY_LINES {
        views_v(ls@).take(MAX_MEMORY_LINES as int)
    } else {
        views_v(ls@)
    }));
    string_of(&join_vec(&head, &chars_of("\n")))
}

// ---------------------------------------------------------------------------
// Where the memory file lives
// ---------------------------------------------------------------------------

/// A path with every character that is not ASCII alphanumeric made `_`.
pub open spec fn project_key_of(path: Seq<char>) -> Seq<char> {
    Seq::new(
        path.len(),
        |i: int|
            if is_alnum(path[i]) {
                path[i]
            } else {
                '_'
            },
    )
}

/// The key of a project's memory directory, from its canonical path.
pub fn project_key(canonical: &str) -> (r: String)
    ensures
        r@ == project_key_of(canonical@),
{
    let c = chars_of(canonical);
    let mut out: Vec<char> = Vec::new();
    let mut i: usize = 0;
    while i < c.len()
        invariant
            i <= c.len(),
            out@.len() == i,
            forall|k: int| 0 <= k < i ==> #[trigger] out@[k] == project_key_of(c@)[k],
        decreases c.len() - i,
    {
        if is_ascii_alphanumeric(c[i]) {
            out.push(c[i]);
        } else {
            out.push('_');
        }
        i += 1;
    }
    assert(out@ =~= project_key_of(c@));
    string_of(&out)
}

/// Components `idx` and `idx + 1` are `.orchestrix` and `worktrees`, with
/// at least one component before them.
pub open spec fn worktree_at(parts: Seq<Seq<char>>, idx: int) -> bool {
    1 <= idx && idx + 1 < parts.len() && parts[idx] == ".orchestrix"@ && parts[idx + 1] == "worktrees"@
}

/// The number of leading components of a canonical path that make up its
/// workspace root: those before the first `.orchestrix/worktrees` pair
/// (a worktree belongs to the workspace that contains it), else all.
pub open spec fn root_len_from(parts: Seq<Seq<char>>, idx: int) -> int
    decreases parts.len() - idx,
{
    if idx < 0 || idx >= parts.len() {
        parts.len() as int
    } else if worktree_at(parts, idx) {
        idx
    } else {
        root_len_from(parts, idx + 1)
    }
}

/// How many leading components of a canonical path form the workspace root.
pub fn canonical_workspace_root(components: &Vec<String>) -> (r: usize)
    ensures
        r as int == root_len_from(views(components@), 0),
{
    let ghost parts = views(components@);
    let dot = chars_of(".orchestrix");
    let wt = chars_of("worktrees");
    let mut idx: usize = 0;
    while idx < components.len()
        invariant
            idx <= components.len(),
            parts == views(components@),
            dot@ == ".orchestrix"@,
            wt@ == "worktrees"@,
            root_len_from(parts, 0) == root_len_from(parts, idx as int),
        decreases components.len() - idx,
    {
        if idx >= 1 && idx + 1 < components.len() {
            let a = chars_of(components[idx].as_str());
            let b = chars_of(components[idx + 1].as_str());
            if seq_eq(&a, &dot) && seq_eq(&b, &wt) {
                return idx;
            }
        }
        idx += 1;
    }
    components.len()
}

/// `Path::join` of a relative path on Unix: a separator is put between the
/// two unless the first is empty or already ends with one.
pub open spec fn join_path(a: Seq<char>, b: Seq<char>) -> Seq<char> {
    if a.len() == 0 {
        b
    } else if a.last() == '/' {
        a + b
    } else {
        a + seq!['/'] + b
    }
}

pub fn join_path_vec(a: &Vec<char>, b: &Vec<char>) -> (r: Vec<char>)
    ensures
        r@ == join_path(a@, b@),
{
    let mut out = crate::text::copy_vec(a);
    if a.len() > 0 && a[a.len() - 1] != '/' {
        out.push('/');
    }
    append_vec(&mut out, b);
    assert(out@ =~= join_path(a@, b@));
    out
}

/// `<data dir>/projects/<project key>/memory/MEMORY.md`.
pub open spec fn memory_path(data_dir: Seq<char>, root: Seq<char>) -> Seq<char> {
    join_path(join_path(join_path(join_path(data_dir, "projects"@), project_key_of(root)), "memory"@), "MEMORY.md"@)
}

/// The memory file of the workspace whose canonical root is given.
pub fn memory_entrypoint_path_for_workspace(data_dir: &str, canonical_root: &str) -> (r: String)
    ensures
        r@ == memory_path(data_dir@, canonical_root@),
{
    let key = project_key(canonical_root);
    let p1 = join_path_vec(&chars_of(data_dir), &chars_of("projects"));
    let p2 = join_path_vec(&p1, &chars_of(key.as_str()));
    let p3 = join_path_vec(&p2, &chars_of("memory"));
    let p4 = join_path_vec(&p3, &chars_of("MEMORY.md"));
    string_of(&p4)
}

// ---------------------------------------------------------------------------
// Whether auto memory is on
// ---------------------------------------------------------------------------

pub open spec fn is_yes(v: Seq<char>) -> bool {
    v == "1"@ || v == "true"@ || v == "yes"@
}

pub open spec fn is_no(v: Seq<char>) -> bool {
    v == "0"@ || v == "false"@ || v == "no"@
}

pub open spec fn normalized(o: Option<Seq<char>>) -> Option<Seq<char>> {
    match o {
        Some(v) => Some(lower(trim(v))),
        None => None,
    }
}

/// Auto memory is off when the disabling variable says yes; else the
/// enabling variable decides when it says yes or no; else the project's
/// setting, then the global setting; else it is on.
pub open spec fn auto_memory_on(
    disable_var: Option<Seq<char>>,
    enable_var: Option<Seq<char>>,
    project: Option<bool>,
    global: Option<bool>,
) -> bool {
    if normalized(disable_var) matches Some(d) && is_yes(d) {
        false
    } else if normalized(enable_var) matches Some(e) && is_no(e) {
        false
    } else if normalized(enable_var) matches Some(e) && is_yes(e) {
        true
    } else if project is Some {
        project->0
    } else if global is Some {
        global->0
    } else {
        true
    }
}

fn normalized_vec(o: Option<&str>) -> (r: Option<Vec<char>>)
    ensures
        match normalized(opt_str_view(o)) {
            Some(v) => r matches Some(x) && x@ == v,
            None => r is None,
        },
{
    match o {
        Some(v) => Some(lower_vec(&trimmed(v))),
        None => None,
    }
}

fn yes_vec(v: &Vec<char>) -> (r: bool)
    ensures
        r == is_yes(v@),
{
    seq_eq(v, &chars_of("1")) || seq_eq(v, &chars_of("true")) || seq_eq(v, &chars_of("yes"))
}

fn no_vec(v: &Vec<char>) -> (r: bool)
    ensures
        r == is_no(v@),
{
    seq_eq(v, &chars_of("0")) || seq_eq(v, &chars_of("false")) || seq_eq(v, &chars_of("no"))
}

/// Whether auto memory is on, from the two environment variables (when set)
/// and the `autoMemoryEnabled` settings of the project and of the user
/// (when given).
pub fn auto_memory_enabled(
    disable_var: Option<&str>,
    enable_var: Option<&str>,
    project: Option<bool>,
    global: Option<bool>,
) -> (r: bool)
    ensures
        r == auto_memory_on(opt_str_view(disable_var), opt_str_view(enable_var), project, global),
{
    if let Some(d) = normalized_vec(disable_var) {
        if yes_vec(&d) {
            return false;
        }
    }
    if let Some(e) = normalized_vec(enable_var) {
        if no_vec(&e) {
            return false;
        }
        if yes_vec(&e) {
            return true;
        }
    }
    if let Some(b) = project {
        return b;
    }
    if let Some(b) = global {
        return b;
    }
    true
}

// ---------------------------------------------------------------------------
// The settings page
// ---------------------------------------------------------------------------

/// Whether auto memory is on for a workspace, and what decided it.
#[derive(Debug)]
pub struct AutoMemorySettingsView {
    pub enabled: bool,
    /// `env:<variable>`, `project` or `default`.
    pub source: String,
}

/// The setting the settings page shows: the disabling variable when it
/// says yes, else the enabling variable when it says yes or no, else the
/// project's setting, else on by default.
pub open spec fn auto_memory_setting(
    disable_var: Option<Seq<char>>,
    enable_var: Option<Seq<char>>,
    project: Option<bool>,
) -> (bool, Seq<char>) {
    if normalized(disable_var) matches Some(d) && is_yes(d) {
        (false, "env:ORCHESTRIX_DISABLE_AUTO_MEMORY"@)
    } else if normalized(enable_var) matches Some(e) && is_no(e) {
        (false, "env:ORCHESTRIX_AUTO_MEMORY_ENABLED"@)
    } else if normalized(enable_var) matches Some(e) && is_yes(e) {
        (true, "env:ORCHESTRIX_AUTO_MEMORY_ENABLED"@)
    } else if project is Some {
        (project->0, "project"@)
    } else {
        (true, "default"@)
    }
}

/// The auto memory setting of a workspace (see `auto_memory_setting`), from
/// the two environment variables (when set) and the project's
/// `autoMemoryEnabled` setting (when it holds a boolean).
pub fn resolve_auto_memory_setting(
    disable_var: Option<&str>,
    enable_var: Option<&str>,
    project: Option<bool>,
) -> (r: AutoMemorySettingsView)
    ensures
        (r.enabled, r.source@) == auto_memory_setting(opt_str_view(disable_var), opt_str_view(enable_var), project),
{
    if let Some(d) = normalized_vec(disable_var) {
        if yes_vec(&d) {
            return AutoMemorySettingsView { enabled: false, source: lit("env:ORCHESTRIX_DISABLE_AUTO_MEMORY") };
        }
    }
    if let Some(e) = normalized_vec(enable_var) {
        if no_vec(&e) {
            return AutoMemorySettingsView { enabled: false, source: lit("env:ORCHESTRIX_AUTO_MEMORY_ENABLED") };
        }
        if yes_vec(&e) {
            return AutoMemorySettingsView { enabled: true, source: lit("env:ORCHESTRIX_AUTO_MEMORY_ENABLED") };
        }
    }
    match project {
        Some(b) => AutoMemorySettingsView { enabled: b, source: lit("project") },
        None => AutoMemorySettingsView { enabled: true, source: lit("default") },
    }
}

/// The switch a project settings document sets: its `autoMemoryEnabled`
/// value when that is a boolean.
pub open spec fn settings_switch(doc: JsonValue) -> Option<bool> {
    match get_key(doc, "autoMemoryEnabled"@) {
        Some(JsonValue::Bool(b)) => Some(b),
        _ => None,
    }
}

pub fn settings_switch_of(doc: &JsonValue) -> (r: Option<bool>)
    ensures
        r == settings_switch(*doc),
{
    match get(doc, &chars_of("autoMemoryEnabled")) {
        Some(JsonValue::Bool(b)) => Some(*b),
        _ => None,
    }
}

/// Whether `i` is the first entry with the key.
pub open spec fn first_with_key(entries: Seq<(Seq<char>, JsonView)>, key: Seq<char>, i: int) -> bool {
    &&& 0 <= i < entries.len()
    &&& entries[i].0 == key
    &&& forall|j: int| 0 <= j < i ==> entries[j].0 != key
}

/// The entries with the value of the first entry with the key replaced, or
/// with the entry appended when no entry has the key.
pub open spec fn entries_with(entries: Seq<(Seq<char>, JsonView)>, key: Seq<char>, value: JsonView) -> Seq<(Seq<char>, JsonView)> {
    if exists|i: int| first_with_key(entries, key, i) {
        let i = choose|i: int| first_with_key(entries, key, i);
        entries.update(i, (key, value))
    } else {
        entries.push((key, value))
    }
}

/// The project settings after the switch is set: the document's entries
/// with `autoMemoryEnabled` set, or a document holding only the switch when
/// there was none or it was not an object.
pub open spec fn settings_with_switch(doc: Option<JsonView>, enabled: bool) -> JsonView {
    match doc {
        Some(JsonView::Object(entries)) => JsonView::Object(entries_with(entries, "autoMemoryEnabled"@, JsonView::Bool(enabled))),
        _ => JsonView::Object(seq![("autoMemoryEnabled"@, JsonView::Bool(enabled))]),
    }
}

pub open spec fn opt_json_view(doc: Option<JsonValue>) -> Option<JsonView> {
    match doc {
        Some(d) => Some(json_view(d)),
        None => None,
    }
}

/// The first entry with the key, if any.
fn first_key_index(entries: &Vec<(String, JsonValue)>, key: &str) -> (r: Option<usize>)
    ensures
        match r {
            Some(i) => first_with_key(entries_view(entries@), key@, i as int),
            None => forall|j: int| 0 <= j < entries@.len() ==> entries_view(entries@)[j].0 != key@,
        },
{
    proof {
        lemma_entries_view(entries@);
    }
    let ghost ev = entries_view(entries@);
    let mut i: usize = 0;
    while i < entries.len()
        invariant
            i <= entries.len(),
            ev == entries_view(entries@),
            ev.len() == entries@.len(),
            forall|j: int| 0 <= j < entries@.len() ==> #[trigger] ev[j] == (entries@[j].0@, json_view(entries@[j].1)),
            forall|j: int| 0 <= j < i ==> ev[j].0 != key@,
        decreases entries.len() - i,
    {
        assert(ev[i as int].0 == entries@[i as int].0@);
        if crate::text::str_eq(key, &chars_of(entries[i].0.as_str())) {
            return Some(i);
        }
        i += 1;
    }
    None
}

/// Sets the auto memory switch in a project settings document (see
/// `settings_with_switch`); `None` stands for a missing or unreadable file.
pub fn set_settings_switch(doc: Option<JsonValue>, enabled: bool) -> (r: JsonValue)
    ensures
        json_view(r) == settings_with_switch(opt_json_view(doc), enabled),
{
    match doc {
        Some(JsonValue::Object(entries)) => {
            let mut entries = entries;
            let ghost ev = entries_view(entries@);
            let ghost key = "autoMemoryEnabled"@;
            let ghost value = JsonView::Bool(enabled);
            proof {
                lemma_entries_view(entries@);
            }
            match first_key_index(&entries, "autoMemoryEnabled") {
                Some(k) => {
                    let ghost before = entries@;
                    entries.set(k, (lit("autoMemoryEnabled"), JsonValue::Bool(enabled)));
                    proof {
                        lemma_entries_view(entries@);
                        assert(entries@ == before.update(k as int, entries@[k as int]));
                        let c = choose|i: int| first_with_key(ev, key, i);
                        assert(first_with_key(ev, key, k as int));
                        assert(first_with_key(ev, key, c));
                        if c < k as int {
                            assert(ev[c].0 != key);
                        } else if c > k as int {
                            assert(ev[k as int].0 != key);
                        }
                        assert(c == k as int);
                        assert(entries_view(entries@) =~= ev.update(k as int, (key, value)));
                    }
                },
                None => {
                    let ghost before = entries@;
                    push_entry(&mut entries, "autoMemoryEnabled", JsonValue::Bool(enabled));
                    proof {
                        assert(!exists|i: int| first_with_key(ev, key, i));
                    }
                },
            }
            JsonValue::Object(entries)
        },
        _ => {
            let mut e: Vec<(String, JsonValue)> = Vec::new();
            push_entry(&mut e, "autoMemoryEnabled", JsonValue::Bool(enabled));
            proof {
                assert(entries_view(Seq::<(String, JsonValue)>::empty()) =~= Seq::<(Seq<char>, JsonView)>::empty());
                assert(entries_view(e@) =~= seq![("autoMemoryEnabled"@, JsonView::Bool(enabled))]);
            }
            JsonValue::Object(e)
        },
    }
}

} // verus!
