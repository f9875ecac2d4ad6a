//! Ranking of the `@` reference candidates: enabled agents and skills and
//! workspace paths are scored against the query, sorted best first, freed of
//! adjacent repeats and cut to the requested number.
//!
//! Listing the workspace, and reading the agent and skill files, is the
//! caller's business.
use vstd::prelude::*;
use vstd::string::StrSliceExecFns;
use vstd::utf8::encode_utf8;

use crate::agent_presets::{AgentPreset, AgentPresetView};
use crate::order::{appears, is_permutation, lemma_lex_antisym, lemma_lex_refl, lemma_lex_total,
    lemma_lex_trans, lex_le, lex_le_vec};
use crate::text::{
    append_str, append_vec, chars_of, copy_vec, lower, lower_vec, replace_char, replace_char_vec,
    rsplit_once, rsplit_once_vec, seq_eq, string_of, trim, trimmed, trim_vec,
};
use crate::workspace_search::{
    base_and_needle, basename, fuzzy, fuzzy_panics, fuzzy_score, fuzzy_would_fail,
    split_base_and_needle, MAX_HAYSTACK_BYTES,
};
use crate::workspace_skills::{WorkspaceSkill, WorkspaceSkillView};

verus! {

// ---------------------------------------------------------------------------
// The order of ranked candidates
// ---------------------------------------------------------------------------

/// What candidates are ordered by: the score (higher first), then the
/// group, the kind, the byte length of the value and the value.
pub struct RankView {
    pub score: int,
    pub group: Seq<char>,
    pub kind: Seq<char>,
    pub bytes: nat,
    pub value: Seq<char>,
}

/// `a` may stand before `b`.
pub open spec fn rank_le(a: RankView, b: RankView) -> bool {
    if a.score != b.score {
        a.score > b.score
    } else if a.group != b.group {
        lex_le(a.group, b.group)
    } else if a.kind != b.kind {
        lex_le(a.kind, b.kind)
    } else if a.bytes != b.bytes {
        a.bytes < b.bytes
    } else {
        lex_le(a.value, b.value)
    }
}

/// `rank_le` is a total order.
pub proof fn lemma_rank_facts(x: RankView, y: RankView, z: RankView)
    ensures
        rank_le(x, x),
        rank_le(x, y) || rank_le(y, x),
        rank_le(x, y) && rank_le(y, z) ==> rank_le(x, z),
        rank_le(x, y) && rank_le(y, x) ==> x == y,
{
    lemma_lex_refl(x.value);
    lemma_lex_total(x.group, y.group);
    lemma_lex_total(x.kind, y.kind);
    lemma_lex_total(x.value, y.value);
    if rank_le(x, y) && rank_le(y, z) {
        if x.group != y.group && lex_le(x.group, y.group) && lex_le(y.group, z.group) {
            lemma_lex_trans(x.group, y.group, z.group);
            if x.group == z.group {
                lemma_lex_antisym(x.group, y.group);
            }
        }
        if x.kind != y.kind && lex_le(x.kind, y.kind) && lex_le(y.kind, z.kind) {
            lemma_lex_trans(x.kind, y.kind, z.kind);
            if x.kind == z.kind {
                lemma_lex_antisym(x.kind, y.kind);
            }
        }
        if lex_le(x.group, y.group) && lex_le(y.group, z.group) {
            lemma_lex_trans(x.group, y.group, z.group);
        }
        if lex_le(x.kind, y.kind) && lex_le(y.kind, z.kind) {
            lemma_lex_trans(x.kind, y.kind, z.kind);
        }
        if lex_le(x.value, y.value) && lex_le(y.value, z.value) {
            lemma_lex_trans(x.value, y.value, z.value);
        }
        if x.group == z.group && x.group != y.group {
            if lex_le(x.group, y.group) && lex_le(y.group, z.group) {
                lemma_lex_antisym(x.group, y.group);
            }
        }
        if x.kind == z.kind && x.kind != y.kind && x.group == y.group && y.group == z.group {
            if lex_le(x.kind, y.kind) && lex_le(y.kind, z.kind) {
                lemma_lex_antisym(x.kind, y.kind);
            }
        }
    }
    if rank_le(x, y) && rank_le(y, x) {
        if x.group == y.group && x.kind == y.kind && x.bytes == y.bytes && x.score == y.score {
            lemma_lex_antisym(x.value, y.value);
        }
        if x.group != y.group {
            lemma_lex_antisym(x.group, y.group);
        }
        if x.kind != y.kind {
            lemma_lex_antisym(x.kind, y.kind);
        }
    }
}

/// The key by which a candidate is ranked.
pub struct RankKey {
    pub score: i64,
    pub group: Vec<char>,
    pub kind: Vec<char>,
    pub bytes: usize,
    pub value: Vec<char>,
}

impl View for RankKey {
    type V = RankView;

    open spec fn view(&self) -> RankView {
        RankView {
            score: self.score as int,
            group: self.group@,
            kind: self.kind@,
            bytes: self.bytes as nat,
            value: self.value@,
        }
    }
}

fn rank_le_exec(a: &RankKey, b: &RankKey) -> (r: bool)
    ensures
        r == rank_le(a@, b@),
{
    if a.score != b.score {
        a.score > b.score
    } else if !seq_eq(&a.group, &b.group) {
        lex_le_vec(&a.group, &b.group)
    } else if !seq_eq(&a.kind, &b.kind) {
        lex_le_vec(&a.kind, &b.kind)
    } else if a.bytes != b.bytes {
        a.bytes < b.bytes
    } else {
        lex_le_vec(&a.value, &b.value)
    }
}

pub open spec fn rank_views(keys: Seq<RankKey>) -> Seq<RankView> {
    Seq::new(keys.len(), |i: int| keys[i]@)
}

/// Reading `keys` through `idx` gives a ranked sequence, and equal keys keep
/// their relative order.
pub open spec fn ranked_stably(keys: Seq<RankView>, idx: Seq<usize>) -> bool {
    &&& forall|a: int, b: int|
        #![trigger idx[a], idx[b]]
        0 <= a < b < idx.len() ==> rank_le(keys[idx[a] as int], keys[idx[b] as int])
    &&& forall|a: int, b: int|
        #![trigger idx[a], idx[b]]
        0 <= a < b < idx.len() && keys[idx[a] as int] == keys[idx[b] as int] ==> idx[a] < idx[b]
}

/// A stable sort of the positions `0..keys.len()` by rank.
pub fn sort_ranked(keys: &Vec<RankKey>) -> (idx: Vec<usize>)
    ensures
        is_permutation(idx@, keys@.len()),
        ranked_stably(rank_views(keys@), idx@),
{
    let ghost kv = rank_views(keys@);
    let mut idx: Vec<usize> = Vec::new();
    let mut i: usize = 0;
    while i < keys.len()
        invariant
            i <= keys.len(),
            kv == rank_views(keys@),
            is_permutation(idx@, i as nat),
            ranked_stably(kv, idx@),
        decreases keys.len() - i,
    {
        let mut p: usize = idx.len();
        while p > 0 && !rank_le_exec(&keys[idx[p - 1]], &keys[i])
            invariant
                p <= idx.len(),
                i < keys.len(),
                kv == rank_views(keys@),
                is_permutation(idx@, i as nat),
                forall|q: int| p <= q < idx.len() ==> !rank_le(kv[#[trigger] idx@[q] as int], kv[i as int]),
            decreases p,
        {
            p -= 1;
        }
        let ghost old_idx = idx@;
        idx.insert(p, i);
        proof {
            let ni = idx@;
            assert(ni =~= old_idx.take(p as int).push(i) + old_idx.skip(p as int));
            assert forall|k: int| 0 <= k < ni.len() implies #[trigger] ni[k] < i + 1 by {
                if k < p {
                    assert(ni[k] == old_idx[k]);
                } else if k > p {
                    assert(ni[k] == old_idx[k - 1]);
                }
            }
            assert forall|a: int, b: int| 0 <= a < b < ni.len() implies #[trigger] ni[a] != #[trigger] ni[b] by {
                let oa = if a < p { a } else { a - 1 };
                let ob = if b < p { b } else { b - 1 };
                if a != p && b != p {
                    assert(ni[a] == old_idx[oa]);
                    assert(ni[b] == old_idx[ob]);
                    assert(old_idx[oa] != old_idx[ob]);
                } else if a == p {
                    assert(ni[b] == old_idx[ob]);
                    assert(old_idx[ob] < i);
                } else {
                    assert(ni[a] == old_idx[oa]);
                    assert(old_idx[oa] < i);
                }
            }
            assert forall|j: int| 0 <= j < i + 1 implies #[trigger] appears(ni, j) by {
                if j == i {
                    assert(ni[p as int] == j);
                } else {
                    assert(appears(old_idx, j));
                    let k = choose|k: int| 0 <= k < old_idx.len() && #[trigger] old_idx[k] == j;
                    if k < p {
                        assert(ni[k] == j);
                    } else {
                        assert(ni[k + 1] == j);
                    }
                }
            }
            assert forall|a: int, b: int|
                #![trigger ni[a], ni[b]]
                0 <= a < b < ni.len() implies rank_le(kv[ni[a] as int], kv[ni[b] as int]) && (kv[ni[a] as int] == kv[ni[b] as int] ==> ni[a] < ni[b]) by {
                let oa = if a < p { a } else { a - 1 };
                let ob = if b < p { b } else { b - 1 };
                let ki = kv[i as int];
                if a != p && b != p {
                    assert(ni[a] == old_idx[oa]);
                    assert(ni[b] == old_idx[ob]);
                    assert(oa < ob);
                    assert(rank_le(kv[old_idx[oa] as int], kv[old_idx[ob] as int]));
                } else if b == p {
                    assert(ni[a] == old_idx[a]);
                    assert(ni[b] == i);
                    let last = kv[old_idx[p - 1] as int];
                    assert(rank_le(last, ki));
                    if a < p - 1 {
                        assert(rank_le(kv[old_idx[a] as int], last));
                        lemma_rank_facts(kv[old_idx[a] as int], last, ki);
                    }
                    assert(old_idx[a] < i);
                } else {
                    assert(a == p);
                    assert(ni[a] == i);
                    assert(ni[b] == old_idx[ob]);
                    let kb = kv[old_idx[ob] as int];
                    assert(!rank_le(kb, ki));
                    lemma_rank_facts(ki, kb, ki);
                    lemma_rank_facts(kb, kb, kb);
                }
            }
        }
        i += 1;
    }
    idx
}

// ---------------------------------------------------------------------------
// Candidates
// ---------------------------------------------------------------------------

/// A completion offered for an `@` reference.
#[derive(Debug)]
pub struct WorkspaceReferenceCandidate {
    pub kind: String,
    pub value: String,
    pub display: String,
    pub description: String,
    pub group: String,
}

pub struct CandidateView {
    pub kind: Seq<char>,
    pub value: Seq<char>,
    pub display: Seq<char>,
    pub description: Seq<char>,
    pub group: Seq<char>,
}

impl View for WorkspaceReferenceCandidate {
    type V = CandidateView;

    open spec fn view(&self) -> CandidateView {
        CandidateView {
            kind: self.kind@,
            value: self.value@,
            display: self.display@,
            description: self.description@,
            group: self.group@,
        }
    }
}

impl WorkspaceReferenceCandidate {
    pub fn copy(&self) -> (r: WorkspaceReferenceCandidate)
        ensures
            r@ == self@,
    {
        WorkspaceReferenceCandidate {
            kind: self.kind.clone(),
            value: self.value.clone(),
            display: self.display.clone(),
            description: self.description.clone(),
            group: self.group.clone(),
        }
    }
}

pub open spec fn candidate_views(v: Seq<WorkspaceReferenceCandidate>) -> Seq<CandidateView> {
    Seq::new(v.len(), |i: int| v[i]@)
}

pub open spec fn scored_views(v: Seq<(i64, WorkspaceReferenceCandidate)>) -> Seq<(int, CandidateView)> {
    Seq::new(v.len(), |i: int| (v[i].0 as int, v[i].1@))
}

/// The query with its ends trimmed and backslashes turned into slashes.
pub open spec fn query_text(q: Seq<char>) -> Seq<char> {
    replace_char(trim(q), '\\', '/')
}

/// The query as it is matched: `query_text` with ASCII letters lower-cased.
pub open spec fn query_key(q: Seq<char>) -> Seq<char> {
    lower(query_text(q))
}

/// An agent or a skill as ranking sees it: id, name, description and
/// whether it is enabled.
pub type NamedItem = (Seq<char>, Seq<char>, Seq<char>, bool);

/// How the candidates of one source are labelled: the prefix of the
/// mention, the kind, the description used when none is given, the group.
pub type Labels = (Seq<char>, Seq<char>, Seq<char>, Seq<char>);

pub open spec fn agent_labels() -> Labels {
    ("agent:"@, "agent"@, "agent preset"@, "Agents"@)
}

pub open spec fn skill_labels() -> Labels {
    ("skill:"@, "skill"@, "workspace skill"@, "Skills"@)
}

pub open spec fn agent_items(v: Seq<AgentPresetView>) -> Seq<NamedItem> {
    Seq::new(v.len(), |i: int| (v[i].id, v[i].name, v[i].description, v[i].enabled))
}

pub open spec fn skill_items(v: Seq<WorkspaceSkillView>) -> Seq<NamedItem> {
    Seq::new(v.len(), |i: int| (v[i].id, v[i].name, v[i].description, v[i].enabled))
}

/// The text a named item is matched against: its mention, name and
/// description.
pub open spec fn named_hay(x: NamedItem, l: Labels) -> Seq<char> {
    l.0 + x.0 + " "@ + x.1 + " "@ + x.2
}

pub open spec fn named_candidate(x: NamedItem, l: Labels) -> CandidateView {
    CandidateView {
        kind: l.1,
        value: l.0 + x.0,
        display: x.1 + " ("@ + x.0 + ")"@,
        description: if trim(x.2).len() == 0 {
            l.2
        } else {
            x.2
        },
        group: l.3,
    }
}

/// The enabled items that match the query, with their scores, in order.
pub open spec fn scored_named(ql: Seq<char>, items: Seq<NamedItem>, l: Labels) -> Seq<(int, CandidateView)>
    decreases items.len(),
{
    if items.len() == 0 {
        Seq::empty()
    } else {
        let init = scored_named(ql, items.drop_last(), l);
        let x = items.last();
        let score = fuzzy(ql, named_hay(x, l));
        if x.3 && score >= 0 {
            init.push((score, named_candidate(x, l)))
        } else {
            init
        }
    }
}

/// The directory part of a relative path, `(root)` at the top.
pub open spec fn parent_of(rel: Seq<char>) -> Seq<char> {
    match rsplit_once(rel, '/') {
        Some((p, _)) => p,
        None => "(root)"@,
    }
}

/// The text a path is matched against: the path, its lower-cased last
/// component and its parent.
pub open spec fn path_hay(rel: Seq<char>) -> Seq<char> {
    rel + " "@ + lower(basename(rel)) + " "@ + parent_of(rel)
}

pub open spec fn path_kind(is_dir: bool) -> Seq<char> {
    if is_dir {
        "directory"@
    } else {
        "file"@
    }
}

pub open spec fn path_candidate(rel: Seq<char>, is_dir: bool) -> CandidateView {
    CandidateView {
        kind: path_kind(is_dir),
        value: rel,
        display: rel,
        description: "workspace "@ + path_kind(is_dir),
        group: parent_of(rel),
    }
}

pub open spec fn entry_items(v: Seq<(String, bool)>) -> Seq<(Seq<char>, bool)> {
    Seq::new(v.len(), |i: int| (v[i].0@, v[i].1))
}

/// The listed paths as candidates: all of them, scored 0, when the query
/// has nothing after its last `/`; else those that match it.
pub open spec fn scored_paths(ql: Seq<char>, all: bool, entries: Seq<(Seq<char>, bool)>) -> Seq<(int, CandidateView)>
    decreases entries.len(),
{
    if entries.len() == 0 {
        Seq::empty()
    } else {
        let init = scored_paths(ql, all, entries.drop_last());
        let e = entries.last();
        let score = fuzzy(ql, path_hay(e.0));
        if all {
            init.push((0, path_candidate(e.0, e.1)))
        } else if score >= 0 {
            init.push((score, path_candidate(e.0, e.1)))
        } else {
            init
        }
    }
}

/// Whether the query leaves the whole listing in (nothing after its last
/// `/`).
pub open spec fn lists_all(q: Seq<char>) -> bool {
    base_and_needle(query_text(q)).1.len() == 0
}

/// All candidates with their scores, before ranking: agents, then skills,
/// then paths.
pub open spec fn gathered(
    q: Seq<char>,
    agents: Seq<AgentPresetView>,
    skills: Seq<WorkspaceSkillView>,
    entries: Seq<(Seq<char>, bool)>,
) -> Seq<(int, CandidateView)> {
    let ql = query_key(q);
    scored_named(ql, agent_items(agents), agent_labels()) + scored_named(
        ql,
        skill_items(skills),
        skill_labels(),
    ) + scored_paths(ql, lists_all(q), entries)
}

/// Scoring `hay` against `ql` stays within what `fuzzy_score` accepts.
pub open spec fn score_ok(ql: Seq<char>, hay: Seq<char>) -> bool {
    !fuzzy_panics(ql, hay) && encode_utf8(hay).len() < MAX_HAYSTACK_BYTES
}

/// Every text that ranking scores is one that scoring accepts.
pub open spec fn ranking_safe(
    q: Seq<char>,
    agents: Seq<AgentPresetView>,
    skills: Seq<WorkspaceSkillView>,
    entries: Seq<(Seq<char>, bool)>,
) -> bool {
    let ql = query_key(q);
    &&& forall|i: int|
        0 <= i < agents.len() && agents[i].enabled ==> score_ok(
            ql,
            named_hay(#[trigger] agent_items(agents)[i], agent_labels()),
        )
    &&& forall|i: int|
        0 <= i < skills.len() && skills[i].enabled ==> score_ok(
            ql,
            named_hay(#[trigger] skill_items(skills)[i], skill_labels()),
        )
    &&& !lists_all(q) ==> forall|i: int| 0 <= i < entries.len() ==> score_ok(ql, path_hay(#[trigger] entries[i].0))
}

/// The rank key of a scored candidate.
pub open spec fn rank_of(e: (int, CandidateView)) -> RankView {
    RankView {
        score: e.0,
        group: e.1.group,
        kind: e.1.kind,
        bytes: encode_utf8(e.1.value).len(),
        value: e.1.value,
    }
}

/// Drops each candidate with the value and kind of the one kept before it.
pub open spec fn dedup_refs(s: Seq<CandidateView>) -> Seq<CandidateView>
    decreases s.len(),
{
    if s.len() == 0 {
        s
    } else {
        let d = dedup_refs(s.drop_last());
        if d.len() > 0 && d.last().value == s.last().value && d.last().kind == s.last().kind {
            d
        } else {
            d.push(s.last())
        }
    }
}

/// The number of candidates asked for: 20 by default, kept within 1 to 50.
pub open spec fn result_limit(limit: Option<usize>) -> nat {
    let m: nat = match limit {
        Some(l) => l as nat,
        None => 20,
    };
    if m < 1 {
        1
    } else if m > 50 {
        50
    } else {
        m
    }
}

pub open spec fn cut<A>(s: Seq<A>, n: nat) -> Seq<A> {
    if s.len() <= n {
        s
    } else {
        s.take(n as int)
    }
}

/// `out` is `g` ranked by a stable sort, freed of adjacent repeats and cut
/// to `max` entries.
pub open spec fn ranked_references(g: Seq<(int, CandidateView)>, max: nat, out: Seq<CandidateView>) -> bool {
    exists|idx: Seq<usize>|
        is_permutation(idx, g.len()) && ranked_stably(Seq::new(g.len(), |i: int| rank_of(g[i])), idx)
            && out == cut(dedup_refs(Seq::new(idx.len(), |k: int| g[idx[k] as int].1)), max)
}

// ---------------------------------------------------------------------------
// Executable parts
// ---------------------------------------------------------------------------

fn join3(a: &Vec<char>, b: &Vec<char>, c: &Vec<char>) -> (r: Vec<char>)
    ensures
        r@ == a@ + " "@ + b@ + " "@ + c@,
{
    let mut t = a.clone();
    append_str(&mut t, " ");
    append_vec(&mut t, b);
    append_str(&mut t, " ");
    append_vec(&mut t, c);
    t
}

/// The text a named item is matched against (see `named_hay`).
fn named_hay_string(prefix: &str, id: &String, name: &String, description: &String) -> (r: String)
    ensures
        r@ == prefix@ + id@ + " "@ + name@ + " "@ + description@,
{
    let mut mention = chars_of(prefix);
    append_vec(&mut mention, &chars_of(id.as_str()));
    let hay = join3(&mention, &chars_of(name.as_str()), &chars_of(description.as_str()));
    string_of(&hay)
}

/// The text a listed path is matched against (see `path_hay`).
fn path_hay_string(rel: &String) -> (r: String)
    ensures
        r@ == path_hay(rel@),
{
    let rv = chars_of(rel.as_str());
    let parent = parent_vec(&rv);
    let base = match rsplit_once_vec(&rv, '/') {
        Some((_, b)) => b,
        None => copy_vec(&rv),
    };
    let hay = join3(&rv, &lower_vec(&base), &parent);
    string_of(&hay)
}

/// Adds the candidate of a named item when it is enabled and matches.
fn push_named(
    out: &mut Vec<(i64, WorkspaceReferenceCandidate)>,
    ql: &String,
    id: &String,
    name: &String,
    description: &String,
    enabled: bool,
    labels: (&str, &str, &str, &str),
)
    requires
        enabled ==> score_ok(
            ql@,
            named_hay((id@, name@, description@, enabled), (labels.0@, labels.1@, labels.2@, labels.3@)),
        ),
    ensures
        ({
            let x = (id@, name@, description@, enabled);
            let l = (labels.0@, labels.1@, labels.2@, labels.3@);
            let score = fuzzy(ql@, named_hay(x, l));
            scored_views(final(out)@) == if enabled && score >= 0 {
                scored_views(old(out)@).push((score, named_candidate(x, l)))
            } else {
                scored_views(old(out)@)
            }
        }),
{
    if !enabled {
        return;
    }
    let idv = chars_of(id.as_str());
    let mut mention = chars_of(labels.0);
    append_vec(&mut mention, &idv);
    let hay = join3(&mention, &chars_of(name.as_str()), &chars_of(description.as_str()));
    let hay_s = string_of(&hay);
    let score = fuzzy_score(ql.as_str(), hay_s.as_str());
    if score < 0 {
        return;
    }
    let mut display = chars_of(name.as_str());
    append_str(&mut display, " (");
    append_vec(&mut display, &idv);
    append_str(&mut display, ")");
    let desc = if trimmed(description.as_str()).len() == 0 {
        String::from_str(labels.2)
    } else {
        description.clone()
    };
    let c = WorkspaceReferenceCandidate {
        kind: String::from_str(labels.1),
        value: string_of(&mention),
        display: string_of(&display),
        description: desc,
        group: String::from_str(labels.3),
    };
    let ghost prev = out@;
    out.push((score, c));
    assert(scored_views(out@) =~= scored_views(prev).push(scored_views(out@).last()));
}

/// The parent and lower-cased last component of a relative path.
fn parent_vec(rel: &Vec<char>) -> (r: Vec<char>)
    ensures
        r@ == parent_of(rel@),
{
    match rsplit_once_vec(rel, '/') {
        Some((p, _)) => p,
        None => chars_of("(root)"),
    }
}

/// Adds the candidate of a listed path: always (scored 0) when `all`
/// holds, else when it matches.
fn push_path(out: &mut Vec<(i64, WorkspaceReferenceCandidate)>, ql: &String, all: bool, rel: &String, is_dir: bool)
    requires
        !all ==> score_ok(ql@, path_hay(rel@)),
    ensures
        ({
            let score = fuzzy(ql@, path_hay(rel@));
            scored_views(final(out)@) == if all {
                scored_views(old(out)@).push((0, path_candidate(rel@, is_dir)))
            } else if score >= 0 {
                scored_views(old(out)@).push((score, path_candidate(rel@, is_dir)))
            } else {
                scored_views(old(out)@)
            }
        }),
{
    let rv = chars_of(rel.as_str());
    let parent = parent_vec(&rv);
    let score: i64 = if all {
        0
    } else {
        let base = match rsplit_once_vec(&rv, '/') {
            Some((_, b)) => b,
            None => copy_vec(&rv),
        };
        let hay = join3(&rv, &lower_vec(&base), &parent);
        let hay_s = string_of(&hay);
        fuzzy_score(ql.as_str(), hay_s.as_str())
    };
    if score < 0 {
        return;
    }
    let kind = if is_dir {
        chars_of("directory")
    } else {
        chars_of("file")
    };
    let mut desc = chars_of("workspace ");
    append_vec(&mut desc, &kind);
    let c = WorkspaceReferenceCandidate {
        kind: string_of(&kind),
        value: rel.clone(),
        display: rel.clone(),
        description: string_of(&desc),
        group: string_of(&parent),
    };
    let ghost prev = out@;
    out.push((score, c));
    assert(scored_views(out@) =~= scored_views(prev).push(scored_views(out@).last()));
}

pub open spec fn preset_views(v: Seq<AgentPreset>) -> Seq<AgentPresetView> {
    Seq::new(v.len(), |i: int| v[i]@)
}

pub open spec fn workspace_skill_views(v: Seq<WorkspaceSkill>) -> Seq<WorkspaceSkillView> {
    Seq::new(v.len(), |i: int| v[i]@)
}

/// The candidates for an `@` reference being typed: the enabled agents and
/// skills, and the listed paths, that match the query, ranked best first
/// (score, then group, kind, value length and value), with adjacent repeats
/// of a value and kind dropped, at most `limit` of them (20 by default, kept
/// within 1 to 50).
///
/// `entries` is the listing of the directory that the query names (see
/// `split_base_and_needle`), each path relative to the workspace with
/// whether it is a directory.  Its order does not matter: paths whose rank
/// keys tie are the same candidate.
pub fn search_workspace_references(
    query: &str,
    limit: Option<usize>,
    agents: &Vec<AgentPreset>,
    skills: &Vec<WorkspaceSkill>,
    entries: &Vec<(String, bool)>,
) -> (r: Vec<WorkspaceReferenceCandidate>)
    requires
        ranking_safe(query@, preset_views(agents@), workspace_skill_views(skills@), entry_items(entries@)),
    ensures
        ranked_references(
            gathered(query@, preset_views(agents@), workspace_skill_views(skills@), entry_items(entries@)),
            result_limit(limit),
            candidate_views(r@),
        ),
{
    let ghost av = preset_views(agents@);
    let ghost sv = workspace_skill_views(skills@);
    let ghost ev = entry_items(entries@);
    let qv = replace_char_vec(&trimmed(query), '\\', '/');
    let ql = string_of(&lower_vec(&qv));
    let qs = string_of(&qv);
    let (_, needle) = split_base_and_needle(qs.as_str());
    let all = chars_of(needle.as_str()).len() == 0;
    assert(ql@ == query_key(query@));
    assert(all == lists_all(query@));

    let mut ranked: Vec<(i64, WorkspaceReferenceCandidate)> = Vec::new();
    let mut i: usize = 0;
    assert(agent_items(av).take(0) =~= Seq::<NamedItem>::empty());
    while i < agents.len()
        invariant
            i <= agents.len(),
            av == preset_views(agents@),
            ql@ == query_key(query@),
            ranking_safe(query@, av, sv, ev),
            scored_views(ranked@) == scored_named(ql@, agent_items(av).take(i as int), agent_labels()),
        decreases agents.len() - i,
    {
        let a = &agents[i];
        assert(agent_items(av).take(i + 1).drop_last() =~= agent_items(av).take(i as int));
        assert(agent_items(av)[i as int] == (a.id@, a.name@, a.description@, a.enabled));
        push_named(&mut ranked, &ql, &a.id, &a.name, &a.description, a.enabled, ("agent:", "agent", "agent preset", "Agents"));
        i += 1;
    }
    assert(agent_items(av).take(agents.len() as int) =~= agent_items(av));
    let ghost from_agents = scored_views(ranked@);
    let mut i: usize = 0;
    assert(skill_items(sv).take(0) =~= Seq::<NamedItem>::empty());
    assert(from_agents + Seq::<(int, CandidateView)>::empty() =~= from_agents);
    while i < skills.len()
        invariant
            i <= skills.len(),
            sv == workspace_skill_views(skills@),
            ql@ == query_key(query@),
            ranking_safe(query@, av, sv, ev),
            scored_views(ranked@) == from_agents + scored_named(ql@, skill_items(sv).take(i as int), skill_labels()),
        decreases skills.len() - i,
    {
        let k = &skills[i];
        assert(skill_items(sv).take(i + 1).drop_last() =~= skill_items(sv).take(i as int));
        assert(skill_items(sv)[i as int] == (k.id@, k.name@, k.description@, k.enabled));
        let ghost before = scored_named(ql@, skill_items(sv).take(i as int), skill_labels());
        push_named(&mut ranked, &ql, &k.id, &k.name, &k.description, k.enabled, ("skill:", "skill", "workspace skill", "Skills"));
        proof {
            let x = skill_items(sv)[i as int];
            let e = (fuzzy(ql@, named_hay(x, skill_labels())), named_candidate(x, skill_labels()));
            assert((from_agents + before).push(e) =~= from_agents + before.push(e));
        }
        i += 1;
    }
    assert(skill_items(sv).take(skills.len() as int) =~= skill_items(sv));
    let ghost named = scored_views(ranked@);
    let mut i: usize = 0;
    assert(ev.take(0) =~= Seq::<(Seq<char>, bool)>::empty());
    assert(named + Seq::<(int, CandidateView)>::empty() =~= named);
    while i < entries.len()
        invariant
            i <= entries.len(),
            ev == entry_items(entries@),
            ql@ == query_key(query@),
            all == lists_all(query@),
            ranking_safe(query@, av, sv, ev),
            scored_views(ranked@) == named + scored_paths(ql@, all, ev.take(i as int)),
        decreases entries.len() - i,
    {
        assert(ev.take(i + 1).drop_last() =~= ev.take(i as int));
        assert(ev[i as int] == (entries@[i as int].0@, entries@[i as int].1));
        let ghost before = scored_paths(ql@, all, ev.take(i as int));
        assert(!all ==> score_ok(ql@, path_hay(ev[i as int].0)));
        push_path(&mut ranked, &ql, all, &entries[i].0, entries[i].1);
        proof {
            let e = ev[i as int];
            let a = (0int, path_candidate(e.0, e.1));
            let b = (fuzzy(ql@, path_hay(e.0)), path_candidate(e.0, e.1));
            assert((named + before).push(a) =~= named + before.push(a));
            assert((named + before).push(b) =~= named + before.push(b));
        }
        i += 1;
    }
    assert(ev.take(entries.len() as int) =~= ev);
    let ghost g = scored_views(ranked@);
    assert(g == gathered(query@, av, sv, ev));
    rank_and_cut(&ranked, limit)
}

/// The directory, relative to the workspace, whose listing a query ranks:
/// the part of the normalized query before its last `/` (see
/// `split_base_and_needle`).
pub fn listing_base(query: &str) -> (r: String)
    ensures
        r@ == base_and_needle(query_text(query@)).0,
{
    let qv = replace_char_vec(&trimmed(query), '\\', '/');
    let qs = string_of(&qv);
    let (base, _) = split_base_and_needle(qs.as_str());
    base
}

/// Whether every text that ranking would score is one that scoring accepts
/// (see `ranking_safe`): what a caller tests before
/// `search_workspace_references`.
pub fn ranking_is_safe(
    query: &str,
    agents: &Vec<AgentPreset>,
    skills: &Vec<WorkspaceSkill>,
    entries: &Vec<(String, bool)>,
) -> (r: bool)
    ensures
        r == ranking_safe(query@, preset_views(agents@), workspace_skill_views(skills@), entry_items(entries@)),
{
    let ghost av = preset_views(agents@);
    let ghost sv = workspace_skill_views(skills@);
    let ghost ev = entry_items(entries@);
    let qv = replace_char_vec(&trimmed(query), '\\', '/');
    let ql = string_of(&lower_vec(&qv));
    let qs = string_of(&qv);
    let (_, needle) = split_base_and_needle(qs.as_str());
    let all = chars_of(needle.as_str()).len() == 0;
    assert(ql@ == query_key(query@));
    assert(all == lists_all(query@));
    let mut i: usize = 0;
    while i < agents.len()
        invariant
            i <= agents.len(),
            av == preset_views(agents@),
            ql@ == query_key(query@),
            forall|j: int|
                0 <= j < i && av[j].enabled ==> score_ok(ql@, named_hay(#[trigger] agent_items(av)[j], agent_labels())),
        decreases agents.len() - i,
    {
        let a = &agents[i];
        assert(agent_items(av)[i as int] == (a.id@, a.name@, a.description@, a.enabled));
        if a.enabled {
            let hay = named_hay_string("agent:", &a.id, &a.name, &a.description);
            if fuzzy_would_fail(ql.as_str(), hay.as_str()) {
                assert(!score_ok(ql@, named_hay(agent_items(av)[i as int], agent_labels())));
                return false;
            }
        }
        i += 1;
    }
    let mut i: usize = 0;
    while i < skills.len()
        invariant
            i <= skills.len(),
            sv == workspace_skill_views(skills@),
            ql@ == query_key(query@),
            forall|j: int|
                0 <= j < i && sv[j].enabled ==> score_ok(ql@, named_hay(#[trigger] skill_items(sv)[j], skill_labels())),
        decreases skills.len() - i,
    {
        let k = &skills[i];
        assert(skill_items(sv)[i as int] == (k.id@, k.name@, k.description@, k.enabled));
        if k.enabled {
            let hay = named_hay_string("skill:", &k.id, &k.name, &k.description);
            if fuzzy_would_fail(ql.as_str(), hay.as_str()) {
                assert(!score_ok(ql@, named_hay(skill_items(sv)[i as int], skill_labels())));
                return false;
            }
        }
        i += 1;
    }
    if all {
        return true;
    }
    let mut i: usize = 0;
    while i < entries.len()
        invariant
            i <= entries.len(),
            ev == entry_items(entries@),
            ql@ == query_key(query@),
            !lists_all(query@),
            forall|j: int| 0 <= j < i ==> score_ok(ql@, path_hay(#[trigger] ev[j].0)),
        decreases entries.len() - i,
    {
        assert(ev[i as int] == (entries@[i as int].0@, entries@[i as int].1));
        let hay = path_hay_string(&entries[i].0);
        if fuzzy_would_fail(ql.as_str(), hay.as_str()) {
            assert(!score_ok(ql@, path_hay(ev[i as int].0)));
            return false;
        }
        i += 1;
    }
    true
}

/// Ranks scored candidates (see `ranked_references`).
pub fn rank_and_cut(ranked: &Vec<(i64, WorkspaceReferenceCandidate)>, limit: Option<usize>) -> (r: Vec<WorkspaceReferenceCandidate>)
    ensures
        ranked_references(scored_views(ranked@), result_limit(limit), candidate_views(r@)),
{
    let ghost g = scored_views(ranked@);
    let mut keys: Vec<RankKey> = Vec::new();
    let mut k: usize = 0;
    while k < ranked.len()
        invariant
            k <= ranked.len(),
            g == scored_views(ranked@),
            keys@.len() == k,
            forall|j: int| 0 <= j < k ==> (#[trigger] keys@[j])@ == rank_of(g[j]),
        decreases ranked.len() - k,
    {
        let c = &ranked[k].1;
        let key = RankKey {
            score: ranked[k].0,
            group: chars_of(c.group.as_str()),
            kind: chars_of(c.kind.as_str()),
            bytes: c.value.as_str().as_bytes().len(),
            value: chars_of(c.value.as_str()),
        };
        keys.push(key);
        k += 1;
    }
    assert(rank_views(keys@) =~= Seq::new(g.len(), |i: int| rank_of(g[i])));
    let idx = sort_ranked(&keys);
    let ghost picked = Seq::new(idx@.len(), |k: int| g[idx@[k] as int].1);
    let mut sorted: Vec<WorkspaceReferenceCandidate> = Vec::new();
    let mut k: usize = 0;
    while k < idx.len()
        invariant
            k <= idx.len(),
            g == scored_views(ranked@),
            is_permutation(idx@, ranked@.len()),
            picked == Seq::new(idx@.len(), |k: int| g[idx@[k] as int].1),
            candidate_views(sorted@) =~= picked.take(k as int),
        decreases idx.len() - k,
    {
        assert(idx@[k as int] < ranked@.len());
        let c = ranked[idx[k]].1.copy();
        let ghost prev = sorted@;
        sorted.push(c);
        assert(candidate_views(sorted@) =~= candidate_views(prev).push(picked[k as int]));
        k += 1;
    }
    assert(picked.take(idx.len() as int) =~= picked);
    let mut deduped: Vec<WorkspaceReferenceCandidate> = Vec::new();
    let mut k: usize = 0;
    assert(picked.take(0) =~= Seq::<CandidateView>::empty());
    while k < sorted.len()
        invariant
            k <= sorted.len(),
            candidate_views(sorted@) == picked,
            candidate_views(deduped@) == dedup_refs(picked.take(k as int)),
        decreases sorted.len() - k,
    {
        assert(picked.take(k + 1).drop_last() =~= picked.take(k as int));
        assert(picked.take(k + 1).last() == sorted@[k as int]@);
        let c = &sorted[k];
        let n = deduped.len();
        let repeat = n > 0 && seq_eq(&chars_of(deduped[n - 1].value.as_str()), &chars_of(c.value.as_str()))
            && seq_eq(&chars_of(deduped[n - 1].kind.as_str()), &chars_of(c.kind.as_str()));
        proof {
            if n > 0 {
                assert(candidate_views(deduped@).last() == deduped@[n - 1]@);
            }
        }
        if !repeat {
            let ghost prev = deduped@;
            deduped.push(c.copy());
            assert(candidate_views(deduped@) =~= candidate_views(prev).push(c@));
        }
        k += 1;
    }
    assert(picked.take(sorted.len() as int) =~= picked);
    let max: usize = match limit {
        Some(l) => if l < 1 {
            1
        } else if l > 50 {
            50
        } else {
            l
        },
        None => 20,
    };
    let mut out: Vec<WorkspaceReferenceCandidate> = Vec::new();
    let mut k: usize = 0;
    while k < deduped.len() && k < max
        invariant
            k <= deduped.len(),
            k <= max,
            candidate_views(out@) =~= candidate_views(deduped@).take(k as int),
        decreases deduped.len() - k,
    {
        let ghost prev = out@;
        out.push(deduped[k].copy());
        assert(candidate_views(out@) =~= candidate_views(prev).push(candidate_views(deduped@)[k as int]));
        k += 1;
    }
    proof {
        let d = candidate_views(deduped@);
        assert(max == result_limit(limit));
        if d.len() <= max {
            assert(d.take(d.len() as int) =~= d);
        }
        assert(candidate_views(out@) == cut(dedup_refs(picked), result_limit(limit)));
        assert(is_permutation(idx@, g.len()) && ranked_stably(Seq::new(g.len(), |i: int| rank_of(g[i])), idx@)
            && candidate_views(out@) == cut(dedup_refs(Seq::new(idx@.len(), |k: int| g[idx@[k] as int].1)), result_limit(limit)));
    }
    out
}

} // verus!
