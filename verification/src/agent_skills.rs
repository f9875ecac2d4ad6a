//! The agent-skills registry: the skills of the default repository (read
//! from its `SKILL.md` files) and the results of the skills.sh search, merged
//! into one list of installable skills.
//!
//! The HTTP requests and the JSON are the caller's business.
use vstd::prelude::*;

use crate::markdown::{frontmatter_parts, frontmatter_parts_vec};
use crate::order::{is_permutation, key_views, picks, sort_indices, sorted_stably};
use crate::skills::{
    after_last, agent_skill_url, agent_skill_url_spec, humanize_skill_title, humanize_spec,
    install_command_for, project_scope_install_command, AgentSkillSearchItem,
};
use crate::text::{
    append_str, chars_of, contains, contains_vec, copy_string, eq_ignore_case, eq_ignore_case_vec,
    last_index_of_vec, lines, lines_vec, lit, lower, lower_vec, opt_view, seq_eq, slice_vec,
    split_once, split_once_vec, string_of, strip_char_end, strip_char_start, to_lowercase, trim,
    trim_matches, trim_matches_vec, trim_start, trim_vec, trimmed, unicode_lowercase, views_v,
};

verus! {

/// The repository whose skills are installed by default.
pub open spec fn default_repo() -> Seq<char> {
    "vercel-labs/agent-skills"@
}

// ---------------------------------------------------------------------------
// Skill files of the registry
// ---------------------------------------------------------------------------

/// A frontmatter value without surrounding quotes.
pub open spec fn unquoted(v: Seq<char>) -> Seq<char> {
    trim(trim_matches(trim_matches(trim(v), '"'), '\''))
}

/// The `name` (lower-cased) and `description` a `SKILL.md` frontmatter
/// gives, the last non-empty value of each winning.
pub open spec fn skill_md_fields(ls: Seq<Seq<char>>) -> (Option<Seq<char>>, Option<Seq<char>>)
    decreases ls.len(),
{
    if ls.len() == 0 {
        (None, None)
    } else {
        let (n, d) = skill_md_fields(ls.drop_last());
        match split_once(trim(ls.last()), ':') {
            None => (n, d),
            Some((k, v)) => {
                let key = lower(trim(k));
                let value = unquoted(v);
                if value.len() == 0 {
                    (n, d)
                } else if key == "name"@ {
                    (Some(lower(value)), d)
                } else if key == "description"@ {
                    (n, Some(value))
                } else {
                    (n, d)
                }
            },
        }
    }
}

/// The block between the opening `---` and the next `\n---` (untrimmed), or
/// nothing without such a block.
pub open spec fn skill_md_block(raw: Seq<char>) -> Option<Seq<char>> {
    match frontmatter_parts(raw) {
        Some((block, _)) => Some(block),
        None => None,
    }
}

pub open spec fn skill_md_frontmatter(raw: Seq<char>) -> (Option<Seq<char>>, Option<Seq<char>>) {
    match skill_md_block(raw) {
        Some(block) => skill_md_fields(lines(block)),
        None => (None, None),
    }
}

fn unquoted_vec(v: &Vec<char>) -> (r: Vec<char>)
    ensures
        r@ == unquoted(v@),
{
    trim_vec(&trim_matches_vec(&trim_matches_vec(&trim_vec(v), '"'), '\''))
}

/// The lower-cased `name` and the `description` of a registry `SKILL.md`.
pub fn parse_skill_frontmatter(raw: &str) -> (r: (Option<String>, Option<String>))
    ensures
        opt_view(r.0) == skill_md_frontmatter(raw@).0,
        opt_view(r.1) == skill_md_frontmatter(raw@).1,
{
    let v = chars_of(raw);
    let block = match frontmatter_parts_vec(&v) {
        Some((b, _)) => b,
        None => {
            return (None, None);
        },
    };
    let ls = lines_vec(&block);
    let ghost lv = views_v(ls@);
    let mut name: Option<Vec<char>> = None;
    let mut description: Option<Vec<char>> = None;
    let mut i: usize = 0;
    assert(lv.take(0) =~= Seq::<Seq<char>>::empty());
    while i < ls.len()
        invariant
            i <= ls.len(),
            lv == views_v(ls@),
            lv == lines(block@),
            (crate::workspace_skills::ovec(name), crate::workspace_skills::ovec(description)) == skill_md_fields(lv.take(i as int)),
        decreases ls.len() - i,
    {
        assert(lv.take(i + 1).drop_last() =~= lv.take(i as int));
        assert(lv.take(i + 1).last() == ls@[i as int]@);
        let t = trim_vec(&ls[i]);
        match split_once_vec(&t, ':') {
            None => {},
            Some((k, val)) => {
                let key = lower_vec(&trim_vec(&k));
                let value = unquoted_vec(&val);
                if value.len() > 0 {
                    if seq_eq(&key, &chars_of("name")) {
                        name = Some(lower_vec(&value));
                    } else if seq_eq(&key, &chars_of("description")) {
                        description = Some(value);
                    }
                }
            },
        }
        i += 1;
    }
    assert(lv.take(ls.len() as int) =~= lv);
    let n = match name {
        Some(x) => Some(string_of(&x)),
        None => None,
    };
    let d = match description {
        Some(x) => Some(string_of(&x)),
        None => None,
    };
    (n, d)
}

/// What the registry knows of one of its skills.
#[derive(Debug)]
pub struct AgentSkillMetadata {
    pub canonical_name: String,
    pub display_name: String,
    pub description: String,
}

pub struct MetaView {
    pub canonical_name: Seq<char>,
    pub display_name: Seq<char>,
    pub description: Seq<char>,
}

impl View for AgentSkillMetadata {
    type V = MetaView;

    open spec fn view(&self) -> MetaView {
        MetaView {
            canonical_name: self.canonical_name@,
            display_name: self.display_name@,
            description: self.description@,
        }
    }
}

impl AgentSkillMetadata {
    pub fn copy(&self) -> (r: AgentSkillMetadata)
        ensures
            r@ == self@,
    {
        AgentSkillMetadata {
            canonical_name: copy_string(&self.canonical_name),
            display_name: copy_string(&self.display_name),
            description: copy_string(&self.description),
        }
    }
}

/// The metadata of a registry directory, from its `SKILL.md` when that
/// could be read: the directory name (trimmed, lower-cased) unless the file
/// names the skill; a default description unless the file gives one.
/// `None` for a directory with a blank name.
pub open spec fn metadata_of(dir_name: Seq<char>, skill_md: Option<Seq<char>>) -> Option<(Seq<char>, MetaView)> {
    let fallback = lower(trim(dir_name));
    let fields = match skill_md {
        Some(raw) => skill_md_frontmatter(raw),
        None => (None, None),
    };
    let display = match fields.0 {
        Some(n) => n,
        None => fallback,
    };
    let description = match fields.1 {
        Some(d) => d,
        None => "Install `"@ + fallback + "` from "@ + default_repo() + "."@,
    };
    if fallback.len() == 0 {
        None
    } else {
        Some((fallback, MetaView { canonical_name: display, display_name: humanize_spec(display), description }))
    }
}

/// Builds the metadata of a registry directory (see `metadata_of`); gives
/// the directory's key with it.
pub fn agent_skill_metadata(dir_name: &str, skill_md: Option<&str>) -> (r: Option<(String, AgentSkillMetadata)>)
    ensures
        match metadata_of(dir_name@, crate::text::opt_str_view(skill_md)) {
            Some((k, m)) => r matches Some((x, y)) && x@ == k && y@ == m,
            None => r is None,
        },
{
    let fallback = lower_vec(&trimmed(dir_name));
    if fallback.len() == 0 {
        return None;
    }
    let (name, desc) = match skill_md {
        Some(raw) => parse_skill_frontmatter(raw),
        None => (None, None),
    };
    let display = match name {
        Some(n) => n,
        None => string_of(&fallback),
    };
    let description = match desc {
        Some(d) => d,
        None => {
            let mut m = chars_of("Install `");
            crate::text::append_vec(&mut m, &fallback);
            append_str(&mut m, "` from ");
            append_str(&mut m, "vercel-labs/agent-skills");
            append_str(&mut m, ".");
            string_of(&m)
        },
    };
    let title = humanize_skill_title(display.as_str());
    Some((string_of(&fallback), AgentSkillMetadata { canonical_name: display, display_name: title, description }))
}

// ---------------------------------------------------------------------------
// The metadata index
// ---------------------------------------------------------------------------

/// `HashMap::insert` on an association list: replaces the value of `k` in
/// place, or appends the pair.
pub open spec fn index_insert(m: Seq<(Seq<char>, MetaView)>, k: Seq<char>, v: MetaView) -> Seq<(Seq<char>, MetaView)>
    decreases m.len(),
{
    if m.len() == 0 {
        seq![(k, v)]
    } else if m[0].0 == k {
        m.update(0, (k, v))
    } else {
        seq![m[0]] + index_insert(m.drop_first(), k, v)
    }
}

/// The metadata recorded under a key.
pub open spec fn index_get(m: Seq<(Seq<char>, MetaView)>, k: Seq<char>) -> Option<MetaView>
    decreases m.len(),
{
    if m.len() == 0 {
        None
    } else if m[0].0 == k {
        Some(m[0].1)
    } else {
        index_get(m.drop_first(), k)
    }
}

pub open spec fn index_views(m: Seq<(String, AgentSkillMetadata)>) -> Seq<(Seq<char>, MetaView)> {
    Seq::new(m.len(), |i: int| (m[i].0@, m[i].1@))
}

proof fn lemma_index_insert_prefix(m: Seq<(Seq<char>, MetaView)>, k: Seq<char>, v: MetaView, i: int)
    requires
        0 <= i <= m.len(),
        forall|j: int| 0 <= j < i ==> m[j].0 != k,
    ensures
        i < m.len() && m[i].0 == k ==> index_insert(m, k, v) == m.update(i, (k, v)),
        i == m.len() ==> index_insert(m, k, v) == m.push((k, v)),
    decreases i,
{
    if i > 0 {
        lemma_index_insert_prefix(m.drop_first(), k, v, i - 1);
        if i < m.len() && m[i].0 == k {
            assert(seq![m[0]] + m.drop_first().update(i - 1, (k, v)) =~= m.update(i, (k, v)));
        }
        if i == m.len() {
            assert(seq![m[0]] + m.drop_first().push((k, v)) =~= m.push((k, v)));
        }
    } else if m.len() == 0 {
        assert(seq![(k, v)] =~= m.push((k, v)));
    }
}

fn index_insert_vec(m: &mut Vec<(String, AgentSkillMetadata)>, k: String, v: AgentSkillMetadata)
    ensures
        index_views(final(m)@) == index_insert(index_views(old(m)@), k@, v@),
{
    let ghost mv = index_views(m@);
    let kc = chars_of(k.as_str());
    let mut i: usize = 0;
    while i < m.len() && !seq_eq(&chars_of(m[i].0.as_str()), &kc)
        invariant
            i <= m.len(),
            mv == index_views(m@),
            kc@ == k@,
            forall|j: int| 0 <= j < i ==> mv[j].0 != k@,
        decreases m.len() - i,
    {
        i += 1;
    }
    proof {
        lemma_index_insert_prefix(mv, k@, v@, i as int);
    }
    if i < m.len() {
        m.set(i, (k, v));
        assert(index_views(m@) =~= mv.update(i as int, (kc@, v@)));
    } else {
        m.push((k, v));
        assert(index_views(m@) =~= mv.push((kc@, v@)));
    }
}

/// A directory of the registry: its name, whether it is a directory, and
/// its `SKILL.md` when that could be read.
pub struct RegistryEntry {
    pub name: String,
    pub is_dir: bool,
    pub skill_md: Option<String>,
}

pub open spec fn entry_views(v: Seq<RegistryEntry>) -> Seq<(Seq<char>, bool, Option<Seq<char>>)> {
    Seq::new(v.len(), |i: int| (v[i].name@, v[i].is_dir, opt_view(v[i].skill_md)))
}

/// The index of the registry: each skill directory's metadata recorded
/// under its directory name and under its skill name.
pub open spec fn index_of(entries: Seq<(Seq<char>, bool, Option<Seq<char>>)>) -> Seq<(Seq<char>, MetaView)>
    decreases entries.len(),
{
    if entries.len() == 0 {
        Seq::<(Seq<char>, MetaView)>::empty()
    } else {
        let init = index_of(entries.drop_last());
        let e = entries.last();
        if !e.1 {
            init
        } else {
            match metadata_of(e.0, e.2) {
                None => init,
                Some((k, m)) => index_insert(index_insert(init, k, m), m.canonical_name, m),
            }
        }
    }
}

/// Builds the registry index from its directories.
pub fn agent_skills_index(entries: &Vec<RegistryEntry>) -> (r: Vec<(String, AgentSkillMetadata)>)
    ensures
        index_views(r@) == index_of(entry_views(entries@)),
{
    let ghost ev = entry_views(entries@);
    let mut out: Vec<(String, AgentSkillMetadata)> = Vec::new();
    let mut i: usize = 0;
    assert(ev.take(0) =~= Seq::<(Seq<char>, bool, Option<Seq<char>>)>::empty());
    assert(index_views(out@) =~= Seq::<(Seq<char>, MetaView)>::empty());
    while i < entries.len()
        invariant
            i <= entries.len(),
            ev == entry_views(entries@),
            index_views(out@) == index_of(ev.take(i as int)),
        decreases entries.len() - i,
    {
        assert(ev.take(i + 1).drop_last() =~= ev.take(i as int));
        assert(ev.take(i + 1).last() == ev[i as int]);
        let e = &entries[i];
        if e.is_dir {
            let md = match &e.skill_md {
                Some(s) => Some(s.as_str()),
                None => None,
            };
            match agent_skill_metadata(e.name.as_str(), md) {
                None => {},
                Some((k, m)) => {
                    let second = m.copy();
                    let name = copy_string(&m.canonical_name);
                    index_insert_vec(&mut out, k, m);
                    index_insert_vec(&mut out, name, second);
                },
            }
        }
        i += 1;
    }
    assert(ev.take(entries.len() as int) =~= ev);
    out
}

// ---------------------------------------------------------------------------
// Searching the registry
// ---------------------------------------------------------------------------

/// One result of the skills.sh search.
#[derive(Debug)]
pub struct SkillsShItem {
    pub id: String,
    pub skill_id: String,
    pub name: String,
    pub installs: u64,
    pub source: String,
}

pub struct ShView {
    pub id: Seq<char>,
    pub skill_id: Seq<char>,
    pub name: Seq<char>,
    pub installs: u64,
    pub source: Seq<char>,
}

impl View for SkillsShItem {
    type V = ShView;

    open spec fn view(&self) -> ShView {
        ShView { id: self.id@, skill_id: self.skill_id@, name: self.name@, installs: self.installs, source: self.source@ }
    }
}

pub struct SearchItemView {
    pub skill_name: Seq<char>,
    pub title: Seq<char>,
    pub description: Seq<char>,
    pub source: Seq<char>,
    pub installs: u64,
    pub url: Seq<char>,
    pub install_command: Seq<char>,
}

impl View for AgentSkillSearchItem {
    type V = SearchItemView;

    open spec fn view(&self) -> SearchItemView {
        SearchItemView {
            skill_name: self.skill_name@,
            title: self.title@,
            description: self.description@,
            source: self.source@,
            installs: self.installs,
            url: self.url@,
            install_command: self.install_command@,
        }
    }
}

/// The results so far and the keys (`source::name`) already listed.
pub struct MergeState {
    pub seen: Seq<Seq<char>>,
    pub out: Seq<SearchItemView>,
}

/// The skill name a search result stands for: its skill id, else its name,
/// else the last part of its id.
pub open spec fn candidate_name(it: ShView) -> Seq<char> {
    if trim(it.skill_id).len() > 0 {
        it.skill_id
    } else if trim(it.name).len() > 0 {
        it.name
    } else {
        after_last(it.id, '/')
    }
}

pub open spec fn install_command_from(source: Seq<char>, name: Seq<char>) -> Seq<char> {
    "bunx skills add "@ + source + " --skill "@ + name + " --agent opencode -y"@
}

/// A search result is listed unless it is a skill of the default
/// repository that the registry index (when known) lacks, or its key was
/// listed before.  Skills of the default repository take the index's title
/// and description.
pub open spec fn api_step(idx: Seq<(Seq<char>, MetaView)>, st: MergeState, it: ShView) -> MergeState {
    let source = if trim(it.source).len() == 0 {
        default_repo()
    } else {
        it.source
    };
    let normalized = trim(candidate_name(it));
    let nlc = lower(normalized);
    let is_default = eq_ignore_case(source, default_repo());
    let meta = index_get(idx, nlc);
    let known = is_default && meta is Some;
    let key = unicode_lowercase(source) + "::"@ + nlc;
    if is_default && idx.len() > 0 && meta is None {
        st
    } else if st.seen.contains(key) {
        st
    } else {
        MergeState {
            seen: st.seen.push(key),
            out: st.out.push(
                SearchItemView {
                    skill_name: normalized,
                    title: if known {
                        meta->0.display_name
                    } else {
                        humanize_spec(normalized)
                    },
                    description: if known {
                        meta->0.description
                    } else {
                        "Install `"@ + normalized + "` from "@ + source + "."@
                    },
                    source: source,
                    installs: it.installs,
                    url: if is_default {
                        agent_skill_url_spec(normalized)
                    } else {
                        "https://skills.sh/"@ + source + "/"@ + normalized
                    },
                    install_command: install_command_from(source, normalized),
                },
            ),
        }
    }
}

pub open spec fn api_fold(idx: Seq<(Seq<char>, MetaView)>, items: Seq<ShView>) -> MergeState
    decreases items.len(),
{
    if items.len() == 0 {
        MergeState { seen: Seq::<Seq<char>>::empty(), out: Seq::<SearchItemView>::empty() }
    } else {
        api_step(idx, api_fold(idx, items.drop_last()), items.last())
    }
}

/// A registry skill is listed unless its key was listed before.
pub open spec fn canon_step(st: MergeState, m: MetaView) -> MergeState {
    let key = "vercel-labs/agent-skills::"@ + lower(m.canonical_name);
    if st.seen.contains(key) {
        st
    } else {
        MergeState {
            seen: st.seen.push(key),
            out: st.out.push(
                SearchItemView {
                    skill_name: m.canonical_name,
                    title: m.display_name,
                    description: m.description,
                    source: default_repo(),
                    installs: 0,
                    url: agent_skill_url_spec(m.canonical_name),
                    install_command: install_command_for(m.canonical_name),
                },
            ),
        }
    }
}

pub open spec fn canon_fold(st: MergeState, ms: Seq<MetaView>) -> MergeState
    decreases ms.len(),
{
    if ms.len() == 0 {
        st
    } else {
        canon_step(canon_fold(st, ms.drop_last()), ms.last())
    }
}

/// A registry skill matches a (trimmed) query when the query is empty or
/// occurs in its name or description, ignoring ASCII case.
pub open spec fn canon_matches(m: MetaView, query: Seq<char>) -> bool {
    query.len() == 0 || contains(lower(m.canonical_name), lower(query)) || contains(lower(m.description), lower(query))
}

/// The index's values that match the query, in index order.
pub open spec fn matching_values(idx: Seq<(Seq<char>, MetaView)>, query: Seq<char>) -> Seq<MetaView>
    decreases idx.len(),
{
    if idx.len() == 0 {
        Seq::<MetaView>::empty()
    } else {
        let init = matching_values(idx.drop_last(), query);
        if canon_matches(idx.last().1, query) {
            init.push(idx.last().1)
        } else {
            init
        }
    }
}

pub open spec fn canonical_keys(ms: Seq<MetaView>) -> Seq<Seq<char>> {
    Seq::new(ms.len(), |i: int| ms[i].canonical_name)
}

/// `out` is `src` stably sorted by canonical name.
pub open spec fn sorted_by_canonical(src: Seq<MetaView>, out: Seq<MetaView>) -> bool {
    exists|idx: Seq<usize>|
        is_permutation(idx, src.len()) && sorted_stably(canonical_keys(src), idx, false) && #[trigger] picks(src, out, idx)
}

/// The merged search: the search results first, then the matching registry
/// skills ordered by name, each key once, cut to the limit (clamped to
/// 1..=100).
pub open spec fn merged_search(
    query: Seq<char>,
    limit: nat,
    idx: Seq<(Seq<char>, MetaView)>,
    found: Seq<ShView>,
    sorted: Seq<MetaView>,
) -> Seq<SearchItemView> {
    let lim = if limit < 1 {
        1
    } else if limit > 100 {
        100
    } else {
        limit
    };
    let st = api_fold(idx, found);
    let all = if idx.len() > 0 {
        canon_fold(st, sorted)
    } else {
        st
    };
    if all.out.len() > lim {
        all.out.take(lim as int)
    } else {
        all.out
    }
}

fn contains_key(seen: &Vec<Vec<char>>, key: &Vec<char>) -> (r: bool)
    ensures
        r == views_v(seen@).contains(key@),
{
    let mut i: usize = 0;
    while i < seen.len()
        invariant
            i <= seen.len(),
            forall|k: int| 0 <= k < i ==> seen@[k]@ != key@,
        decreases seen.len() - i,
    {
        if seq_eq(&seen[i], key) {
            assert(views_v(seen@)[i as int] == key@);
            return true;
        }
        i += 1;
    }
    proof {
        if views_v(seen@).contains(key@) {
            let k = choose|k: int| 0 <= k < views_v(seen@).len() && views_v(seen@)[k] == key@;
            assert(seen@[k]@ == key@);
        }
    }
    false
}

fn index_lookup(idx: &Vec<(String, AgentSkillMetadata)>, k: &Vec<char>) -> (r: Option<AgentSkillMetadata>)
    ensures
        match index_get(index_views(idx@), k@) {
            Some(m) => r matches Some(x) && x@ == m,
            None => r is None,
        },
{
    let ghost iv = index_views(idx@);
    let mut i: usize = 0;
    assert(iv.skip(0) =~= iv);
    while i < idx.len()
        invariant
            i <= idx.len(),
            iv == index_views(idx@),
            index_get(iv, k@) == index_get(iv.skip(i as int), k@),
        decreases idx.len() - i,
    {
        assert(iv.skip(i as int).drop_first() =~= iv.skip(i + 1));
        if seq_eq(&chars_of(idx[i].0.as_str()), k) {
            return Some(idx[i].1.copy());
        }
        i += 1;
    }
    assert(iv.skip(idx.len() as int) =~= Seq::<(Seq<char>, MetaView)>::empty());
    None
}

fn item_of(
    normalized: &Vec<char>,
    title: String,
    description: String,
    source: &Vec<char>,
    installs: u64,
    url: Vec<char>,
) -> (r: AgentSkillSearchItem)
    ensures
        r@ == (SearchItemView {
            skill_name: normalized@,
            title: title@,
            description: description@,
            source: source@,
            installs,
            url: url@,
            install_command: install_command_from(source@, normalized@),
        }),
{
    let mut cmd = chars_of("bunx skills add ");
    crate::text::append_vec(&mut cmd, source);
    append_str(&mut cmd, " --skill ");
    crate::text::append_vec(&mut cmd, normalized);
    append_str(&mut cmd, " --agent opencode -y");
    AgentSkillSearchItem {
        skill_name: string_of(normalized),
        title,
        description,
        source: string_of(source),
        installs,
        url: string_of(&url),
        install_command: string_of(&cmd),
    }
}

fn api_merge_step(
    idx: &Vec<(String, AgentSkillMetadata)>,
    seen: &mut Vec<Vec<char>>,
    out: &mut Vec<AgentSkillSearchItem>,
    it: &SkillsShItem,
)
    ensures
        ({
            let next = api_step(index_views(idx@), MergeState { seen: views_v(old(seen)@), out: crate::listing::item_views(old(out)@) }, it@);
            views_v(final(seen)@) == next.seen && crate::listing::item_views(final(out)@) == next.out
        }),
{
    let src_raw = chars_of(it.source.as_str());
    let source = if trim_vec(&src_raw).len() == 0 {
        chars_of("vercel-labs/agent-skills")
    } else {
        src_raw
    };
    let cand = if trimmed(it.skill_id.as_str()).len() > 0 {
        chars_of(it.skill_id.as_str())
    } else if trimmed(it.name.as_str()).len() > 0 {
        chars_of(it.name.as_str())
    } else {
        let id = chars_of(it.id.as_str());
        match last_index_of_vec(&id, '/') {
            Some(i) => {
                proof {
                    crate::text::lemma_last_index_before(id@, '/', id@.len() as int);
                }
                assert(i < id.len());
                slice_vec(&id, i + 1, id.len())
            },
            None => id,
        }
    };
    let normalized = trim_vec(&cand);
    let nlc = lower_vec(&normalized);
    let is_default = eq_ignore_case_vec(&source, &chars_of("vercel-labs/agent-skills"));
    let meta = index_lookup(idx, &nlc);
    if is_default && idx.len() > 0 && meta.is_none() {
        return;
    }
    let mut key = chars_of(to_lowercase(string_of(&source).as_str()).as_str());
    append_str(&mut key, "::");
    crate::text::append_vec(&mut key, &nlc);
    if contains_key(seen, &key) {
        return;
    }
    let known = is_default && meta.is_some();
    let (title, description) = match meta {
        Some(m) if is_default => (m.display_name, m.description),
        _ => {
            let t = humanize_skill_title(string_of(&normalized).as_str());
            let mut d = chars_of("Install `");
            crate::text::append_vec(&mut d, &normalized);
            append_str(&mut d, "` from ");
            crate::text::append_vec(&mut d, &source);
            append_str(&mut d, ".");
            (t, string_of(&d))
        },
    };
    let url = if is_default {
        chars_of(agent_skill_url(string_of(&normalized).as_str()).as_str())
    } else {
        let mut u = chars_of("https://skills.sh/");
        crate::text::append_vec(&mut u, &source);
        append_str(&mut u, "/");
        crate::text::append_vec(&mut u, &normalized);
        u
    };
    let item = item_of(&normalized, title, description, &source, it.installs, url);
    let ghost prev_seen = seen@;
    let ghost prev_out = out@;
    seen.push(key);
    out.push(item);
    assert(views_v(seen@) =~= views_v(prev_seen).push(key@));
    assert(crate::listing::item_views(out@) =~= crate::listing::item_views(prev_out).push(item@));
}

fn canon_merge_step(seen: &mut Vec<Vec<char>>, out: &mut Vec<AgentSkillSearchItem>, m: &AgentSkillMetadata)
    ensures
        ({
            let next = canon_step(MergeState { seen: views_v(old(seen)@), out: crate::listing::item_views(old(out)@) }, m@);
            views_v(final(seen)@) == next.seen && crate::listing::item_views(final(out)@) == next.out
        }),
{
    let mut key = chars_of("vercel-labs/agent-skills::");
    crate::text::append_vec(&mut key, &lower_vec(&chars_of(m.canonical_name.as_str())));
    if contains_key(seen, &key) {
        return;
    }
    let item = AgentSkillSearchItem {
        skill_name: copy_string(&m.canonical_name),
        title: copy_string(&m.display_name),
        description: copy_string(&m.description),
        source: lit("vercel-labs/agent-skills"),
        installs: 0,
        url: agent_skill_url(m.canonical_name.as_str()),
        install_command: project_scope_install_command(m.canonical_name.as_str()),
    };
    let ghost prev_seen = seen@;
    let ghost prev_out = out@;
    seen.push(key);
    out.push(item);
    assert(views_v(seen@) =~= views_v(prev_seen).push(key@));
    assert(crate::listing::item_views(out@) =~= crate::listing::item_views(prev_out).push(item@));
}

/// Merges the skills.sh results for a query (empty when no search was made
/// or it failed) with the registry index (empty when it could not be read).
pub fn merge_agent_skill_search(
    query: &str,
    limit: usize,
    idx: &Vec<(String, AgentSkillMetadata)>,
    found: &Vec<SkillsShItem>,
) -> (r: Vec<AgentSkillSearchItem>)
    ensures
        exists|sorted: Seq<MetaView>|
            sorted_by_canonical(matching_values(index_views(idx@), trim(query@)), sorted)
                && #[trigger] crate::listing::item_views(r@) == merged_search(trim(query@), limit as nat, index_views(idx@), crate::listing::item_views(found@), sorted),
{
    let ghost iv = index_views(idx@);
    let ghost fv = crate::listing::item_views(found@);
    let q = trimmed(query);
    let mut seen: Vec<Vec<char>> = Vec::new();
    let mut out: Vec<AgentSkillSearchItem> = Vec::new();
    let mut i: usize = 0;
    assert(fv.take(0) =~= Seq::<ShView>::empty());
    assert(views_v(seen@) =~= Seq::<Seq<char>>::empty());
    assert(crate::listing::item_views(out@) =~= Seq::<SearchItemView>::empty());
    while i < found.len()
        invariant
            i <= found.len(),
            iv == index_views(idx@),
            fv == crate::listing::item_views(found@),
            views_v(seen@) == api_fold(iv, fv.take(i as int)).seen,
            crate::listing::item_views(out@) == api_fold(iv, fv.take(i as int)).out,
        decreases found.len() - i,
    {
        assert(fv.take(i + 1).drop_last() =~= fv.take(i as int));
        assert(fv.take(i + 1).last() == found@[i as int]@);
        api_merge_step(idx, &mut seen, &mut out, &found[i]);
        i += 1;
    }
    assert(fv.take(found.len() as int) =~= fv);
    // Registry skills that match, in index order.
    let mut matching: Vec<AgentSkillMetadata> = Vec::new();
    let mut j: usize = 0;
    let ql = lower_vec(&q);
    assert(iv.take(0) =~= Seq::<(Seq<char>, MetaView)>::empty());
    assert(crate::listing::item_views(matching@) =~= Seq::<MetaView>::empty());
    while j < idx.len()
        invariant
            j <= idx.len(),
            iv == index_views(idx@),
            q@ == trim(query@),
            ql@ == lower(q@),
            crate::listing::item_views(matching@) == matching_values(iv.take(j as int), q@),
        decreases idx.len() - j,
    {
        assert(iv.take(j + 1).drop_last() =~= iv.take(j as int));
        assert(iv.take(j + 1).last() == iv[j as int]);
        let m = &idx[j].1;
        let keep = q.len() == 0 || contains_vec(&lower_vec(&chars_of(m.canonical_name.as_str())), &ql)
            || contains_vec(&lower_vec(&chars_of(m.description.as_str())), &ql);
        if keep {
            let ghost prev = matching@;
            matching.push(m.copy());
            assert(crate::listing::item_views(matching@) =~= crate::listing::item_views(prev).push(iv[j as int].1));
        }
        j += 1;
    }
    assert(iv.take(idx.len() as int) =~= iv);
    let ghost mv = crate::listing::item_views(matching@);
    let mut keys: Vec<Vec<char>> = Vec::new();
    let mut k: usize = 0;
    while k < matching.len()
        invariant
            k <= matching.len(),
            mv == crate::listing::item_views(matching@),
            keys@.len() == k,
            forall|t: int| 0 <= t < k ==> #[trigger] keys@[t]@ == canonical_keys(mv)[t],
        decreases matching.len() - k,
    {
        keys.push(chars_of(matching[k].canonical_name.as_str()));
        k += 1;
    }
    assert(key_views(keys@) =~= canonical_keys(mv));
    let order = sort_indices(&keys, false);
    let mut sorted: Vec<AgentSkillMetadata> = Vec::new();
    let mut t: usize = 0;
    while t < order.len()
        invariant
            t <= order.len(),
            order@.len() == matching@.len(),
            mv == crate::listing::item_views(matching@),
            forall|u: int| 0 <= u < order@.len() ==> #[trigger] order@[u] < matching@.len(),
            sorted@.len() == t,
            forall|u: int| 0 <= u < t ==> #[trigger] sorted@[u]@ == mv[order@[u] as int],
        decreases order.len() - t,
    {
        sorted.push(matching[order[t]].copy());
        t += 1;
    }
    let ghost sv = crate::listing::item_views(sorted@);
    proof {
        assert(picks(mv, sv, order@));
        assert(sorted_by_canonical(mv, sv));
    }
    if idx.len() > 0 {
        let mut u: usize = 0;
        let ghost st0 = MergeState { seen: views_v(seen@), out: crate::listing::item_views(out@) };
        assert(sv.take(0) =~= Seq::<MetaView>::empty());
        while u < sorted.len()
            invariant
                u <= sorted.len(),
                sv == crate::listing::item_views(sorted@),
                views_v(seen@) == canon_fold(st0, sv.take(u as int)).seen,
                crate::listing::item_views(out@) == canon_fold(st0, sv.take(u as int)).out,
            decreases sorted.len() - u,
        {
            assert(sv.take(u + 1).drop_last() =~= sv.take(u as int));
            assert(sv.take(u + 1).last() == sorted@[u as int]@);
            canon_merge_step(&mut seen, &mut out, &sorted[u]);
            u += 1;
        }
        assert(sv.take(sorted.len() as int) =~= sv);
    }
    let lim = if limit < 1 {
        1
    } else if limit > 100 {
        100
    } else {
        limit
    };
    let ghost full = crate::listing::item_views(out@);
    if out.len() > lim {
        out.truncate(lim);
        assert(crate::listing::item_views(out@) =~= full.take(lim as int));
    }
    assert(crate::listing::item_views(out@) == merged_search(trim(query@), limit as nat, iv, fv, sv));
    out
}

// ---------------------------------------------------------------------------
// Installing
// ---------------------------------------------------------------------------

/// The repository to install from: the given one (trimmed) unless blank,
/// else the default repository.
pub open spec fn install_repo(repo_url: Option<Seq<char>>) -> Seq<char> {
    match repo_url {
        Some(r) => if trim(r).len() > 0 {
            trim(r)
        } else {
            default_repo()
        },
        None => default_repo(),
    }
}

pub fn install_target_repo(repo_url: &Option<String>) -> (r: String)
    ensures
        r@ == install_repo(opt_view(*repo_url)),
{
    match repo_url {
        Some(u) => {
            let t = trimmed(u.as_str());
            if t.len() > 0 {
                string_of(&t)
            } else {
                lit("vercel-labs/agent-skills")
            }
        },
        None => lit("vercel-labs/agent-skills"),
    }
}

/// A skill of the default repository must be in its index, when the index
/// is known.
pub open spec fn install_allowed(repo: Seq<char>, name: Seq<char>, idx: Seq<(Seq<char>, MetaView)>) -> Result<(), Seq<char>> {
    if repo == default_repo() && idx.len() > 0 && index_get(idx, lower(name)) is None {
        Err("unknown agent skill `"@ + name + "` for "@ + default_repo())
    } else {
        Ok(())
    }
}

pub fn check_installable(repo: &str, skill_name: &str, idx: &Vec<(String, AgentSkillMetadata)>) -> (r: Result<(), String>)
    ensures
        match install_allowed(repo@, skill_name@, index_views(idx@)) {
            Ok(()) => r is Ok,
            Err(m) => r matches Err(e) && e@ == m,
        },
{
    if seq_eq(&chars_of(repo), &chars_of("vercel-labs/agent-skills")) && idx.len() > 0 {
        let key = lower_vec(&chars_of(skill_name));
        if index_lookup(idx, &key).is_none() {
            let mut m = chars_of("unknown agent skill `");
            append_str(&mut m, skill_name);
            append_str(&mut m, "` for ");
            append_str(&mut m, "vercel-labs/agent-skills");
            return Err(string_of(&m));
        }
    }
    Ok(())
}

/// The output shown for a failed install: the trimmed error output, or the
/// trimmed standard output when there is none.
pub open spec fn failure_detail(stdout: Seq<char>, stderr: Seq<char>) -> Seq<char> {
    if trim(stderr).len() == 0 {
        trim(stdout)
    } else {
        trim(stderr)
    }
}

/// `Option<i32>` as `{:?}` writes it.
pub open spec fn exit_code_text(code: Option<i32>) -> Seq<char> {
    match code {
        Some(c) => "Some("@ + (if c < 0 {
            seq!['-'] + crate::text::decimal((-c) as nat)
        } else {
            crate::text::decimal(c as nat)
        }) + ")"@,
        None => "None"@,
    }
}

pub open spec fn failure_message(name: Seq<char>, repo: Seq<char>, code: Option<i32>, stdout: Seq<char>, stderr: Seq<char>) -> Seq<char> {
    "failed to install `"@ + name + "` from `"@ + repo + "` (code "@ + exit_code_text(code) + "): "@ + failure_detail(stdout, stderr)
}

/// The error of a failed install.
pub fn install_failure_message(name: &str, repo: &str, code: Option<i32>, stdout: &str, stderr: &str) -> (r: String)
    ensures
        r@ == failure_message(name@, repo@, code, stdout@, stderr@),
{
    let mut m = chars_of("failed to install `");
    append_str(&mut m, name);
    append_str(&mut m, "` from `");
    append_str(&mut m, repo);
    append_str(&mut m, "` (code ");
    match code {
        Some(c) => {
            append_str(&mut m, "Some(");
            if c < 0 {
                m.push('-');
                let n: u64 = if c == i32::MIN {
                    2147483648u64
                } else {
                    (-c) as u64
                };
                crate::text::append_vec(&mut m, &crate::text::decimal_vec(n));
            } else {
                crate::text::append_vec(&mut m, &crate::text::decimal_vec(c as u64));
            }
            append_str(&mut m, ")");
        },
        None => append_str(&mut m, "None"),
    }
    append_str(&mut m, "): ");
    let e = trimmed(stderr);
    if e.len() == 0 {
        crate::text::append_vec(&mut m, &trimmed(stdout));
    } else {
        crate::text::append_vec(&mut m, &e);
    }
    assert(m@ =~= failure_message(name@, repo@, code, stdout@, stderr@));
    string_of(&m)
}

/// The catalog entry remembered for a skill installed from another
/// repository.
pub open spec fn external_entry(repo: Seq<char>, name: Seq<char>) -> crate::skills::SkillView {
    crate::skills::SkillView {
        id: crate::skills::sanitize_id_spec(repo + "-"@ + name),
        title: "External: "@ + humanize_spec(name),
        description: "Installed from "@ + repo,
        install_command: install_command_from(repo, name),
        url: (if crate::text::starts_with(repo, "http"@) {
            repo
        } else {
            "https://github.com/"@ + repo
        }) + "/tree/main/skills/"@ + name,
        source: "external"@,
        tags: seq!["external"@, "custom"@],
        is_custom: true,
    }
}

pub fn external_skill_entry(repo: &str, name: &str) -> (r: crate::skills::SkillCatalogItem)
    ensures
        r@ == external_entry(repo@, name@),
{
    let mut raw_id = chars_of(repo);
    append_str(&mut raw_id, "-");
    append_str(&mut raw_id, name);
    let id = crate::skills::sanitize_skill_id(string_of(&raw_id).as_str());
    let mut title = chars_of("External: ");
    append_str(&mut title, humanize_skill_title(name).as_str());
    let mut description = chars_of("Installed from ");
    append_str(&mut description, repo);
    let mut cmd = chars_of("bunx skills add ");
    append_str(&mut cmd, repo);
    append_str(&mut cmd, " --skill ");
    append_str(&mut cmd, name);
    append_str(&mut cmd, " --agent opencode -y");
    let r = chars_of(repo);
    let mut url = if crate::text::starts_with_vec(&r, &chars_of("http")) {
        r
    } else {
        let mut u = chars_of("https://github.com/");
        append_str(&mut u, repo);
        u
    };
    append_str(&mut url, "/tree/main/skills/");
    append_str(&mut url, name);
    let tags = vec![lit("external"), lit("custom")];
    let item = crate::skills::SkillCatalogItem {
        id,
        title: string_of(&title),
        description: string_of(&description),
        install_command: string_of(&cmd),
        url: string_of(&url),
        source: lit("external"),
        tags,
        is_custom: true,
    };
    assert(crate::text::views(item.tags@) =~= seq!["external"@, "custom"@]);
    item
}

} // verus!
