//! The skill catalog: built-in skills plus the user's custom skills.
//!
//! The custom skills live in a [`SkillCatalog`]; reading it from disk and
//! writing it back is the caller's business.
use vstd::prelude::*;

use crate::order::{appears, key_views, lex_le, ordered, sort_indices};
use crate::text::{
    append_str, append_vec, chars_of, copy_strings, drop_empty, drop_empty_vec, is_alnum,
    is_ascii_alphanumeric, join, lit, lower, lower_vec, map_trim, map_trim_vec, opt_str_view,
    opt_view, seq_eq, split_by, split_vec, string_of, strings_of, trim, trim_matches,
    trim_matches_vec, trim_vec, trimmed, trimmed_nonempty, trimmed_nonempty_str,
    trimmed_nonempty_string, views, views_v, CharClass, starts_with, starts_with_vec,
    last_index_of, last_index_of_vec, slice_vec, copy_vec, is_ascii_ws, is_ascii_whitespace,
    map_capitalize, map_capitalize_vec, title_words, title_words_vec, contains, contains_vec,
    eq_ignore_case, eq_ignore_case_vec,
};

verus! {

// ---------------------------------------------------------------------------
// Types
// ---------------------------------------------------------------------------

#[derive(Debug)]
pub struct SkillCatalogItem {
    pub id: String,
    pub title: String,
    pub description: String,
    pub install_command: String,
    pub url: String,
    pub source: String,
    pub tags: Vec<String>,
    pub is_custom: bool,
}

/// The model of a catalog item: its fields as character sequences.
pub struct SkillView {
    pub id: Seq<char>,
    pub title: Seq<char>,
    pub description: Seq<char>,
    pub install_command: Seq<char>,
    pub url: Seq<char>,
    pub source: Seq<char>,
    pub tags: Seq<Seq<char>>,
    pub is_custom: bool,
}

impl View for SkillCatalogItem {
    type V = SkillView;

    open spec fn view(&self) -> SkillView {
        SkillView {
            id: self.id@,
            title: self.title@,
            description: self.description@,
            install_command: self.install_command@,
            url: self.url@,
            source: self.source@,
            tags: views(self.tags@),
            is_custom: self.is_custom,
        }
    }
}

impl SkillCatalogItem {
    pub fn copy(&self) -> (r: SkillCatalogItem)
        ensures
            r@ == self@,
    {
        SkillCatalogItem {
            id: self.id.clone(),
            title: self.title.clone(),
            description: self.description.clone(),
            install_command: self.install_command.clone(),
            url: self.url.clone(),
            source: self.source.clone(),
            tags: copy_strings(&self.tags),
            is_custom: self.is_custom,
        }
    }
}

pub open spec fn skill_views(v: Seq<SkillCatalogItem>) -> Seq<SkillView> {
    Seq::new(v.len(), |i: int| v[i]@)
}

/// Input for a new custom skill.
#[derive(Debug)]
pub struct NewCustomSkill {
    pub id: Option<String>,
    pub title: String,
    pub description: String,
    pub install_command: String,
    pub url: String,
    pub source: Option<String>,
    pub tags: Option<Vec<String>>,
}

/// One result of a search in the agent-skills registry.
#[derive(Debug)]
pub struct AgentSkillSearchItem {
    pub skill_name: String,
    pub title: String,
    pub description: String,
    pub source: String,
    pub installs: u64,
    pub url: String,
    pub install_command: String,
}

/// What installing an agent skill with the skills CLI reported.
#[derive(Debug)]
pub struct AgentSkillInstallResult {
    pub skill_name: String,
    pub command: String,
    pub stdout: String,
    pub stderr: String,
    pub exit_code: Option<i32>,
}

// ---------------------------------------------------------------------------
// Identifiers and commands
// ---------------------------------------------------------------------------

/// Lower-cased ASCII alphanumerics are kept; every run of other characters
/// becomes one `-`.  The second component tells whether the text ends in
/// such a run.
pub open spec fn dash_runs(s: Seq<char>) -> (Seq<char>, bool)
    decreases s.len(),
{
    if s.len() == 0 {
        (Seq::<char>::empty(), false)
    } else {
        let (out, last_dash) = dash_runs(s.drop_last());
        let c = s.last();
        if is_alnum(c) {
            (out.push(c), false)
        } else if !last_dash {
            (out.push('-'), true)
        } else {
            (out, true)
        }
    }
}

/// The catalog id derived from free text: trimmed, lower-cased, runs of
/// non-alphanumerics collapsed to `-`, no leading or trailing `-`.
pub open spec fn sanitize_id_spec(raw: Seq<char>) -> Seq<char> {
    trim_matches(dash_runs(lower(trim(raw))).0, '-')
}

pub fn sanitize_skill_id_vec(raw: &Vec<char>) -> (r: Vec<char>)
    ensures
        r@ == sanitize_id_spec(raw@),
{
    let t = trim_vec(raw);
    let l = lower_vec(&t);
    let mut out: Vec<char> = Vec::new();
    let mut last_dash = false;
    let mut i: usize = 0;
    assert(l@.take(0) =~= Seq::<char>::empty());
    while i < l.len()
        invariant
            i <= l.len(),
            (out@, last_dash) == dash_runs(l@.take(i as int)),
        decreases l.len() - i,
    {
        let ch = l[i];
        assert(l@.take(i + 1).drop_last() =~= l@.take(i as int));
        if is_ascii_alphanumeric(ch) {
            out.push(ch);
            last_dash = false;
        } else if !last_dash {
            out.push('-');
            last_dash = true;
        }
        i += 1;
    }
    assert(l@.take(l.len() as int) =~= l@);
    trim_matches_vec(&out, '-')
}

pub fn sanitize_skill_id(raw: &str) -> (r: String)
    ensures
        r@ == sanitize_id_spec(raw@),
{
    let v = chars_of(raw);
    let s = sanitize_skill_id_vec(&v);
    string_of(&s)
}

/// The project-scoped install command for a skill of the agent-skills repo.
pub open spec fn install_command_for(name: Seq<char>) -> Seq<char> {
    "bunx skills add vercel-labs/agent-skills --skill "@ + name + " --agent opencode -y"@
}

pub fn project_scope_install_command_vec(skill_name: &Vec<char>) -> (r: Vec<char>)
    ensures
        r@ == install_command_for(skill_name@),
{
    let mut out: Vec<char> = Vec::new();
    append_str(&mut out, "bunx skills add vercel-labs/agent-skills --skill ");
    append_vec(&mut out, skill_name);
    append_str(&mut out, " --agent opencode -y");
    out
}

pub fn project_scope_install_command(skill_name: &str) -> (r: String)
    ensures
        r@ == install_command_for(skill_name@),
{
    let v = chars_of(skill_name);
    let c = project_scope_install_command_vec(&v);
    string_of(&c)
}

/// The arguments of `bunx` that install a skill from `repo` into the project.
pub fn build_project_scope_install_args(skill_name: &str, repo: &str) -> (r: Vec<String>)
    ensures
        views(r@) == seq![
            "skills"@,
            "add"@,
            repo@,
            "--skill"@,
            skill_name@,
            "--agent"@,
            "opencode"@,
            "-y"@,
        ],
{
    let r = vec![
        lit("skills"),
        lit("add"),
        lit(repo),
        lit("--skill"),
        lit(skill_name),
        lit("--agent"),
        lit("opencode"),
        lit("-y"),
    ];
    assert(views(r@) =~= seq![
        "skills"@,
        "add"@,
        repo@,
        "--skill"@,
        skill_name@,
        "--agent"@,
        "opencode"@,
        "-y"@,
    ]);
    r
}

/// The registry page of a skill of the agent-skills repo.
pub open spec fn agent_skill_url_spec(name: Seq<char>) -> Seq<char> {
    "https://skills.sh/vercel-labs/agent-skills/"@ + name
}

pub fn agent_skill_url(skill_name: &str) -> (r: String)
    ensures
        r@ == agent_skill_url_spec(skill_name@),
{
    let mut out: Vec<char> = Vec::new();
    append_str(&mut out, "https://skills.sh/vercel-labs/agent-skills/");
    append_str(&mut out, skill_name);
    string_of(&out)
}

// ---------------------------------------------------------------------------
// Built-in skills
// ---------------------------------------------------------------------------

pub open spec fn builtin_skill_views() -> Seq<SkillView> {
    seq![
        SkillView {
            id: "vercel-react-best-practices"@,
            title: "Vercel React Best Practices"@,
            description: "React and Next.js optimization/playbook from Vercel."@,
            install_command: install_command_for("vercel-react-best-practices"@),
            url: "https://skills.sh/vercel-labs/agent-skills/vercel-react-best-practices"@,
            source: "vercel"@,
            tags: seq!["react"@, "nextjs"@, "vercel"@],
            is_custom: false,
        },
        SkillView {
            id: "find-skills"@,
            title: "Find Skills"@,
            description: "Search and install skills with bunx skills find/add."@,
            install_command: "bunx skills find <query>"@,
            url: "https://skills.sh/"@,
            source: "builtin"@,
            tags: seq!["catalog"@, "search"@],
            is_custom: false,
        },
    ]
}

pub fn built_in_skills() -> (r: Vec<SkillCatalogItem>)
    ensures
        skill_views(r@) == builtin_skill_views(),
{
    let t1 = vec![lit("react"), lit("nextjs"), lit("vercel")];
    assert(views(t1@) =~= seq!["react"@, "nextjs"@, "vercel"@]);
    let a = SkillCatalogItem {
        id: lit("vercel-react-best-practices"),
        title: lit("Vercel React Best Practices"),
        description: lit("React and Next.js optimization/playbook from Vercel."),
        install_command: project_scope_install_command("vercel-react-best-practices"),
        url: lit("https://skills.sh/vercel-labs/agent-skills/vercel-react-best-practices"),
        source: lit("vercel"),
        tags: t1,
        is_custom: false,
    };
    let t2 = vec![lit("catalog"), lit("search")];
    assert(views(t2@) =~= seq!["catalog"@, "search"@]);
    let b = SkillCatalogItem {
        id: lit("find-skills"),
        title: lit("Find Skills"),
        description: lit("Search and install skills with bunx skills find/add."),
        install_command: lit("bunx skills find <query>"),
        url: lit("https://skills.sh/"),
        source: lit("builtin"),
        tags: t2,
        is_custom: false,
    };
    let r = vec![a, b];
    assert(skill_views(r@) =~= builtin_skill_views());
    r
}

// ---------------------------------------------------------------------------
// The catalog
// ---------------------------------------------------------------------------

/// Entry `i` of `all` is the last one there with its id.
pub open spec fn last_of_id(all: Seq<SkillView>, i: int) -> bool {
    &&& 0 <= i < all.len()
    &&& forall|j: int| i < j < all.len() ==> #[trigger] all[j].id != all[i].id
}

/// `x` is the last entry of `all` with its id.
pub open spec fn from_last(all: Seq<SkillView>, x: SkillView) -> bool {
    exists|i: int| #[trigger] last_of_id(all, i) && x == all[i]
}

/// `x` is an element of `out`.
pub open spec fn listed(out: Seq<SkillView>, x: SkillView) -> bool {
    exists|k: int| 0 <= k < out.len() && #[trigger] out[k] == x
}

/// `out` is the catalog listing of the entries `all`: for each id, the
/// last entry with that id, once, ordered by lower-cased title.
pub open spec fn catalog_listing(all: Seq<SkillView>, out: Seq<SkillView>) -> bool {
    &&& forall|k: int| 0 <= k < out.len() ==> #[trigger] from_last(all, out[k])
    &&& forall|i: int| #[trigger] last_of_id(all, i) ==> listed(out, all[i])
    &&& forall|a: int, b: int| 0 <= a < b < out.len() ==> #[trigger] out[a].id != #[trigger] out[b].id
    &&& forall|a: int, b: int|
        0 <= a < b < out.len() ==> lex_le(lower(#[trigger] out[a].title), lower(#[trigger] out[b].title))
}

/// The custom skills of the user, as persisted between runs.
#[derive(Debug)]
pub struct SkillCatalog {
    custom: Vec<SkillCatalogItem>,
}

impl View for SkillCatalog {
    type V = Seq<SkillView>;

    closed spec fn view(&self) -> Seq<SkillView> {
        skill_views(self.custom@)
    }
}

/// A custom entry as the store keeps it.
pub open spec fn stored(s: SkillView) -> SkillView {
    SkillView { is_custom: true, ..s }
}

/// The custom entries after inserting `skill`, replacing any entry with its id.
pub open spec fn upsert_spec(custom: Seq<SkillView>, skill: SkillView) -> Seq<SkillView> {
    custom.filter(|x: SkillView| x.id != skill.id).push(stored(skill))
}

/// The custom entries without those whose id is `id`.
pub open spec fn remove_spec(custom: Seq<SkillView>, id: Seq<char>) -> Seq<SkillView> {
    custom.filter(|x: SkillView| x.id != id)
}

impl SkillCatalog {
    /// A catalog with no custom skills.
    pub fn new() -> (r: SkillCatalog)
        ensures
            r@ == Seq::<SkillView>::empty(),
    {
        let r = SkillCatalog { custom: Vec::new() };
        assert(r@ =~= Seq::<SkillView>::empty());
        r
    }

    /// A catalog holding the persisted custom skills; each is marked custom.
    pub fn from_saved(items: Vec<SkillCatalogItem>) -> (r: SkillCatalog)
        ensures
            r@ == Seq::new(items@.len(), |i: int| stored(items@[i]@)),
    {
        let mut custom: Vec<SkillCatalogItem> = Vec::new();
        let mut i: usize = 0;
        while i < items.len()
            invariant
                i <= items.len(),
                custom@.len() == i,
                forall|k: int| 0 <= k < i ==> #[trigger] custom@[k]@ == stored(items@[k]@),
            decreases items.len() - i,
        {
            let mut it = items[i].copy();
            it.is_custom = true;
            custom.push(it);
            i += 1;
        }
        let r = SkillCatalog { custom };
        assert(r@ =~= Seq::new(items@.len(), |i: int| stored(items@[i]@)));
        r
    }

    /// The custom skills, as they are to be persisted.
    pub fn custom_skills(&self) -> (r: &Vec<SkillCatalogItem>)
        ensures
            skill_views(r@) == self@,
    {
        &self.custom
    }

    /// Built-in entries followed by the custom ones.
    pub open spec fn all_entries(&self) -> Seq<SkillView> {
        builtin_skill_views() + self@
    }

    fn entries(&self) -> (r: Vec<SkillCatalogItem>)
        ensures
            skill_views(r@) == self.all_entries(),
    {
        let mut all = built_in_skills();
        let mut i: usize = 0;
        proof {
            assert(skill_views(all@) =~= builtin_skill_views() + self@.take(0));
        }
        while i < self.custom.len()
            invariant
                i <= self.custom.len(),
                all@.len() == builtin_skill_views().len() + i,
                skill_views(all@) =~= builtin_skill_views() + self@.take(i as int),
            decreases self.custom.len() - i,
        {
            let c = self.custom[i].copy();
            let ghost prev = all@;
            all.push(c);
            proof {
                let target = builtin_skill_views() + self@.take(i + 1);
                assert forall|k: int| 0 <= k < all@.len() implies #[trigger] skill_views(all@)[k] == target[k] by {
                    if k < all@.len() - 1 {
                        assert(all@[k] == prev[k]);
                        assert(skill_views(prev)[k] == (builtin_skill_views() + self@.take(i as int))[k]);
                    } else {
                        assert(self@[i as int] == self.custom@[i as int]@);
                    }
                }
                assert(skill_views(all@) =~= target);
            }
            i += 1;
        }
        assert(self@.take(self.custom.len() as int) =~= self@);
        all
    }

    /// Every skill of the catalog: for each id the last entry with it
    /// (custom entries override built-in ones), ordered by lower-cased title.
    pub fn list_all_skills(&self) -> (r: Vec<SkillCatalogItem>)
        ensures
            catalog_listing(self.all_entries(), skill_views(r@)),
    {
        let all = self.entries();
        let ghost av = skill_views(all@);
        // positions of the entries that are the last with their id
        let mut kept: Vec<usize> = Vec::new();
        let mut i: usize = 0;
        while i < all.len()
            invariant
                i <= all.len(),
                av == skill_views(all@),
                forall|k: int| 0 <= k < kept@.len() ==> #[trigger] kept@[k] < i && last_of_id(av, kept@[k] as int),
                forall|a: int, b: int| 0 <= a < b < kept@.len() ==> #[trigger] kept@[a] < #[trigger] kept@[b],
                forall|j: int| 0 <= j < i && #[trigger] last_of_id(av, j) ==> appears(kept@, j),
            decreases all.len() - i,
        {
            let mut j = i + 1;
            let mut last = true;
            while j < all.len()
                invariant
                    i < j <= all.len(),
                    av == skill_views(all@),
                    last == forall|m: int| i < m < j ==> #[trigger] av[m].id != av[i as int].id,
                decreases all.len() - j,
            {
                assert(av[j as int].id == all@[j as int].id@);
                assert(av[i as int].id == all@[i as int].id@);
                if all[j].id == all[i].id {
                    last = false;
                }
                j += 1;
            }
            let ghost prev = kept@;
            if last {
                kept.push(i);
                assert(kept@[kept@.len() - 1] == i);
            }
            proof {
                assert forall|jj: int| 0 <= jj < i + 1 && #[trigger] last_of_id(av, jj) implies appears(kept@, jj) by {
                    if jj < i {
                        assert(appears(prev, jj));
                        let w = choose|w: int| 0 <= w < prev.len() && #[trigger] prev[w] == jj;
                        assert(kept@[w] == jj);
                    } else {
                        assert(last);
                        assert(kept@[kept@.len() - 1] == jj);
                    }
                }
            }
            i += 1;
        }
        // sort the kept entries by lower-cased title
        let mut keys: Vec<Vec<char>> = Vec::new();
        let mut k: usize = 0;
        while k < kept.len()
            invariant
                k <= kept.len(),
                av == skill_views(all@),
                forall|m: int| 0 <= m < kept@.len() ==> #[trigger] kept@[m] < all@.len(),
                keys@.len() == k,
                forall|m: int| 0 <= m < k ==> #[trigger] keys@[m]@ == lower(av[kept@[m] as int].title),
            decreases kept.len() - k,
        {
            let t = chars_of(all[kept[k]].title.as_str());
            let l = lower_vec(&t);
            keys.push(l);
            k += 1;
        }
        let idx = sort_indices(&keys, false);
        let mut out: Vec<SkillCatalogItem> = Vec::new();
        let mut m: usize = 0;
        while m < idx.len()
            invariant
                m <= idx.len(),
                idx@.len() == kept@.len(),
                av == skill_views(all@),
                forall|q: int| 0 <= q < kept@.len() ==> #[trigger] kept@[q] < all@.len(),
                forall|q: int| 0 <= q < idx@.len() ==> #[trigger] idx@[q] < kept@.len(),
                out@.len() == m,
                forall|q: int| 0 <= q < m ==> #[trigger] out@[q]@ == av[kept@[idx@[q] as int] as int],
            decreases idx.len() - m,
        {
            let c = all[kept[idx[m]]].copy();
            out.push(c);
            m += 1;
        }
        proof {
            let ov = skill_views(out@);
            let kv = key_views(keys@);
            assert forall|q: int| 0 <= q < ov.len() implies #[trigger] from_last(av, ov[q]) by {
                assert(ov[q] == av[kept@[idx@[q] as int] as int]);
                assert(last_of_id(av, kept@[idx@[q] as int] as int));
            }
            assert forall|i: int| #[trigger] last_of_id(av, i) implies listed(ov, av[i]) by {
                assert(appears(kept@, i));
                let k = choose|k: int| 0 <= k < kept@.len() && #[trigger] kept@[k] == i;
                assert(appears(idx@, k));
                let q = choose|q: int| 0 <= q < idx@.len() && #[trigger] idx@[q] == k;
                assert(ov[q] == av[i]);
            }
            assert forall|a: int, b: int| 0 <= a < b < ov.len() implies #[trigger] ov[a].id != #[trigger] ov[b].id by {
                let ka = idx@[a] as int;
                let kb = idx@[b] as int;
                assert(ka != kb);
                let ia = kept@[ka] as int;
                let ib = kept@[kb] as int;
                if ka < kb {
                    assert(ia < ib);
                    assert(last_of_id(av, ia));
                    assert(av[ib].id != av[ia].id);
                } else {
                    assert(ib < ia);
                    assert(last_of_id(av, ib));
                    assert(av[ia].id != av[ib].id);
                }
            }
            assert forall|a: int, b: int| 0 <= a < b < ov.len() implies lex_le(lower(#[trigger] ov[a].title), lower(#[trigger] ov[b].title)) by {
                assert(ordered(kv[idx@[a] as int], kv[idx@[b] as int], false));
                assert(kv[idx@[a] as int] == lower(av[kept@[idx@[a] as int] as int].title));
                assert(kv[idx@[b] as int] == lower(av[kept@[idx@[b] as int] as int].title));
            }
        }
        out
    }
}


// ---------------------------------------------------------------------------
// Editing the custom skills
// ---------------------------------------------------------------------------

pub proof fn lemma_filter_full<A>(s: Seq<A>, pred: spec_fn(A) -> bool)
    ensures
        s.filter(pred).len() == s.len() <==> forall|i: int| 0 <= i < s.len() ==> pred(#[trigger] s[i]),
        (forall|i: int| 0 <= i < s.len() ==> pred(#[trigger] s[i])) ==> s.filter(pred) == s,
    decreases s.len(),
{
    reveal(Seq::filter);
    if s.len() > 0 {
        lemma_filter_full(s.drop_last(), pred);
        s.drop_last().lemma_filter_len(pred);
        if forall|i: int| 0 <= i < s.len() ==> pred(#[trigger] s[i]) {
            assert forall|i: int| 0 <= i < s.drop_last().len() implies pred(#[trigger] s.drop_last()[i]) by {
                assert(s.drop_last()[i] == s[i]);
            }
            assert(s.drop_last().push(s.last()) =~= s);
        }
        if s.filter(pred).len() == s.len() {
            assert(pred(s.last()));
            assert forall|i: int| 0 <= i < s.len() implies pred(#[trigger] s[i]) by {
                if i < s.len() - 1 {
                    assert(s.drop_last()[i] == s[i]);
                }
            }
        }
    }
}

/// The entries of `items` whose id is not `id`, in order.
fn without_id(items: &Vec<SkillCatalogItem>, id: &Vec<char>) -> (r: Vec<SkillCatalogItem>)
    ensures
        skill_views(r@) == skill_views(items@).filter(|x: SkillView| x.id != id@),
{
    let ghost pred = |x: SkillView| x.id != id@;
    let mut out: Vec<SkillCatalogItem> = Vec::new();
    let mut i: usize = 0;
    assert(skill_views(items@).take(0) =~= Seq::<SkillView>::empty());
    reveal_with_fuel(Seq::filter, 1);
    while i < items.len()
        invariant
            i <= items.len(),
            pred == (|x: SkillView| x.id != id@),
            skill_views(out@) =~= skill_views(items@).take(i as int).filter(pred),
        decreases items.len() - i,
    {
        reveal_with_fuel(Seq::filter, 1);
        let ghost prev = out@;
        assert(skill_views(items@).take(i + 1).drop_last() =~= skill_views(items@).take(i as int));
        assert(skill_views(items@).take(i + 1).last() == items@[i as int]@);
        let iv = chars_of(items[i].id.as_str());
        if !seq_eq(&iv, id) {
            let c = items[i].copy();
            out.push(c);
            proof {
                assert(skill_views(out@) =~= skill_views(prev).push(items@[i as int]@));
            }
        }
        i += 1;
    }
    assert(skill_views(items@).take(items.len() as int) =~= skill_views(items@));
    out
}

/// The model of a new-skill request.
pub struct NewSkillView {
    pub id: Option<Seq<char>>,
    pub title: Seq<char>,
    pub description: Seq<char>,
    pub install_command: Seq<char>,
    pub url: Seq<char>,
    pub source: Option<Seq<char>>,
    pub tags: Option<Seq<Seq<char>>>,
}

impl View for NewCustomSkill {
    type V = NewSkillView;

    open spec fn view(&self) -> NewSkillView {
        NewSkillView {
            id: opt_view(self.id),
            title: self.title@,
            description: self.description@,
            install_command: self.install_command@,
            url: self.url@,
            source: opt_view(self.source),
            tags: match self.tags {
                Some(t) => Some(views(t@)),
                None => None,
            },
        }
    }
}

/// The id of a new custom skill: the sanitized explicit id when that is not
/// empty, else the sanitized title.
pub open spec fn new_skill_id(id: Option<Seq<char>>, title: Seq<char>) -> Seq<char> {
    match id {
        Some(x) => if sanitize_id_spec(x).len() > 0 {
            sanitize_id_spec(x)
        } else {
            sanitize_id_spec(title)
        },
        None => sanitize_id_spec(title),
    }
}

/// What adding a custom skill yields: the stored skill, or the error message.
pub open spec fn add_result(input: NewSkillView) -> Result<SkillView, Seq<char>> {
    if trim(input.title).len() == 0 {
        Err("title is required"@)
    } else if trim(input.install_command).len() == 0 {
        Err("install_command is required"@)
    } else if trim(input.url).len() == 0 {
        Err("url is required"@)
    } else if new_skill_id(input.id, input.title).len() == 0 {
        Err("could not derive a valid skill id"@)
    } else {
        Ok(
            SkillView {
                id: new_skill_id(input.id, input.title),
                title: trim(input.title),
                description: trim(input.description),
                install_command: trim(input.install_command),
                url: trim(input.url),
                source: match trimmed_nonempty(input.source) {
                    Some(s) => s,
                    None => "custom"@,
                },
                tags: match input.tags {
                    Some(t) => drop_empty(map_trim(t)),
                    None => Seq::<Seq<char>>::empty(),
                },
                is_custom: true,
            },
        )
    }
}

/// The segments of a Context7 library id.
pub open spec fn context7_segments(normalized: Seq<char>) -> Seq<Seq<char>> {
    drop_empty(split_by(normalized, (seq!['/'], false, false)))
}

/// What importing a Context7 library yields.
pub open spec fn context7_result(library_id: Seq<char>, title: Option<Seq<char>>) -> Result<SkillView, Seq<char>> {
    let normalized = trim(library_id);
    let segments = context7_segments(normalized);
    if !(normalized.len() > 0 && normalized[0] == '/') {
        Err("context7 library id must start with '/'"@)
    } else if segments.len() < 2 {
        Err("context7 library id must be in /org/project format"@)
    } else {
        Ok(
            SkillView {
                id: "context7-"@ + sanitize_id_spec(join(segments, "-"@)),
                title: match trimmed_nonempty(title) {
                    Some(t) => t,
                    None => "Context7: "@ + segments[0] + "/"@ + segments[1],
                },
                description: "Query Context7 docs for `"@ + normalized + "`."@,
                install_command: "Use MCP Context7 tools resolve-library-id then query-docs (for example mcp.context7.resolve-library-id and mcp.context7.query-docs) with libraryId='"@
                    + normalized + "'"@,
                url: "https://context7.com"@ + normalized,
                source: "context7"@,
                tags: seq!["docs"@, "context7"@],
                is_custom: true,
            },
        )
    }
}

impl SkillCatalog {
    /// Stores `skill` as a custom skill, replacing any custom skill with its id.
    pub fn upsert_custom_skill(&mut self, skill: SkillCatalogItem) -> (r: Result<(), String>)
        ensures
            r is Ok,
            final(self)@ == upsert_spec(old(self)@, skill@),
    {
        let id = chars_of(skill.id.as_str());
        let mut kept = without_id(&self.custom, &id);
        let mut item = skill;
        item.is_custom = true;
        kept.push(item);
        self.custom = kept;
        assert(self@ =~= upsert_spec(old(self)@, skill@));
        Ok(())
    }

    /// Removes the custom skill with the trimmed id; tells whether one was removed.
    pub fn remove_custom_skill(&mut self, skill_id: &str) -> (r: Result<bool, String>)
        ensures
            r == Ok::<bool, String>(
                trim(skill_id@).len() > 0 && exists|k: int| 0 <= k < old(self)@.len() && #[trigger] old(self)@[k].id == trim(skill_id@),
            ),
            final(self)@ == (if trim(skill_id@).len() == 0 {
                old(self)@
            } else {
                remove_spec(old(self)@, trim(skill_id@))
            }),
    {
        let target = trimmed(skill_id);
        let ghost pred = |x: SkillView| x.id != target@;
        proof {
            lemma_filter_full(self@, pred);
        }
        if target.len() == 0 {
            return Ok(false);
        }
        let kept = without_id(&self.custom, &target);
        if kept.len() == self.custom.len() {
            proof {
                assert forall|k: int| 0 <= k < old(self)@.len() implies #[trigger] old(self)@[k].id != trim(skill_id@) by {
                    assert(pred(self@[k]));
                }
            }
            return Ok(false);
        }
        proof {
            let k = choose|k: int| 0 <= k < self@.len() && !pred(#[trigger] self@[k]);
            assert(self@[k].id == trim(skill_id@));
        }
        self.custom = kept;
        Ok(true)
    }

    /// Validates and stores a new custom skill.
    pub fn add_custom_skill(&mut self, input: NewCustomSkill) -> (r: Result<SkillCatalogItem, String>)
        ensures
            match add_result(input@) {
                Ok(v) => r matches Ok(item) && item@ == v && final(self)@ == upsert_spec(old(self)@, v),
                Err(e) => r matches Err(msg) && msg@ == e && final(self)@ == old(self)@,
            },
    {
        let title = trimmed(input.title.as_str());
        if title.len() == 0 {
            return Err(lit("title is required"));
        }
        let install = trimmed(input.install_command.as_str());
        if install.len() == 0 {
            return Err(lit("install_command is required"));
        }
        let url = trimmed(input.url.as_str());
        if url.len() == 0 {
            return Err(lit("url is required"));
        }
        let from_title = sanitize_skill_id_vec(&chars_of(input.title.as_str()));
        let id = match &input.id {
            Some(raw) => {
                let c = sanitize_skill_id_vec(&chars_of(raw.as_str()));
                if c.len() > 0 {
                    c
                } else {
                    from_title
                }
            },
            None => from_title,
        };
        if id.len() == 0 {
            return Err(lit("could not derive a valid skill id"));
        }
        let source = match trimmed_nonempty_string(&input.source) {
            Some(s) => s,
            None => chars_of("custom"),
        };
        let tags: Vec<Vec<char>> = match &input.tags {
            Some(t) => {
                let mut raw: Vec<Vec<char>> = Vec::new();
                let mut i: usize = 0;
                while i < t.len()
                    invariant
                        i <= t.len(),
                        raw@.len() == i,
                        forall|k: int| 0 <= k < i ==> #[trigger] raw@[k]@ == t@[k]@,
                    decreases t.len() - i,
                {
                    raw.push(chars_of(t[i].as_str()));
                    i += 1;
                }
                assert(views_v(raw@) =~= views(t@));
                let tr = map_trim_vec(&raw);
                drop_empty_vec(&tr)
            },
            None => {
                let e: Vec<Vec<char>> = Vec::new();
                assert(views_v(e@) =~= Seq::<Seq<char>>::empty());
                e
            },
        };
        let tag_strings = strings_of(&tags);
        assert(views(tag_strings@) =~= views_v(tags@));
        let desc = trimmed(input.description.as_str());
        let skill = SkillCatalogItem {
            id: string_of(&id),
            title: string_of(&title),
            description: string_of(&desc),
            install_command: string_of(&install),
            url: string_of(&url),
            source: string_of(&source),
            tags: tag_strings,
            is_custom: true,
        };
        let stored_copy = skill.copy();
        let _ = self.upsert_custom_skill(stored_copy);
        Ok(skill)
    }

    /// Adds a Context7 documentation library (`/org/project`) as a custom skill.
    pub fn import_context7_skill(&mut self, library_id: &str, title: Option<&str>) -> (r: Result<SkillCatalogItem, String>)
        ensures
            match context7_result(library_id@, opt_str_view(title)) {
                Ok(v) => r matches Ok(item) && item@ == v && final(self)@ == upsert_spec(old(self)@, v),
                Err(e) => r matches Err(msg) && msg@ == e && final(self)@ == old(self)@,
            },
    {
        let normalized = trimmed(library_id);
        if !(normalized.len() > 0 && normalized[0] == '/') {
            return Err(lit("context7 library id must start with '/'"));
        }
        let slash = CharClass::single('/');
        let pieces = split_vec(&normalized, &slash);
        let segments = drop_empty_vec(&pieces);
        if segments.len() < 2 {
            return Err(lit("context7 library id must be in /org/project format"));
        }
        let dash = chars_of("-");
        let joined = crate::text::join_vec(&segments, &dash);
        let mut id = chars_of("context7-");
        let sid = sanitize_skill_id_vec(&joined);
        append_vec(&mut id, &sid);
        let title_v = match trimmed_nonempty_str(title) {
            Some(t) => t,
            None => {
                let mut f = chars_of("Context7: ");
                append_vec(&mut f, &segments[0]);
                append_str(&mut f, "/");
                append_vec(&mut f, &segments[1]);
                f
            },
        };
        let mut desc = chars_of("Query Context7 docs for `");
        append_vec(&mut desc, &normalized);
        append_str(&mut desc, "`.");
        let mut cmd = chars_of(
            "Use MCP Context7 tools resolve-library-id then query-docs (for example mcp.context7.resolve-library-id and mcp.context7.query-docs) with libraryId='",
        );
        append_vec(&mut cmd, &normalized);
        append_str(&mut cmd, "'");
        let mut url = chars_of("https://context7.com");
        append_vec(&mut url, &normalized);
        let tags = vec![lit("docs"), lit("context7")];
        assert(views(tags@) =~= seq!["docs"@, "context7"@]);
        let skill = SkillCatalogItem {
            id: string_of(&id),
            title: string_of(&title_v),
            description: string_of(&desc),
            install_command: string_of(&cmd),
            url: string_of(&url),
            source: lit("context7"),
            tags,
            is_custom: true,
        };
        let stored_copy = skill.copy();
        let _ = self.upsert_custom_skill(stored_copy);
        Ok(skill)
    }
}


// ---------------------------------------------------------------------------
// Agent-skills registry names
// ---------------------------------------------------------------------------

/// `s` without the prefix `p`, when it starts with it.
pub open spec fn after_prefix(s: Seq<char>, p: Seq<char>) -> Seq<char> {
    if starts_with(s, p) {
        s.skip(p.len() as int)
    } else {
        s
    }
}

/// The part of `s` after the last `c`, or `s` when it holds no `c`.
pub open spec fn after_last(s: Seq<char>, c: char) -> Seq<char> {
    if last_index_of(s, c) >= 0 {
        s.skip(last_index_of(s, c) + 1)
    } else {
        s
    }
}

pub open spec fn skill_name_char(c: char) -> bool {
    is_alnum(c) || c == '-' || c == '_' || c == '.' || c == ':'
}

/// The registry name a user's input denotes: a bare name, `repo@name`, a
/// path or a skills.sh URL are accepted; the result is lower-cased.
pub open spec fn normalize_agent_skill_name_spec(raw: Seq<char>) -> Result<Seq<char>, Seq<char>> {
    let t = trim(raw);
    let c = after_last(after_last(after_prefix(t, "https://skills.sh/"@), '@'), '/');
    let cand = lower(trim_matches(trim(c), '/'));
    if t.len() == 0 {
        Err("skill_name is required"@)
    } else if cand.len() == 0 {
        Err("invalid agent skill name"@)
    } else if exists|i: int| 0 <= i < cand.len() && is_ascii_ws(#[trigger] cand[i]) {
        Err("agent skill name must not contain spaces"@)
    } else if exists|i: int| 0 <= i < cand.len() && !skill_name_char(#[trigger] cand[i]) {
        Err("agent skill name contains unsupported characters"@)
    } else {
        Ok(cand)
    }
}

fn after_last_vec(v: &Vec<char>, c: char) -> (r: Vec<char>)
    ensures
        r@ == after_last(v@, c),
{
    match last_index_of_vec(v, c) {
        Some(i) => {
            proof {
                crate::text::lemma_last_index_before(v@, c, v@.len() as int);
            }
            assert(i < v.len());
            slice_vec(v, i + 1, v.len())
        },
        None => copy_vec(v),
    }
}

pub fn normalize_agent_skill_name(raw: &str) -> (r: Result<String, String>)
    ensures
        match normalize_agent_skill_name_spec(raw@) {
            Ok(n) => r matches Ok(s) && s@ == n,
            Err(e) => r matches Err(s) && s@ == e,
        },
{
    let t = trimmed(raw);
    if t.len() == 0 {
        return Err(lit("skill_name is required"));
    }
    let prefix = chars_of("https://skills.sh/");
    let c1 = if starts_with_vec(&t, &prefix) { slice_vec(&t, prefix.len(), t.len()) } else { copy_vec(&t) };
    let c2 = after_last_vec(&c1, '@');
    let c3 = after_last_vec(&c2, '/');
    let c4 = trim_vec(&c3);
    let c5 = trim_matches_vec(&c4, '/');
    let cand = lower_vec(&c5);
    if cand.len() == 0 {
        return Err(lit("invalid agent skill name"));
    }
    let ghost cspec = lower(trim_matches(trim(after_last(after_last(after_prefix(t@, "https://skills.sh/"@), '@'), '/')), '/'));
    assert(cand@ == cspec);
    let mut i: usize = 0;
    while i < cand.len()
        invariant
            i <= cand.len(),
            t@ == trim(raw@),
            t@.len() > 0,
            cand@ == cspec,
            cspec == lower(trim_matches(trim(after_last(after_last(after_prefix(t@, "https://skills.sh/"@), '@'), '/')), '/')),
            forall|j: int| 0 <= j < i ==> !is_ascii_ws(#[trigger] cand@[j]),
        decreases cand.len() - i,
    {
        if is_ascii_whitespace(cand[i]) {
            return Err(lit("agent skill name must not contain spaces"));
        }
        i += 1;
    }
    let mut i: usize = 0;
    while i < cand.len()
        invariant
            i <= cand.len(),
            t@ == trim(raw@),
            t@.len() > 0,
            cand@ == cspec,
            cspec == lower(trim_matches(trim(after_last(after_last(after_prefix(t@, "https://skills.sh/"@), '@'), '/')), '/')),
            forall|j: int| 0 <= j < cand@.len() ==> !is_ascii_ws(#[trigger] cand@[j]),
            forall|j: int| 0 <= j < i ==> skill_name_char(#[trigger] cand@[j]),
        decreases cand.len() - i,
    {
        let ch = cand[i];
        if !(is_ascii_alphanumeric(ch) || ch == '-' || ch == '_' || ch == '.' || ch == ':') {
            return Err(lit("agent skill name contains unsupported characters"));
        }
        i += 1;
    }
    Ok(string_of(&cand))
}

/// The separators of registry-name words.
pub open spec fn name_word_seps() -> (Seq<char>, bool, bool) {
    (seq!['-', '_', '.', ':'], false, false)
}

/// A display title for a registry name: its words capitalized, or the name
/// itself when it has no words.
pub open spec fn humanize_spec(name: Seq<char>) -> Seq<char> {
    let words = map_capitalize(drop_empty(split_by(name, name_word_seps())));
    if words.len() == 0 {
        name
    } else {
        join(words, " "@)
    }
}

pub fn humanize_skill_title(skill_name: &str) -> (r: String)
    ensures
        r@ == humanize_spec(skill_name@),
{
    let v = chars_of(skill_name);
    let seps = CharClass::of(vec!['-', '_', '.', ':']);
    assert(seps@.0 =~= seq!['-', '_', '.', ':']);
    let parts = split_vec(&v, &seps);
    let words = drop_empty_vec(&parts);
    let caps = map_capitalize_vec(&words);
    if caps.len() == 0 {
        string_of(&v)
    } else {
        let sp = chars_of(" ");
        let j = crate::text::join_vec(&caps, &sp);
        string_of(&j)
    }
}

/// What importing a skill of the agent-skills repo yields.
pub open spec fn vercel_result(name: Seq<char>) -> Result<SkillView, Seq<char>> {
    match normalize_agent_skill_name_spec(name) {
        Err(e) => Err(e),
        Ok(slug) => {
            let t = title_words(slug, (seq!['-'], false, false));
            Ok(
                SkillView {
                    id: sanitize_id_spec(slug),
                    title: if t.len() == 0 { "Vercel Agent Skill"@ } else { "Vercel: "@ + t },
                    description: "Install a skill from vercel-labs/agent-skills."@,
                    install_command: install_command_for(slug),
                    url: agent_skill_url_spec(slug),
                    source: "vercel"@,
                    tags: seq!["vercel"@, "agent-skills"@],
                    is_custom: true,
                },
            )
        },
    }
}

// ---------------------------------------------------------------------------
// Search
// ---------------------------------------------------------------------------

/// Some field of `x` (id, title, description or a tag), lower-cased, holds `t`.
pub open spec fn field_has(x: SkillView, t: Seq<char>) -> bool {
    ||| contains(lower(x.id), t)
    ||| contains(lower(x.title), t)
    ||| contains(lower(x.description), t)
    ||| exists|k: int| 0 <= k < x.tags.len() && contains(lower(#[trigger] x.tags[k]), t)
}

/// The alphanumeric words of a query.
pub open spec fn query_terms(q: Seq<char>) -> Seq<Seq<char>> {
    drop_empty(split_by(q, (Seq::<char>::empty(), true, false)))
}

/// `x` matches the whole query, or every one of its words.
pub open spec fn matches_query(x: SkillView, q: Seq<char>, terms: Seq<Seq<char>>) -> bool {
    field_has(x, q) || forall|k: int| 0 <= k < terms.len() ==> field_has(x, #[trigger] terms[k])
}

pub open spec fn source_ok(x: SkillView, src: Option<Seq<char>>) -> bool {
    match src {
        Some(sel) => sel.len() == 0 || eq_ignore_case(x.source, sel),
        None => true,
    }
}

/// The search result within the listing `l`: entries of the selected source
/// that match the query; when nothing matches a non-empty query, the
/// `find-skills` entry; at most `limit` of them.
pub open spec fn search_result(l: Seq<SkillView>, q: Seq<char>, src: Option<Seq<char>>, limit: nat) -> Seq<SkillView> {
    let filtered = l.filter(|x: SkillView| source_ok(x, src));
    let terms = query_terms(q);
    let matched = filtered.filter(|x: SkillView| matches_query(x, q, terms));
    let fallback = l.filter(|x: SkillView| x.id == "find-skills"@);
    let res = if q.len() == 0 {
        filtered
    } else if matched.len() == 0 && fallback.len() > 0 {
        fallback
    } else {
        matched
    };
    if limit < res.len() {
        res.take(limit as int)
    } else {
        res
    }
}

/// A search finds every entry of the selected source whose id, title,
/// description or one of whose tags, lower-cased, holds the query, so long
/// as the limit leaves room for the whole listing.
pub proof fn law_search_finds_matching_entries(
    l: Seq<SkillView>,
    q: Seq<char>,
    src: Option<Seq<char>>,
    limit: nat,
    i: int,
)
    requires
        0 <= i < l.len(),
        q.len() > 0,
        source_ok(l[i], src),
        limit >= l.len(),
        contains(lower(l[i].id), q) || contains(lower(l[i].title), q) || contains(
            lower(l[i].description),
            q,
        ) || exists|k: int| 0 <= k < l[i].tags.len() && contains(lower(#[trigger] l[i].tags[k]), q),
    ensures
        search_result(l, q, src, limit).contains(l[i]),
{
    let sp = |x: SkillView| source_ok(x, src);
    let filtered = l.filter(sp);
    let terms = query_terms(q);
    let mp = |x: SkillView| matches_query(x, q, terms);
    let matched = filtered.filter(mp);
    l.lemma_filter_contains(sp, i);
    let j = choose|j: int| 0 <= j < filtered.len() && filtered[j] == l[i];
    assert(matches_query(filtered[j], q, terms));
    filtered.lemma_filter_contains(mp, j);
    let k = choose|k: int| 0 <= k < matched.len() && matched[k] == l[i];
    l.lemma_filter_len(sp);
    filtered.lemma_filter_len(mp);
    assert(matched.len() > 0);
    assert(search_result(l, q, src, limit) == matched);
}

/// Whatever the query, a search gives at most `limit` entries, each from
/// the listing; for a non-empty query each one either holds the query or
/// every word of it in its id, title, description or a tag (lower-cased),
/// or is the `find-skills` entry given when nothing matches.
pub proof fn law_search_result_entries(l: Seq<SkillView>, q: Seq<char>, src: Option<Seq<char>>, limit: nat)
    ensures
        search_result(l, q, src, limit).len() <= limit,
        forall|k: int| 0 <= k < search_result(l, q, src, limit).len() ==> l.contains(
            #[trigger] search_result(l, q, src, limit)[k],
        ),
        q.len() > 0 ==> forall|k: int| 0 <= k < search_result(l, q, src, limit).len() ==> {
            let x = #[trigger] search_result(l, q, src, limit)[k];
            ||| x.id == "find-skills"@
            ||| contains(lower(x.id), q) || contains(lower(x.title), q) || contains(lower(x.description), q)
                || (exists|j: int| 0 <= j < x.tags.len() && contains(lower(#[trigger] x.tags[j]), q))
            ||| forall|w: int| 0 <= w < query_terms(q).len() ==> {
                let t = #[trigger] query_terms(q)[w];
                contains(lower(x.id), t) || contains(lower(x.title), t) || contains(lower(x.description), t)
                    || exists|j: int| 0 <= j < x.tags.len() && contains(lower(#[trigger] x.tags[j]), t)
            }
        },
{
    let sp = |x: SkillView| source_ok(x, src);
    let filtered = l.filter(sp);
    let terms = query_terms(q);
    let mp = |x: SkillView| matches_query(x, q, terms);
    let matched = filtered.filter(mp);
    let fp = |x: SkillView| x.id == "find-skills"@;
    let fallback = l.filter(fp);
    let res = if q.len() == 0 {
        filtered
    } else if matched.len() == 0 && fallback.len() > 0 {
        fallback
    } else {
        matched
    };
    let r = search_result(l, q, src, limit);
    assert forall|k: int| 0 <= k < r.len() implies l.contains(#[trigger] r[k]) && (q.len() > 0 ==> (
    r[k].id == "find-skills"@ || matches_query(r[k], q, terms))) by {
        assert(r[k] == res[k]);
        if q.len() == 0 {
            l.lemma_filter_contains_rev(sp, res[k]);
        } else if matched.len() == 0 && fallback.len() > 0 {
            l.lemma_filter_pred(fp, k);
            assert(fallback.contains(fallback[k]));
            l.lemma_filter_contains_rev(fp, res[k]);
        } else {
            filtered.lemma_filter_pred(mp, k);
            assert(matched.contains(matched[k]));
            filtered.lemma_filter_contains_rev(mp, res[k]);
            l.lemma_filter_contains_rev(sp, res[k]);
        }
    }
}

enum SkillFilter {
    Source(Vec<char>),
    Query(Vec<char>, Vec<Vec<char>>),
    Id(Vec<char>),
}

enum FilterView {
    Source(Seq<char>),
    Query(Seq<char>, Seq<Seq<char>>),
    Id(Seq<char>),
}

impl SkillFilter {
    spec fn fv(&self) -> FilterView {
        match self {
            SkillFilter::Source(s) => FilterView::Source(s@),
            SkillFilter::Query(q, t) => FilterView::Query(q@, views_v(t@)),
            SkillFilter::Id(i) => FilterView::Id(i@),
        }
    }
}

spec fn keeps(f: FilterView, x: SkillView) -> bool {
    match f {
        FilterView::Source(sel) => source_ok(x, Some(sel)),
        FilterView::Query(q, terms) => matches_query(x, q, terms),
        FilterView::Id(id) => x.id == id,
    }
}

fn field_has_exec(item: &SkillCatalogItem, t: &Vec<char>) -> (r: bool)
    ensures
        r == field_has(item@, t@),
{
    if contains_vec(&lower_vec(&chars_of(item.id.as_str())), t) {
        return true;
    }
    if contains_vec(&lower_vec(&chars_of(item.title.as_str())), t) {
        return true;
    }
    if contains_vec(&lower_vec(&chars_of(item.description.as_str())), t) {
        return true;
    }
    let mut k: usize = 0;
    while k < item.tags.len()
        invariant
            k <= item.tags.len(),
            forall|j: int| 0 <= j < k ==> !contains(lower(#[trigger] item@.tags[j]), t@),
        decreases item.tags.len() - k,
    {
        if contains_vec(&lower_vec(&chars_of(item.tags[k].as_str())), t) {
            assert(item@.tags[k as int] == item.tags@[k as int]@);
            return true;
        }
        assert(item@.tags[k as int] == item.tags@[k as int]@);
        k += 1;
    }
    false
}

fn keeps_exec(f: &SkillFilter, item: &SkillCatalogItem) -> (r: bool)
    ensures
        r == keeps(f.fv(), item@),
{
    match f {
        SkillFilter::Source(sel) => {
            sel.len() == 0 || eq_ignore_case_vec(&chars_of(item.source.as_str()), sel)
        },
        SkillFilter::Id(id) => crate::text::seq_eq(&chars_of(item.id.as_str()), id),
        SkillFilter::Query(q, terms) => {
            if field_has_exec(item, q) {
                return true;
            }
            let mut k: usize = 0;
            while k < terms.len()
                invariant
                    k <= terms.len(),
                    !field_has(item@, q@),
                    f.fv() == FilterView::Query(q@, views_v(terms@)),
                    forall|j: int| 0 <= j < k ==> field_has(item@, #[trigger] views_v(terms@)[j]),
                decreases terms.len() - k,
            {
                if !field_has_exec(item, &terms[k]) {
                    assert(views_v(terms@)[k as int] == terms@[k as int]@);
                    return false;
                }
                k += 1;
            }
            true
        },
    }
}

fn filter_skills(items: &Vec<SkillCatalogItem>, f: &SkillFilter) -> (r: Vec<SkillCatalogItem>)
    ensures
        skill_views(r@) == skill_views(items@).filter(|x: SkillView| keeps(f.fv(), x)),
{
    let ghost pred = |x: SkillView| keeps(f.fv(), x);
    let mut out: Vec<SkillCatalogItem> = Vec::new();
    let mut i: usize = 0;
    assert(skill_views(items@).take(0) =~= Seq::<SkillView>::empty());
    reveal_with_fuel(Seq::filter, 1);
    while i < items.len()
        invariant
            i <= items.len(),
            pred == (|x: SkillView| keeps(f.fv(), x)),
            skill_views(out@) =~= skill_views(items@).take(i as int).filter(pred),
        decreases items.len() - i,
    {
        reveal_with_fuel(Seq::filter, 1);
        let ghost prev = out@;
        assert(skill_views(items@).take(i + 1).drop_last() =~= skill_views(items@).take(i as int));
        assert(skill_views(items@).take(i + 1).last() == items@[i as int]@);
        if keeps_exec(f, &items[i]) {
            let c = items[i].copy();
            out.push(c);
            proof {
                assert(skill_views(out@) =~= skill_views(prev).push(items@[i as int]@));
            }
        }
        i += 1;
    }
    assert(skill_views(items@).take(items.len() as int) =~= skill_views(items@));
    out
}

impl SkillCatalog {
    /// Adds a skill of the agent-skills repo, by name, as a custom skill.
    pub fn import_vercel_skill(&mut self, skill_name: &str) -> (r: Result<SkillCatalogItem, String>)
        ensures
            match vercel_result(skill_name@) {
                Ok(v) => r matches Ok(item) && item@ == v && final(self)@ == upsert_spec(old(self)@, v),
                Err(e) => r matches Err(msg) && msg@ == e && final(self)@ == old(self)@,
            },
    {
        let slug_s = match normalize_agent_skill_name(skill_name) {
            Ok(s) => s,
            Err(e) => {
                return Err(e);
            },
        };
        let slug = chars_of(slug_s.as_str());
        let id = sanitize_skill_id_vec(&slug);
        let dash = CharClass::single('-');
        let t = title_words_vec(&slug, &dash);
        let title = if t.len() == 0 {
            lit("Vercel Agent Skill")
        } else {
            let mut x = chars_of("Vercel: ");
            append_vec(&mut x, &t);
            string_of(&x)
        };
        let tags = vec![lit("vercel"), lit("agent-skills")];
        assert(views(tags@) =~= seq!["vercel"@, "agent-skills"@]);
        let skill = SkillCatalogItem {
            id: string_of(&id),
            title,
            description: lit("Install a skill from vercel-labs/agent-skills."),
            install_command: string_of(&project_scope_install_command_vec(&slug)),
            url: agent_skill_url(slug_s.as_str()),
            source: lit("vercel"),
            tags,
            is_custom: true,
        };
        let stored_copy = skill.copy();
        let _ = self.upsert_custom_skill(stored_copy);
        Ok(skill)
    }

    /// Searches the catalog listing by query, optional source and limit.
    pub fn search_skills(&self, query: &str, source: Option<&str>, limit: usize) -> (r: Vec<SkillCatalogItem>)
        ensures
            exists|l: Seq<SkillView>|
                catalog_listing(self.all_entries(), l) && skill_views(r@) == search_result(
                    l,
                    lower(trim(query@)),
                    match source {
                        Some(s) => Some(lower(trim(s@))),
                        None => None,
                    },
                    limit as nat,
                ),
    {
        let q = lower_vec(&trimmed(query));
        let src: Option<Vec<char>> = match source {
            Some(s) => Some(lower_vec(&trimmed(s))),
            None => None,
        };
        let ghost srcv = match source {
            Some(s) => Some(lower(trim(s@))),
            None => None::<Seq<char>>,
        };
        let all = self.list_all_skills();
        let ghost l = skill_views(all@);
        let filtered = match &src {
            Some(sel) => filter_skills(&all, &SkillFilter::Source(copy_vec(sel))),
            None => {
                let mut c: Vec<SkillCatalogItem> = Vec::new();
                let mut i: usize = 0;
                while i < all.len()
                    invariant
                        i <= all.len(),
                        c@.len() == i,
                        forall|k: int| 0 <= k < i ==> #[trigger] c@[k]@ == all@[k]@,
                    decreases all.len() - i,
                {
                    c.push(all[i].copy());
                    i += 1;
                }
                c
            },
        };
        proof {
            lemma_filter_full(l, |x: SkillView| source_ok(x, srcv));
            if srcv is None {
                assert(skill_views(filtered@) =~= l);
            } else {
                assert((|x: SkillView| keeps(FilterView::Source(srcv->0), x)) =~= (|x: SkillView| source_ok(x, srcv)));
            }
        }
        assert(skill_views(filtered@) == l.filter(|x: SkillView| source_ok(x, srcv)));
        let res = if q.len() == 0 {
            filtered
        } else {
            let nonalnum = CharClass::non_alphanumeric();
            let pieces = split_vec(&q, &nonalnum);
            let terms = drop_empty_vec(&pieces);
            let qf = SkillFilter::Query(copy_vec(&q), terms);
            let matched = filter_skills(&filtered, &qf);
            let fb = filter_skills(&all, &SkillFilter::Id(chars_of("find-skills")));
            proof {
                assert((|x: SkillView| keeps(qf.fv(), x)) =~= (|x: SkillView| matches_query(x, q@, query_terms(q@))));
                assert((|x: SkillView| keeps(FilterView::Id("find-skills"@), x)) =~= (|x: SkillView| x.id == "find-skills"@));
            }
            if matched.len() == 0 && fb.len() > 0 {
                fb
            } else {
                matched
            }
        };
        let mut out = res;
        if limit < out.len() {
            out.truncate(limit);
        }
        proof {
            assert(skill_views(out@) =~= search_result(l, q@, srcv, limit as nat));
        }
        out
    }
}

} // verus!
