//! Workspace skills: `SKILL.md` files under `.agents/skills/<name>/`.
//!
//! Walking the directories is the caller's business; this module turns the
//! text of each file into a skill, merges the skills found in the workspace
//! and in the user's global directory, and renders the active ones for an
//! agent's system prompt.
use vstd::prelude::*;

use crate::listing::{first_by_id_sorted, first_listing, item_views, Listed};
use crate::markdown::{frontmatter_parts, frontmatter_parts_vec};
use crate::path_scope::{is_within_dir, path_within};
use crate::text::{
    append_str, append_vec, chars_of, copy_string, copy_strings, copy_vec, drop_empty,
    drop_empty_vec, join, join_vec, lines, lines_vec, lower, lower_vec, map_trim, map_trim_vec,
    opt_view, seq_eq, slice_vec, split_by, split_once, split_once_vec, split_vec, starts_with,
    starts_with_vec, string_of, strings_of, title_words, title_words_vec, trim, trim_vec, views,
    views_v, CharClass,
};

verus! {

// ---------------------------------------------------------------------------
// Types
// ---------------------------------------------------------------------------

/// A skill discovered from `.agents/skills/<name>/SKILL.md`.
#[derive(Debug)]
pub struct WorkspaceSkill {
    /// The name of the skill's directory.
    pub id: String,
    /// From the frontmatter's `name`, else the directory name in title case.
    pub name: String,
    pub description: String,
    /// The markdown body after the frontmatter.
    pub content: String,
    pub skill_dir: String,
    pub skill_file: String,
    /// `workspace` or `global`.
    pub source: String,
    /// Files of the skill directory, relative to it.
    pub files: Vec<String>,
    pub tags: Vec<String>,
    /// Whether the skill is injected into agent prompts.
    pub enabled: bool,
}

pub struct WorkspaceSkillView {
    pub id: Seq<char>,
    pub name: Seq<char>,
    pub description: Seq<char>,
    pub content: Seq<char>,
    pub skill_dir: Seq<char>,
    pub skill_file: Seq<char>,
    pub source: Seq<char>,
    pub files: Seq<Seq<char>>,
    pub tags: Seq<Seq<char>>,
    pub enabled: bool,
}

impl View for WorkspaceSkill {
    type V = WorkspaceSkillView;

    open spec fn view(&self) -> WorkspaceSkillView {
        WorkspaceSkillView {
            id: self.id@,
            name: self.name@,
            description: self.description@,
            content: self.content@,
            skill_dir: self.skill_dir@,
            skill_file: self.skill_file@,
            source: self.source@,
            files: views(self.files@),
            tags: views(self.tags@),
            enabled: self.enabled,
        }
    }
}

impl WorkspaceSkill {
    pub fn copy(&self) -> (r: WorkspaceSkill)
        ensures
            r@ == self@,
    {
        WorkspaceSkill {
            id: copy_string(&self.id),
            name: copy_string(&self.name),
            description: copy_string(&self.description),
            content: copy_string(&self.content),
            skill_dir: copy_string(&self.skill_dir),
            skill_file: copy_string(&self.skill_file),
            source: copy_string(&self.source),
            files: copy_strings(&self.files),
            tags: copy_strings(&self.tags),
            enabled: self.enabled,
        }
    }
}

impl Listed for WorkspaceSkill {
    open spec fn id_of(v: WorkspaceSkillView) -> Seq<char> {
        v.id
    }

    open spec fn name_of(v: WorkspaceSkillView) -> Seq<char> {
        v.name
    }

    fn id_chars(&self) -> (r: Vec<char>) {
        chars_of(self.id.as_str())
    }

    fn name_chars(&self) -> (r: Vec<char>) {
        chars_of(self.name.as_str())
    }

    fn copy_item(&self) -> (r: WorkspaceSkill) {
        self.copy()
    }
}

/// The frontmatter fields of a `SKILL.md` file.
#[derive(Debug)]
pub struct SkillFrontmatter {
    pub name: Option<String>,
    pub description: Option<String>,
    pub tags: Vec<String>,
}

// ---------------------------------------------------------------------------
// Frontmatter
// ---------------------------------------------------------------------------

/// The state of the frontmatter reader: the fields so far, and the key of a
/// list being read with its items.
#[verifier::ext_equal]
pub struct YamlState {
    pub name: Option<Seq<char>>,
    pub description: Option<Seq<char>>,
    pub tags: Seq<Seq<char>>,
    pub key: Seq<char>,
    pub items: Seq<Seq<char>>,
    pub in_list: bool,
}

pub open spec fn yaml_init() -> YamlState {
    YamlState {
        name: None,
        description: None,
        tags: Seq::<Seq<char>>::empty(),
        key: Seq::<char>::empty(),
        items: Seq::<Seq<char>>::empty(),
        in_list: false,
    }
}

pub open spec fn comma() -> (Seq<char>, bool, bool) {
    (seq![','], false, false)
}

/// Sets a known field; `tags` is a comma-separated list whose empty items
/// are dropped.  Other keys are ignored.
pub open spec fn apply_field(st: YamlState, key: Seq<char>, value: Seq<char>) -> YamlState {
    if key == "name"@ {
        YamlState { name: Some(value), ..st }
    } else if key == "description"@ {
        YamlState { description: Some(value), ..st }
    } else if key == "tags"@ {
        YamlState { tags: drop_empty(map_trim(split_by(value, comma()))), ..st }
    } else {
        st
    }
}

/// Ends the list being read: its items, joined by `, `, set its key; the
/// items themselves become the tags when the key is `tags`.
pub open spec fn flush_list(st: YamlState) -> YamlState {
    let a = apply_field(st, st.key, join(st.items, ", "@));
    YamlState {
        tags: if st.key == "tags"@ {
            st.items
        } else {
            a.tags
        },
        items: Seq::<Seq<char>>::empty(),
        in_list: false,
        ..a
    }
}

/// One line of the frontmatter block.
pub open spec fn yaml_step(st: YamlState, line: Seq<char>) -> YamlState {
    let t = trim(line);
    if starts_with(t, "- "@) && st.in_list {
        let v = trim(t.skip(2));
        if v.len() > 0 {
            YamlState { items: st.items.push(v), ..st }
        } else {
            st
        }
    } else {
        let s1 = if st.in_list {
            flush_list(st)
        } else {
            st
        };
        match split_once(t, ':') {
            Some((k, v)) => {
                let key = lower(trim(k));
                let value = trim(v);
                if value.len() == 0 {
                    YamlState { key: key, in_list: true, ..s1 }
                } else {
                    apply_field(s1, key, value)
                }
            },
            None => s1,
        }
    }
}

pub open spec fn yaml_fold(ls: Seq<Seq<char>>) -> YamlState
    decreases ls.len(),
{
    if ls.len() == 0 {
        yaml_init()
    } else {
        yaml_step(yaml_fold(ls.drop_last()), ls.last())
    }
}

/// After the last line, a list with items still open is set.
pub open spec fn yaml_finish(st: YamlState) -> YamlState {
    if st.in_list && st.items.len() > 0 {
        if st.key == "tags"@ {
            YamlState { tags: st.items, ..st }
        } else {
            apply_field(st, st.key, join(st.items, ", "@))
        }
    } else {
        st
    }
}

/// The fields that a frontmatter block sets.
pub open spec fn simple_yaml(block: Seq<char>) -> YamlState {
    yaml_finish(yaml_fold(lines(block)))
}

/// The frontmatter state and the body of a `SKILL.md` text; a text without
/// frontmatter is all body.
pub open spec fn skill_file_parts(raw: Seq<char>) -> (YamlState, Seq<char>) {
    match frontmatter_parts(raw) {
        Some((block, body)) => (simple_yaml(trim(block)), body),
        None => (yaml_init(), raw),
    }
}

struct YamlParse {
    name: Option<Vec<char>>,
    description: Option<Vec<char>>,
    tags: Vec<Vec<char>>,
    key: Vec<char>,
    items: Vec<Vec<char>>,
    in_list: bool,
}

pub open spec fn ovec(o: Option<Vec<char>>) -> Option<Seq<char>> {
    match o {
        Some(v) => Some(v@),
        None => None,
    }
}

impl View for YamlParse {
    type V = YamlState;

    closed spec fn view(&self) -> YamlState {
        YamlState {
            name: ovec(self.name),
            description: ovec(self.description),
            tags: views_v(self.tags@),
            key: self.key@,
            items: views_v(self.items@),
            in_list: self.in_list,
        }
    }
}

fn is_lit(v: &Vec<char>, s: &str) -> (r: bool)
    ensures
        r == (v@ == s@),
{
    let l = chars_of(s);
    seq_eq(v, &l)
}

fn copy_parts(v: &Vec<Vec<char>>) -> (r: Vec<Vec<char>>)
    ensures
        views_v(r@) == views_v(v@),
{
    let mut out: Vec<Vec<char>> = Vec::new();
    let mut i: usize = 0;
    while i < v.len()
        invariant
            i <= v.len(),
            out@.len() == i,
            forall|k: int| 0 <= k < i ==> #[trigger] out@[k]@ == v@[k]@,
        decreases v.len() - i,
    {
        out.push(copy_vec(&v[i]));
        i += 1;
    }
    assert(views_v(out@) =~= views_v(v@));
    out
}

impl YamlParse {
    fn new() -> (r: YamlParse)
        ensures
            r@ == yaml_init(),
    {
        let r = YamlParse {
            name: None,
            description: None,
            tags: Vec::new(),
            key: Vec::new(),
            items: Vec::new(),
            in_list: false,
        };
        assert(r@ =~= yaml_init());
        r
    }

    fn apply(&mut self, key: &Vec<char>, value: &Vec<char>)
        ensures
            final(self)@ == apply_field(old(self)@, key@, value@),
    {
        if is_lit(key, "name") {
            self.name = Some(copy_vec(value));
        } else if is_lit(key, "description") {
            self.description = Some(copy_vec(value));
        } else if is_lit(key, "tags") {
            let c = CharClass::single(',');
            let parts = split_vec(value, &c);
            self.tags = drop_empty_vec(&map_trim_vec(&parts));
        }
        assert(self@ =~= apply_field(old(self)@, key@, value@));
    }

    fn flush(&mut self)
        ensures
            final(self)@ == flush_list(old(self)@),
    {
        let sep = chars_of(", ");
        let joined = join_vec(&self.items, &sep);
        let key = copy_vec(&self.key);
        let is_tags = is_lit(&key, "tags");
        self.apply(&key, &joined);
        if is_tags {
            self.tags = copy_parts(&self.items);
        }
        self.items = Vec::new();
        self.in_list = false;
        assert(self@ =~= flush_list(old(self)@));
    }

    fn step(&mut self, line: &Vec<char>)
        ensures
            final(self)@ == yaml_step(old(self)@, line@),
    {
        let t = trim_vec(line);
        let dash = chars_of("- ");
        proof {
            reveal_strlit("- ");
        }
        if starts_with_vec(&t, &dash) && self.in_list {
            let v = trim_vec(&slice_vec(&t, 2, t.len()));
            assert(t@.subrange(2, t@.len() as int) =~= t@.skip(2));
            if v.len() > 0 {
                self.items.push(v);
            }
            assert(self@ =~= yaml_step(old(self)@, line@));
            return;
        }
        if self.in_list {
            self.flush();
        }
        let ghost s1 = self@;
        match split_once_vec(&t, ':') {
            Some((k, v)) => {
                let key = lower_vec(&trim_vec(&k));
                let value = trim_vec(&v);
                if value.len() == 0 {
                    self.key = key;
                    self.in_list = true;
                    assert(self@ =~= YamlState { key: key@, in_list: true, ..s1 });
                } else {
                    self.apply(&key, &value);
                }
            },
            None => {},
        }
    }

    fn finish(&mut self)
        ensures
            final(self)@ == yaml_finish(old(self)@),
    {
        if self.in_list && self.items.len() > 0 {
            if is_lit(&self.key, "tags") {
                self.tags = copy_parts(&self.items);
                assert(self@ =~= yaml_finish(old(self)@));
            } else {
                let sep = chars_of(", ");
                let joined = join_vec(&self.items, &sep);
                let key = copy_vec(&self.key);
                self.apply(&key, &joined);
            }
        }
    }
}

/// The fields that the frontmatter block sets.
pub fn parse_simple_yaml(block: &Vec<char>) -> (r: SkillFrontmatter)
    ensures
        opt_view(r.name) == simple_yaml(block@).name,
        opt_view(r.description) == simple_yaml(block@).description,
        views(r.tags@) == simple_yaml(block@).tags,
{
    let ls = lines_vec(block);
    let mut st = YamlParse::new();
    let mut i: usize = 0;
    assert(views_v(ls@).take(0) =~= Seq::<Seq<char>>::empty());
    while i < ls.len()
        invariant
            i <= ls.len(),
            views_v(ls@) == lines(block@),
            st@ == yaml_fold(views_v(ls@).take(i as int)),
        decreases ls.len() - i,
    {
        assert(views_v(ls@).take(i + 1).drop_last() =~= views_v(ls@).take(i as int));
        st.step(&ls[i]);
        i += 1;
    }
    assert(views_v(ls@).take(ls.len() as int) =~= views_v(ls@));
    st.finish();
    let tags = strings_of(&st.tags);
    assert(views(tags@) =~= views_v(st.tags@));
    let name = match &st.name {
        Some(v) => Some(string_of(v)),
        None => None,
    };
    let description = match &st.description {
        Some(v) => Some(string_of(v)),
        None => None,
    };
    SkillFrontmatter { name, description, tags }
}

/// Splits a `SKILL.md` text into its frontmatter fields and its body.
pub fn parse_frontmatter(raw: &str) -> (r: (SkillFrontmatter, String))
    ensures
        opt_view(r.0.name) == skill_file_parts(raw@).0.name,
        opt_view(r.0.description) == skill_file_parts(raw@).0.description,
        views(r.0.tags@) == skill_file_parts(raw@).0.tags,
        r.1@ == skill_file_parts(raw@).1,
{
    let v = chars_of(raw);
    match frontmatter_parts_vec(&v) {
        Some((block, body)) => {
            let fm = parse_simple_yaml(&trim_vec(&block));
            (fm, string_of(&body))
        },
        None => {
            let fm = SkillFrontmatter { name: None, description: None, tags: Vec::new() };
            assert(views(fm.tags@) =~= Seq::<Seq<char>>::empty());
            (fm, string_of(&v))
        },
    }
}

/// Separators of the words of a skill directory name.
pub open spec fn skill_word_seps() -> (Seq<char>, bool, bool) {
    (seq!['-', '_'], false, false)
}

/// `frontend-design` becomes `Frontend Design`.
pub fn title_case(s: &str) -> (r: String)
    ensures
        r@ == title_words(s@, skill_word_seps()),
{
    let seps = CharClass::of(vec!['-', '_']);
    assert(seps@.0 =~= seq!['-', '_']);
    let t = title_words_vec(&chars_of(s), &seps);
    string_of(&t)
}

// ---------------------------------------------------------------------------
// Skills
// ---------------------------------------------------------------------------

/// The skill that a `SKILL.md` text describes, found in the directory
/// `dir_name` (at `skill_dir`) of the given source.
pub open spec fn skill_of_file(
    dir_name: Seq<char>,
    raw: Seq<char>,
    skill_dir: Seq<char>,
    skill_file: Seq<char>,
    source: Seq<char>,
    files: Seq<Seq<char>>,
) -> WorkspaceSkillView {
    let (fm, body) = skill_file_parts(raw);
    WorkspaceSkillView {
        id: dir_name,
        name: match fm.name {
            Some(n) => n,
            None => title_words(dir_name, skill_word_seps()),
        },
        description: match fm.description {
            Some(d) => d,
            None => Seq::<char>::empty(),
        },
        content: body,
        skill_dir: skill_dir,
        skill_file: skill_file,
        source: source,
        files: files,
        tags: fm.tags,
        enabled: true,
    }
}

/// Builds the skill of one `SKILL.md` file; discovered skills are enabled.
pub fn skill_from_file(
    dir_name: &str,
    raw: &str,
    skill_dir: String,
    skill_file: String,
    source: &str,
    files: Vec<String>,
) -> (r: WorkspaceSkill)
    ensures
        r@ == skill_of_file(dir_name@, raw@, skill_dir@, skill_file@, source@, views(files@)),
{
    let (fm, body) = parse_frontmatter(raw);
    let name = match fm.name {
        Some(n) => n,
        None => title_case(dir_name),
    };
    let description = match fm.description {
        Some(d) => d,
        None => String::new(),
    };
    WorkspaceSkill {
        id: String::from_str(dir_name),
        name,
        description,
        content: body,
        skill_dir,
        skill_file,
        source: String::from_str(source),
        files,
        tags: fm.tags,
        enabled: true,
    }
}

/// Merges the skills found in the workspace (first) and in the global
/// directory (after them): for each id the first one found is kept, and
/// the result is ordered by ASCII-lower-cased name.
pub fn scan_workspace_skills(found: &Vec<WorkspaceSkill>) -> (r: Vec<WorkspaceSkill>)
    ensures
        first_listing::<WorkspaceSkill>(item_views(found@), item_views(r@)),
{
    first_by_id_sorted(found)
}

pub open spec fn context_header() -> Seq<char> {
    "\n\n# Active Skills\n\nThe following skills are loaded and their instructions should be followed when relevant:\n"@
}

/// The section of one skill in the context.
pub open spec fn skill_section(s: WorkspaceSkillView) -> Seq<char> {
    "\n---\n## Skill: "@ + s.name + "\n\n"@ + (if s.description.len() == 0 {
        Seq::<char>::empty()
    } else {
        "_"@ + s.description + "_\n"@
    }) + "\n\n"@ + s.content + "\n"@
}

/// The sections of the enabled skills, in order.
pub open spec fn enabled_sections(ss: Seq<WorkspaceSkillView>) -> Seq<char>
    decreases ss.len(),
{
    if ss.len() == 0 {
        Seq::<char>::empty()
    } else {
        enabled_sections(ss.drop_last()) + if ss.last().enabled {
            skill_section(ss.last())
        } else {
            Seq::<char>::empty()
        }
    }
}

pub open spec fn any_enabled(ss: Seq<WorkspaceSkillView>) -> bool {
    exists|i: int| 0 <= i < ss.len() && #[trigger] ss[i].enabled
}

/// The text injected into system prompts for the given skills.
pub open spec fn skills_context(ss: Seq<WorkspaceSkillView>) -> Seq<char> {
    if any_enabled(ss) {
        context_header() + enabled_sections(ss)
    } else {
        Seq::<char>::empty()
    }
}

/// Renders the enabled skills for an agent's system prompt: nothing when no
/// skill is enabled.
pub fn build_skills_context(skills: &Vec<WorkspaceSkill>) -> (r: String)
    ensures
        r@ == skills_context(item_views(skills@)),
        !any_enabled(item_views(skills@)) ==> r@.len() == 0,
{
    let ghost ss = item_views(skills@);
    let mut body: Vec<char> = Vec::new();
    let mut any = false;
    let mut i: usize = 0;
    assert(ss.take(0) =~= Seq::<WorkspaceSkillView>::empty());
    while i < skills.len()
        invariant
            i <= skills.len(),
            ss == item_views(skills@),
            body@ == enabled_sections(ss.take(i as int)),
            any == any_enabled(ss.take(i as int)),
        decreases skills.len() - i,
    {
        let s = &skills[i];
        proof {
            assert(ss.take(i + 1).drop_last() =~= ss.take(i as int));
            assert(ss.take(i + 1).last() == s@);
        }
        if s.enabled {
            append_str(&mut body, "\n---\n## Skill: ");
            append_vec(&mut body, &chars_of(s.name.as_str()));
            append_str(&mut body, "\n\n");
            let d = chars_of(s.description.as_str());
            if d.len() > 0 {
                append_str(&mut body, "_");
                append_vec(&mut body, &d);
                append_str(&mut body, "_\n");
            }
            append_str(&mut body, "\n\n");
            append_vec(&mut body, &chars_of(s.content.as_str()));
            append_str(&mut body, "\n");
            any = true;
            proof {
                assert(ss.take(i + 1)[i as int].enabled);
            }
            assert(body@ =~= enabled_sections(ss.take(i as int)) + skill_section(s@));
        } else {
            proof {
                if any_enabled(ss.take(i + 1)) {
                    let w = choose|w: int| 0 <= w < i + 1 && #[trigger] ss.take(i + 1)[w].enabled;
                    assert(ss.take(i as int)[w].enabled);
                }
            }
            assert(body@ =~= enabled_sections(ss.take(i as int)));
        }
        proof {
            if any_enabled(ss.take(i as int)) {
                let w = choose|w: int| 0 <= w < i && #[trigger] ss.take(i as int)[w].enabled;
                assert(ss.take(i + 1)[w].enabled);
            }
        }
        i += 1;
    }
    assert(ss.take(skills.len() as int) =~= ss);
    if !any {
        return String::new();
    }
    let mut out = chars_of("\n\n# Active Skills\n\nThe following skills are loaded and their instructions should be followed when relevant:\n");
    append_vec(&mut out, &body);
    string_of(&out)
}

/// Keeps the enabled skills.
pub open spec fn is_enabled() -> spec_fn(WorkspaceSkillView) -> bool {
    |s: WorkspaceSkillView| s.enabled
}

/// The sections of all the given skills, in order.
pub open spec fn all_sections(ss: Seq<WorkspaceSkillView>) -> Seq<char>
    decreases ss.len(),
{
    if ss.len() == 0 {
        Seq::<char>::empty()
    } else {
        all_sections(ss.drop_last()) + skill_section(ss.last())
    }
}

/// The enabled sections are those of the enabled skills, each in turn.
pub proof fn law_sections_of_enabled_skills(ss: Seq<WorkspaceSkillView>)
    ensures
        enabled_sections(ss) == all_sections(ss.filter(is_enabled())),
    decreases ss.len(),
{
    reveal(Seq::filter);
    if ss.len() > 0 {
        law_sections_of_enabled_skills(ss.drop_last());
        let f = ss.drop_last().filter(is_enabled());
        if ss.last().enabled {
            assert(f.push(ss.last()).drop_last() == f);
            assert(ss.filter(is_enabled()) == f.push(ss.last()));
        } else {
            assert(ss.filter(is_enabled()) == f);
            assert(enabled_sections(ss) =~= enabled_sections(ss.drop_last()));
        }
    }
}

proof fn lemma_all_enabled_sections(ss: Seq<WorkspaceSkillView>)
    requires
        forall|i: int| 0 <= i < ss.len() ==> (#[trigger] ss[i]).enabled,
    ensures
        enabled_sections(ss) == all_sections(ss),
    decreases ss.len(),
{
    if ss.len() > 0 {
        let d = ss.drop_last();
        assert forall|i: int| 0 <= i < d.len() implies (#[trigger] d[i]).enabled by {
            assert(d[i] == ss[i]);
        }
        lemma_all_enabled_sections(d);
        assert(ss[ss.len() - 1].enabled);
    }
}

/// Disabled skills add nothing: the context of a list is the context of its
/// enabled skills alone; it is empty exactly when no skill is enabled, and
/// otherwise the header followed by the section of each enabled skill in
/// the order of the list.
pub proof fn law_context_of_enabled_skills(ss: Seq<WorkspaceSkillView>)
    ensures
        skills_context(ss) == skills_context(ss.filter(is_enabled())),
        (skills_context(ss).len() == 0) == !any_enabled(ss),
        any_enabled(ss) ==> skills_context(ss) == context_header() + all_sections(
            ss.filter(is_enabled()),
        ),
{
    let f = ss.filter(is_enabled());
    assert forall|i: int| 0 <= i < f.len() implies (#[trigger] f[i]).enabled by {
        ss.lemma_filter_pred(is_enabled(), i);
    }
    lemma_all_enabled_sections(f);
    law_sections_of_enabled_skills(ss);
    if any_enabled(ss) {
        let w = choose|w: int| 0 <= w < ss.len() && #[trigger] ss[w].enabled;
        ss.lemma_filter_contains(is_enabled(), w);
        let k = choose|k: int| 0 <= k < f.len() && f[k] == ss[w];
        assert(f[k].enabled);
        assert(any_enabled(f));
        assert(context_header().len() > 0) by {
            reveal_strlit("\n\n# Active Skills\n\nThe following skills are loaded and their instructions should be followed when relevant:\n");
        }
    } else {
        if any_enabled(f) {
            let k = choose|k: int| 0 <= k < f.len() && #[trigger] f[k].enabled;
            lemma_filter_from_skills(ss, k);
        }
    }
}

proof fn lemma_filter_from_skills(ss: Seq<WorkspaceSkillView>, k: int)
    requires
        0 <= k < ss.filter(is_enabled()).len(),
    ensures
        any_enabled(ss),
{
    ss.lemma_filter_pred(is_enabled(), k);
    let x = ss.filter(is_enabled())[k];
    ss.lemma_filter_contains_rev(is_enabled(), x);
    let j = choose|j: int| 0 <= j < ss.len() && ss[j] == x;
    assert(ss[j].enabled);
}

/// Why reading a skill file is refused when its path leaves the skill's
/// directory.
pub open spec fn traversal_refused() -> Seq<char> {
    "path traversal not allowed"@
}

/// Allows reading a skill file only where its canonical path lies inside
/// the skill's canonical directory; otherwise refuses it.
pub fn check_skill_file_path(canonical_dir: &str, canonical_target: &str) -> (r: Result<(), String>)
    ensures
        r is Ok <==> path_within(canonical_target@, canonical_dir@),
        r is Err ==> r->Err_0@ == traversal_refused(),
{
    if is_within_dir(canonical_target, canonical_dir) {
        Ok(())
    } else {
        Err(String::from_str("path traversal not allowed"))
    }
}

} // verus!
