//! `@` mentions in prompts: workspace skills (`@skill:<id>`) and workspace
//! paths (`@src/main.rs`), expanded into a references section appended to the
//! prompt.
//!
//! Reading files and listing directories is the caller's business; this
//! module finds the mentions, resolves skill mentions, renders the sections,
//! keeps out every path that resolved outside the workspace, and assembles
//! the expanded prompt.
use vstd::prelude::*;

use crate::listing::item_views;
use crate::path_scope::{is_within_dir, path_within};
use crate::text::{
    append_str, append_vec, chars_of, is_whitespace, is_ws, join, join_vec, lower, lower_vec,
    replace_char, replace_char_vec, seq_eq, slice_vec, starts_with, starts_with_vec,
    strip_prefix_all, strip_prefix_all_vec, string_of, trim, trim_matches, trim_matches_vec,
    trimmed, views, views_v,
};
use crate::workspace_skills::{WorkspaceSkill, WorkspaceSkillView};

verus! {

/// A file's text is cut after this many characters.
pub const MAX_FILE_CHARS: usize = 12000;

/// A directory listing shows at most this many entries.
pub const MAX_DIR_ENTRIES: usize = 80;

// ---------------------------------------------------------------------------
// Mentions
// ---------------------------------------------------------------------------

/// Characters after which an `@` starts a mention (besides whitespace).
pub open spec fn opens_mention(c: char) -> bool {
    is_ws(c) || c == '(' || c == '[' || c == '{' || c == '"' || c == '\''
}

/// Characters that end a mention.
pub open spec fn ends_mention(c: char) -> bool {
    is_ws(c) || c == ')' || c == ']' || c == '}' || c == ',' || c == ';' || c == '!' || c == '?'
        || c == '"' || c == '\''
}

/// The first index at or after `j` whose character ends a mention, or the
/// length of `cs`.
pub open spec fn mention_end(cs: Seq<char>, j: int) -> int
    decreases cs.len() - j,
{
    if j < 0 || j >= cs.len() {
        cs.len() as int
    } else if ends_mention(cs[j]) {
        j
    } else {
        mention_end(cs, j + 1)
    }
}

pub proof fn lemma_mention_end(cs: Seq<char>, j: int)
    requires
        0 <= j <= cs.len(),
    ensures
        j <= mention_end(cs, j) <= cs.len(),
        mention_end(cs, j) < cs.len() ==> ends_mention(cs[mention_end(cs, j)]),
        forall|k: int| j <= k < mention_end(cs, j) ==> !ends_mention(#[trigger] cs[k]),
    decreases cs.len() - j,
{
    if j < cs.len() && !ends_mention(cs[j]) {
        lemma_mention_end(cs, j + 1);
    }
}

/// An `@` at the start of the text or after whitespace or an opening mark.
pub open spec fn mention_at(cs: Seq<char>, i: int) -> bool {
    cs[i] == '@' && (i == 0 || opens_mention(cs[i - 1]))
}

/// Drops trailing `.` and `:` characters.
pub open spec fn strip_end_marks(s: Seq<char>) -> Seq<char>
    decreases s.len(),
{
    if s.len() > 0 && (s.last() == '.' || s.last() == ':') {
        strip_end_marks(s.drop_last())
    } else {
        s
    }
}

/// A mention's text without trailing punctuation, with `\` as `/`.
pub open spec fn clean_token(raw: Seq<char>) -> Seq<char> {
    replace_char(strip_end_marks(raw), '\\', '/')
}

/// The mentions in `cs` from index `i` on, in order, duplicates included.
/// A mention runs from after its `@` to the first character that ends it.
pub open spec fn raw_mentions(cs: Seq<char>, i: int) -> Seq<Seq<char>>
    decreases cs.len() - i,
{
    if i < 0 || i >= cs.len() {
        Seq::<Seq<char>>::empty()
    } else if !mention_at(cs, i) {
        raw_mentions(cs, i + 1)
    } else {
        let j = mention_end(cs, i + 1);
        proof {
            lemma_mention_end(cs, i + 1);
        }
        if j > i + 1 {
            seq![clean_token(cs.subrange(i + 1, j))] + raw_mentions(cs, j)
        } else {
            raw_mentions(cs, j)
        }
    }
}

/// Keeps the first occurrence of each non-empty token.
pub open spec fn dedup_tokens(ts: Seq<Seq<char>>) -> Seq<Seq<char>>
    decreases ts.len(),
{
    if ts.len() == 0 {
        ts
    } else {
        let d = dedup_tokens(ts.drop_last());
        if ts.last().len() == 0 || d.contains(ts.last()) {
            d
        } else {
            d.push(ts.last())
        }
    }
}

/// The distinct mentions of a prompt, in order of first appearance.
pub open spec fn mentions(prompt: Seq<char>) -> Seq<Seq<char>> {
    dedup_tokens(raw_mentions(prompt, 0))
}

/// No character of the text ends a mention or is a `\`, and it does not
/// end with `.` or `:`.
pub open spec fn mention_clear(t: Seq<char>) -> bool {
    &&& forall|k: int| 0 <= k < t.len() ==> !ends_mention(#[trigger] t[k]) && t[k] != '\\'
    &&& t.len() > 0 ==> t.last() != '.' && t.last() != ':'
}

/// No character of the text ends a mention.
pub open spec fn raw_clear(t: Seq<char>) -> bool {
    forall|k: int| 0 <= k < t.len() ==> !ends_mention(#[trigger] t[k])
}

proof fn lemma_strip_end_marks_prefix(s: Seq<char>)
    ensures
        strip_end_marks(s).len() <= s.len(),
        forall|k: int| 0 <= k < strip_end_marks(s).len() ==> #[trigger] strip_end_marks(s)[k] == s[k],
        strip_end_marks(s).len() > 0 ==> strip_end_marks(s).last() != '.' && strip_end_marks(s).last() != ':',
    decreases s.len(),
{
    if s.len() > 0 && (s.last() == '.' || s.last() == ':') {
        lemma_strip_end_marks_prefix(s.drop_last());
    }
}

proof fn lemma_clean_token_clear(raw: Seq<char>)
    requires
        raw_clear(raw),
    ensures
        mention_clear(clean_token(raw)),
{
    lemma_strip_end_marks_prefix(raw);
    let t = strip_end_marks(raw);
    let c = clean_token(raw);
    assert forall|k: int| 0 <= k < c.len() implies !ends_mention(#[trigger] c[k]) && c[k] != '\\' by {
        assert(t[k] == raw[k]);
    }
    if c.len() > 0 {
        assert(c.last() == c[c.len() - 1]);
        assert(t.last() == t[t.len() - 1]);
    }
}

proof fn lemma_raw_mentions_clear(cs: Seq<char>, i: int)
    ensures
        forall|m: int| 0 <= m < raw_mentions(cs, i).len() ==> mention_clear(#[trigger] raw_mentions(cs, i)[m]),
    decreases cs.len() - i,
{
    if 0 <= i < cs.len() {
        if !mention_at(cs, i) {
            lemma_raw_mentions_clear(cs, i + 1);
            assert(raw_mentions(cs, i) == raw_mentions(cs, i + 1));
        } else {
            let j = mention_end(cs, i + 1);
            lemma_mention_end(cs, i + 1);
            lemma_raw_mentions_clear(cs, j);
            if j > i + 1 {
                let raw = cs.subrange(i + 1, j);
                assert forall|k: int| 0 <= k < raw.len() implies !ends_mention(#[trigger] raw[k]) by {
                    assert(raw[k] == cs[i + 1 + k]);
                }
                assert(raw_clear(raw));
                lemma_clean_token_clear(raw);
                let rest = raw_mentions(cs, j);
                let all = seq![clean_token(raw)] + rest;
                assert forall|m: int| 0 <= m < all.len() implies mention_clear(#[trigger] all[m]) by {
                    if m > 0 {
                        assert(all[m] == rest[m - 1]);
                    }
                }
                assert(raw_mentions(cs, i) == all);
            } else {
                assert(raw_mentions(cs, i) == raw_mentions(cs, j));
            }
        }
    }
}

proof fn lemma_dedup_from(ts: Seq<Seq<char>>, m: int)
    requires
        0 <= m < dedup_tokens(ts).len(),
    ensures
        ts.contains(dedup_tokens(ts)[m]),
    decreases ts.len(),
{
    let d = dedup_tokens(ts.drop_last());
    if ts.len() > 0 {
        if m < d.len() {
            lemma_dedup_from(ts.drop_last(), m);
            let j = choose|j: int| 0 <= j < ts.drop_last().len() && ts.drop_last()[j] == d[m];
            assert(ts[j] == d[m]);
        } else {
            assert(ts[ts.len() - 1] == dedup_tokens(ts)[m]);
        }
    }
}

proof fn lemma_dedup_nonempty(ts: Seq<Seq<char>>, m: int)
    requires
        0 <= m < dedup_tokens(ts).len(),
    ensures
        dedup_tokens(ts)[m].len() > 0,
    decreases ts.len(),
{
    let d = dedup_tokens(ts.drop_last());
    if ts.len() > 0 && m < d.len() {
        lemma_dedup_nonempty(ts.drop_last(), m);
    }
}

/// A mention stops at the first whitespace or at any of `) ] } , ; ! ? " '`:
/// no mention a prompt yields holds one of those characters, nor a `\`
/// (written `/`); none is empty or ends with `.` or `:`.
pub proof fn law_mentions_stop_at_closing_marks(prompt: Seq<char>)
    ensures
        forall|i: int, k: int|
            0 <= i < mentions(prompt).len() && 0 <= k < mentions(prompt)[i].len() ==> {
                let c = #[trigger] mentions(prompt)[i][k];
                &&& !is_ws(c)
                &&& c != ')' && c != ']' && c != '}' && c != ',' && c != ';'
                &&& c != '!' && c != '?' && c != '"' && c != '\'' && c != '\\'
            },
        forall|i: int|
            0 <= i < mentions(prompt).len() ==> (#[trigger] mentions(prompt)[i]).len() > 0
                && mentions(prompt)[i].last() != '.' && mentions(prompt)[i].last() != ':',
{
    let raw = raw_mentions(prompt, 0);
    lemma_raw_mentions_clear(prompt, 0);
    assert forall|i: int| 0 <= i < mentions(prompt).len() implies mention_clear(
        #[trigger] mentions(prompt)[i],
    ) && mentions(prompt)[i].len() > 0 by {
        lemma_dedup_from(raw, i);
        lemma_dedup_nonempty(raw, i);
        let j = choose|j: int| 0 <= j < raw.len() && raw[j] == mentions(prompt)[i];
        assert(mention_clear(raw[j]));
    }
    assert forall|i: int, k: int|
        0 <= i < mentions(prompt).len() && 0 <= k < mentions(prompt)[i].len() implies !ends_mention(
        #[trigger] mentions(prompt)[i][k],
    ) && mentions(prompt)[i][k] != '\\' by {
        assert(mention_clear(mentions(prompt)[i]));
    }
}

fn is_opening(c: char) -> (r: bool)
    ensures
        r == opens_mention(c),
{
    is_whitespace(c) || c == '(' || c == '[' || c == '{' || c == '"' || c == '\''
}

fn is_ending(c: char) -> (r: bool)
    ensures
        r == ends_mention(c),
{
    is_whitespace(c) || c == ')' || c == ']' || c == '}' || c == ',' || c == ';' || c == '!' || c
        == '?' || c == '"' || c == '\''
}

fn mention_end_index(cs: &Vec<char>, start: usize) -> (j: usize)
    requires
        start <= cs.len(),
    ensures
        j as int == mention_end(cs@, start as int),
{
    let mut j = start;
    while j < cs.len() && !is_ending(cs[j])
        invariant
            start <= j <= cs.len(),
            mention_end(cs@, start as int) == mention_end(cs@, j as int),
        decreases cs.len() - j,
    {
        j += 1;
    }
    j
}

fn strip_end_marks_vec(v: &Vec<char>) -> (r: Vec<char>)
    ensures
        r@ == strip_end_marks(v@),
{
    let mut b: usize = v.len();
    assert(v@.take(v.len() as int) =~= v@);
    while b > 0 && (v[b - 1] == '.' || v[b - 1] == ':')
        invariant
            b <= v.len(),
            strip_end_marks(v@) == strip_end_marks(v@.take(b as int)),
        decreases b,
    {
        assert(v@.take(b as int).drop_last() =~= v@.take(b - 1));
        b -= 1;
    }
    let r = slice_vec(v, 0, b);
    assert(v@.subrange(0, b as int) =~= v@.take(b as int));
    r
}

fn contains_token(out: &Vec<Vec<char>>, t: &Vec<char>) -> (r: bool)
    ensures
        r == views_v(out@).contains(t@),
{
    let mut k: usize = 0;
    while k < out.len()
        invariant
            k <= out.len(),
            forall|m: int| 0 <= m < k ==> out@[m]@ != t@,
        decreases out.len() - k,
    {
        if seq_eq(&out[k], t) {
            assert(views_v(out@)[k as int] == t@);
            return true;
        }
        k += 1;
    }
    proof {
        if views_v(out@).contains(t@) {
            let m = choose|m: int| 0 <= m < views_v(out@).len() && views_v(out@)[m] == t@;
            assert(out@[m]@ == t@);
        }
    }
    false
}

/// The distinct `@` mentions of a prompt, in order of first appearance.
pub fn extract_mentions(prompt: &str) -> (r: Vec<String>)
    ensures
        views(r@) == mentions(prompt@),
{
    let cs = chars_of(prompt);
    let len = cs.len();
    let mut out: Vec<Vec<char>> = Vec::new();
    let ghost mut consumed: Seq<Seq<char>> = Seq::empty();
    let mut i: usize = 0;
    while i < len
        invariant
            len == cs.len(),
            cs@ == prompt@,
            i <= len,
            raw_mentions(cs@, 0) == consumed + raw_mentions(cs@, i as int),
            views_v(out@) == dedup_tokens(consumed),
        decreases len - i,
    {
        if cs[i] != '@' {
            i += 1;
            continue;
        }
        let boundary_ok = i == 0 || is_opening(cs[i - 1]);
        if !boundary_ok {
            i += 1;
            continue;
        }
        let j = mention_end_index(&cs, i + 1);
        proof {
            lemma_mention_end(cs@, i + 1);
        }
        if j > i + 1 {
            let raw = slice_vec(&cs, i + 1, j);
            let token = replace_char_vec(&strip_end_marks_vec(&raw), '\\', '/');
            let ghost prev = consumed;
            proof {
                consumed = consumed.push(token@);
                assert(prev + raw_mentions(cs@, i as int) =~= consumed + raw_mentions(cs@, j as int));
                assert(consumed.drop_last() =~= prev);
            }
            if token.len() > 0 && !contains_token(&out, &token) {
                out.push(token);
                assert(views_v(out@) =~= dedup_tokens(prev).push(token@));
            }
        }
        i = j;
    }
    assert(consumed + raw_mentions(cs@, len as int) =~= consumed);
    let mut res: Vec<String> = Vec::new();
    let mut k: usize = 0;
    while k < out.len()
        invariant
            k <= out.len(),
            res@.len() == k,
            forall|m: int| 0 <= m < k ==> #[trigger] res@[m]@ == out@[m]@,
        decreases out.len() - k,
    {
        res.push(string_of(&out[k]));
        k += 1;
    }
    assert(views(res@) =~= views_v(out@));
    res
}

// ---------------------------------------------------------------------------
// Skill mentions
// ---------------------------------------------------------------------------

pub open spec fn skill_matches(s: WorkspaceSkillView, needle: Seq<char>) -> bool {
    lower(s.id) == needle || lower(s.name) == needle
}

/// The first index at or after `i` of a skill whose lower-cased id or name
/// is `needle`, or -1.
pub open spec fn first_skill_from(ss: Seq<WorkspaceSkillView>, needle: Seq<char>, i: int) -> int
    decreases ss.len() - i,
{
    if i < 0 || i >= ss.len() {
        -1
    } else if skill_matches(ss[i], needle) {
        i
    } else {
        first_skill_from(ss, needle, i + 1)
    }
}

pub proof fn lemma_first_skill_from(ss: Seq<WorkspaceSkillView>, needle: Seq<char>, i: int)
    requires
        0 <= i,
    ensures
        first_skill_from(ss, needle, i) == -1 || (i <= first_skill_from(ss, needle, i) < ss.len()),
    decreases ss.len() - i,
{
    if i < ss.len() && !skill_matches(ss[i], needle) {
        lemma_first_skill_from(ss, needle, i + 1);
    }
}

/// The section for `@skill:<skill_ref>`: the first skill whose id or name
/// equals the reference, trimmed, ignoring ASCII case.
pub open spec fn skill_reference(skill_ref: Seq<char>, ss: Seq<WorkspaceSkillView>) -> Option<Seq<char>> {
    let needle = lower(trim(skill_ref));
    let k = first_skill_from(ss, needle, 0);
    if needle.len() == 0 || k < 0 {
        None
    } else {
        Some(
            "Reference `@skill:"@ + ss[k].id + "` (workspace skill):\n\n## "@ + ss[k].name + "\n\n"@
                + ss[k].content,
        )
    }
}

/// The section for a skill mention, when a skill matches it.
pub fn resolve_skill_reference(skill_ref: &str, skills: &Vec<WorkspaceSkill>) -> (r: Option<String>)
    ensures
        crate::text::opt_view(r) == skill_reference(skill_ref@, item_views(skills@)),
{
    let ghost ss = item_views(skills@);
    let needle = lower_vec(&trimmed(skill_ref));
    if needle.len() == 0 {
        return None;
    }
    let mut i: usize = 0;
    proof {
        lemma_first_skill_from(ss, needle@, 0);
    }
    while i < skills.len()
        invariant
            i <= skills.len(),
            ss == item_views(skills@),
            needle@ == lower(trim(skill_ref@)),
            needle@.len() > 0,
            first_skill_from(ss, needle@, 0) == first_skill_from(ss, needle@, i as int),
        decreases skills.len() - i,
    {
        let s = &skills[i];
        assert(ss[i as int] == s@);
        let id = lower_vec(&chars_of(s.id.as_str()));
        let name = lower_vec(&chars_of(s.name.as_str()));
        if seq_eq(&id, &needle) || seq_eq(&name, &needle) {
            let mut out = chars_of("Reference `@skill:");
            append_str(&mut out, s.id.as_str());
            append_str(&mut out, "` (workspace skill):\n\n## ");
            append_str(&mut out, s.name.as_str());
            append_str(&mut out, "\n\n");
            append_str(&mut out, s.content.as_str());
            assert(skill_matches(ss[i as int], needle@));
            assert(first_skill_from(ss, needle@, i as int) == i);
            assert(out@ =~= skill_reference(skill_ref@, ss)->0);
            return Some(string_of(&out));
        }
        i += 1;
    }
    None
}

// ---------------------------------------------------------------------------
// Path mentions
// ---------------------------------------------------------------------------

/// The workspace-relative path a mention names: trimmed, without leading
/// `./`, without leading or trailing `/`.  `None` when nothing is left.
pub open spec fn reference_path_of(token: Seq<char>) -> Option<Seq<char>> {
    let rel = trim_matches(strip_prefix_all(trim(token), "./"@), '/');
    if rel.len() == 0 {
        None
    } else {
        Some(rel)
    }
}

pub fn reference_path(token: &str) -> (r: Option<String>)
    ensures
        crate::text::opt_view(r) == reference_path_of(token@),
{
    let t = trimmed(token);
    let rel = trim_matches_vec(&strip_prefix_all_vec(&t, &chars_of("./")), '/');
    if rel.len() == 0 {
        None
    } else {
        Some(string_of(&rel))
    }
}

/// A file's text, cut after the first `MAX_FILE_CHARS` characters with a
/// marker when longer.
pub open spec fn file_excerpt(content: Seq<char>) -> Seq<char> {
    if content.len() > MAX_FILE_CHARS {
        content.take(MAX_FILE_CHARS as int) + "\n\n...[truncated]"@
    } else {
        content
    }
}

pub open spec fn file_reference(rel: Seq<char>, content: Seq<char>) -> Seq<char> {
    "Reference `"@ + rel + "` (file):\n```text\n"@ + file_excerpt(content) + "\n```"@
}

/// The section for a mentioned file with the given text.
pub fn file_reference_section(rel: &str, content: &str) -> (r: String)
    ensures
        r@ == file_reference(rel@, content@),
{
    let c = chars_of(content);
    let mut out = chars_of("Reference `");
    append_str(&mut out, rel);
    append_str(&mut out, "` (file):\n```text\n");
    if c.len() > MAX_FILE_CHARS {
        let head = slice_vec(&c, 0, MAX_FILE_CHARS);
        assert(c@.subrange(0, MAX_FILE_CHARS as int) =~= c@.take(MAX_FILE_CHARS as int));
        append_vec(&mut out, &head);
        append_str(&mut out, "\n\n...[truncated]");
    } else {
        append_vec(&mut out, &c);
    }
    append_str(&mut out, "\n```");
    assert(out@ =~= file_reference(rel@, content@));
    string_of(&out)
}

pub open spec fn bullets(es: Seq<Seq<char>>) -> Seq<Seq<char>> {
    Seq::new(es.len(), |i: int| "- "@ + es[i])
}

/// The entries shown for a directory, at most `MAX_DIR_ENTRIES` of them.
pub open spec fn shown_entries(entries: Seq<Seq<char>>) -> Seq<Seq<char>> {
    if entries.len() >= MAX_DIR_ENTRIES {
        entries.take(MAX_DIR_ENTRIES as int)
    } else {
        entries
    }
}

/// A directory section lists its entries as bullets; a listing that reached
/// the limit is marked as cut.
pub open spec fn directory_reference(rel: Seq<char>, entries: Seq<Seq<char>>) -> Seq<char> {
    let shown = shown_entries(entries);
    let listing = if shown.len() == 0 {
        "(empty directory)"@
    } else {
        join(bullets(shown), "\n"@)
    };
    let suffix = if entries.len() >= MAX_DIR_ENTRIES {
        "\n- ...[truncated]"@
    } else {
        Seq::<char>::empty()
    };
    "Reference `"@ + rel + "` (directory):\n"@ + listing + suffix
}

/// The section for a mentioned directory with the given entries.
pub fn directory_reference_section(rel: &str, entries: &Vec<String>) -> (r: String)
    ensures
        r@ == directory_reference(rel@, views(entries@)),
{
    let ghost ev = views(entries@);
    let truncated = entries.len() >= MAX_DIR_ENTRIES;
    let n = if truncated {
        MAX_DIR_ENTRIES
    } else {
        entries.len()
    };
    let mut lines: Vec<Vec<char>> = Vec::new();
    let mut i: usize = 0;
    while i < n
        invariant
            i <= n <= entries.len(),
            ev == views(entries@),
            lines@.len() == i,
            forall|k: int| 0 <= k < i ==> #[trigger] lines@[k]@ == "- "@ + ev[k],
        decreases n - i,
    {
        let mut l = chars_of("- ");
        append_str(&mut l, entries[i].as_str());
        lines.push(l);
        i += 1;
    }
    assert(views_v(lines@) =~= bullets(shown_entries(ev)));
    let mut out = chars_of("Reference `");
    append_str(&mut out, rel);
    append_str(&mut out, "` (directory):\n");
    if n == 0 {
        append_str(&mut out, "(empty directory)");
    } else {
        let listing = join_vec(&lines, &chars_of("\n"));
        append_vec(&mut out, &listing);
    }
    if truncated {
        append_str(&mut out, "\n- ...[truncated]");
    }
    assert(out@ =~= directory_reference(rel@, ev));
    string_of(&out)
}

// ---------------------------------------------------------------------------
// Expansion
// ---------------------------------------------------------------------------

/// What the caller found for a path mention: the mention's token, the
/// canonical path it resolved to, and the section rendered for that path.
#[derive(Debug)]
pub struct PathReference {
    pub token: String,
    pub resolved: String,
    pub section: String,
}

pub struct PathReferenceView {
    pub token: Seq<char>,
    pub resolved: Seq<char>,
    pub section: Seq<char>,
}

impl View for PathReference {
    type V = PathReferenceView;

    open spec fn view(&self) -> PathReferenceView {
        PathReferenceView { token: self.token@, resolved: self.resolved@, section: self.section@ }
    }
}

/// The section for a path mention: that of the first entry with its token,
/// and only where the entry's resolved path lies inside the workspace root.
pub open spec fn lookup_section(paths: Seq<PathReferenceView>, root: Seq<char>, token: Seq<char>) -> Option<Seq<char>>
    decreases paths.len(),
{
    if paths.len() == 0 {
        None
    } else if paths[0].token == token {
        if path_within(paths[0].resolved, root) {
            Some(paths[0].section)
        } else {
            None
        }
    } else {
        lookup_section(paths.drop_first(), root, token)
    }
}

pub open spec fn path_views(v: Seq<PathReference>) -> Seq<PathReferenceView> {
    Seq::new(v.len(), |i: int| v[i]@)
}

/// A mention resolves to a skill section (`skill:` prefix) or to the
/// section found for its path.
pub open spec fn reference_section(
    token: Seq<char>,
    ss: Seq<WorkspaceSkillView>,
    root: Seq<char>,
    paths: Seq<PathReferenceView>,
) -> Option<Seq<char>> {
    if starts_with(token, "skill:"@) {
        skill_reference(token.skip(6), ss)
    } else {
        lookup_section(paths, root, token)
    }
}

pub open spec fn sections_of(
    tokens: Seq<Seq<char>>,
    ss: Seq<WorkspaceSkillView>,
    root: Seq<char>,
    paths: Seq<PathReferenceView>,
) -> Seq<Seq<char>>
    decreases tokens.len(),
{
    if tokens.len() == 0 {
        Seq::<Seq<char>>::empty()
    } else {
        let init = sections_of(tokens.drop_last(), ss, root, paths);
        match reference_section(tokens.last(), ss, root, paths) {
            Some(x) => init.push(x),
            None => init,
        }
    }
}

/// The prompt with a references section appended for its resolved
/// mentions; the prompt itself when none resolves.
pub open spec fn expanded_prompt(
    prompt: Seq<char>,
    ss: Seq<WorkspaceSkillView>,
    root: Seq<char>,
    paths: Seq<PathReferenceView>,
) -> Seq<char> {
    let secs = sections_of(mentions(prompt), ss, root, paths);
    if secs.len() == 0 {
        prompt
    } else {
        prompt + "\n\n# Workspace References\n\n"@ + join(secs, "\n\n---\n\n"@)
            + "\n\nUse these references as authoritative workspace context when relevant."@
    }
}

fn lookup_path_section(paths: &Vec<PathReference>, root: &str, token: &Vec<char>) -> (r: Option<String>)
    ensures
        crate::text::opt_view(r) == lookup_section(path_views(paths@), root@, token@),
{
    let ghost ps = path_views(paths@);
    let mut i: usize = 0;
    assert(ps.skip(0) =~= ps);
    while i < paths.len()
        invariant
            i <= paths.len(),
            ps == path_views(paths@),
            lookup_section(ps, root@, token@) == lookup_section(ps.skip(i as int), root@, token@),
        decreases paths.len() - i,
    {
        assert(ps.skip(i as int).drop_first() =~= ps.skip(i + 1));
        let k = chars_of(paths[i].token.as_str());
        if seq_eq(&k, token) {
            if is_within_dir(paths[i].resolved.as_str(), root) {
                return Some(paths[i].section.clone());
            } else {
                return None;
            }
        }
        i += 1;
    }
    assert(ps.skip(paths.len() as int) =~= Seq::<PathReferenceView>::empty());
    None
}

/// Path mentions that all resolved outside the workspace add nothing: the
/// prompt expands as if no path had been found.
pub proof fn law_outside_paths_add_nothing(
    prompt: Seq<char>,
    ss: Seq<WorkspaceSkillView>,
    root: Seq<char>,
    paths: Seq<PathReferenceView>,
)
    requires
        forall|i: int| 0 <= i < paths.len() ==> !path_within(#[trigger] paths[i].resolved, root),
    ensures
        expanded_prompt(prompt, ss, root, paths) == expanded_prompt(prompt, ss, root, Seq::empty()),
{
    lemma_sections_without_paths(mentions(prompt), ss, root, paths);
}

proof fn lemma_lookup_outside(paths: Seq<PathReferenceView>, root: Seq<char>, token: Seq<char>)
    requires
        forall|i: int| 0 <= i < paths.len() ==> !path_within(#[trigger] paths[i].resolved, root),
    ensures
        lookup_section(paths, root, token) == None::<Seq<char>>,
    decreases paths.len(),
{
    if paths.len() > 0 && paths[0].token != token {
        let rest = paths.drop_first();
        assert forall|i: int| 0 <= i < rest.len() implies !path_within(#[trigger] rest[i].resolved, root) by {
            assert(rest[i] == paths[i + 1]);
        }
        lemma_lookup_outside(rest, root, token);
    }
}

proof fn lemma_sections_without_paths(
    tokens: Seq<Seq<char>>,
    ss: Seq<WorkspaceSkillView>,
    root: Seq<char>,
    paths: Seq<PathReferenceView>,
)
    requires
        forall|i: int| 0 <= i < paths.len() ==> !path_within(#[trigger] paths[i].resolved, root),
    ensures
        sections_of(tokens, ss, root, paths) == sections_of(tokens, ss, root, Seq::empty()),
    decreases tokens.len(),
{
    if tokens.len() > 0 {
        lemma_sections_without_paths(tokens.drop_last(), ss, root, paths);
        lemma_lookup_outside(paths, root, tokens.last());
    }
}

/// Appends a references section for the prompt's mentions: skill mentions
/// resolve against `skills`; a path mention resolves to the section of the
/// entry of `paths` with its token, only where that entry's canonical path
/// lies inside the canonical `workspace_root`.  Mentions that resolve to
/// nothing are left out.
pub fn expand_prompt_references(
    prompt: &str,
    skills: &Vec<WorkspaceSkill>,
    workspace_root: &str,
    paths: &Vec<PathReference>,
) -> (r: String)
    ensures
        r@ == expanded_prompt(prompt@, item_views(skills@), workspace_root@, path_views(paths@)),
{
    let ghost ss = item_views(skills@);
    let ghost ps = path_views(paths@);
    let refs = extract_mentions(prompt);
    let ghost tv = views(refs@);
    let mut secs: Vec<Vec<char>> = Vec::new();
    let mut i: usize = 0;
    assert(tv.take(0) =~= Seq::<Seq<char>>::empty());
    while i < refs.len()
        invariant
            i <= refs.len(),
            tv == views(refs@),
            ss == item_views(skills@),
            ps == path_views(paths@),
            views_v(secs@) == sections_of(tv.take(i as int), ss, workspace_root@, ps),
        decreases refs.len() - i,
    {
        assert(tv.take(i + 1).drop_last() =~= tv.take(i as int));
        assert(tv.take(i + 1).last() == refs@[i as int]@);
        let token = chars_of(refs[i].as_str());
        let prefix = chars_of("skill:");
        proof {
            reveal_strlit("skill:");
        }
        let found = if starts_with_vec(&token, &prefix) {
            let rest = slice_vec(&token, 6, token.len());
            assert(token@.subrange(6, token@.len() as int) =~= token@.skip(6));
            let rs = string_of(&rest);
            resolve_skill_reference(rs.as_str(), skills)
        } else {
            lookup_path_section(paths, workspace_root, &token)
        };
        match found {
            Some(sec) => {
                secs.push(chars_of(sec.as_str()));
            },
            None => {},
        }
        i += 1;
    }
    assert(tv.take(refs.len() as int) =~= tv);
    if secs.len() == 0 {
        return String::from_str(prompt);
    }
    let mut out = chars_of(prompt);
    append_str(&mut out, "\n\n# Workspace References\n\n");
    append_vec(&mut out, &join_vec(&secs, &chars_of("\n\n---\n\n")));
    append_str(&mut out, "\n\nUse these references as authoritative workspace context when relevant.");
    string_of(&out)
}

} // verus!
