//! Agent presets: markdown files whose frontmatter configures an agent.
//!
//! Finding and reading the files is the caller's business; this module
//! parses their text and answers questions about the presets.
use vstd::prelude::*;

use crate::listing::{first_by_id_sorted, first_listing, item_views, Listed};
use crate::markdown::{frontmatter_parts, frontmatter_parts_vec};
use crate::text::{
    float_text, in_class, is_float_text, is_ws, lemma_split_by_len, lemma_trim_end_len, lemma_trim_start_len,
    append_str, append_vec, chars_of, copy_vec, decimal, decimal_vec, drop_empty, drop_empty_vec,
    find, find_vec, is_alnum, is_ascii_alphanumeric, join, join_vec, lemma_find, lines, lines_vec,
    lit, lower, lower_vec, map_trim, map_trim_vec, parse_unsigned, parse_unsigned_vec, seq_eq,
    slice_vec, split_by, split_once, split_once_vec, split_vec, starts_with, starts_with_vec,
    copy_string, copy_strings, string_of, strings_of, title_words, title_words_vec, trim, trim_end, trim_end_vec, trim_start,
    trim_start_vec, trim_vec, views, views_v, CharClass,
};

verus! {

// ---------------------------------------------------------------------------
// Types
// ---------------------------------------------------------------------------

/// Primary agents can be selected for tasks; subagents can be delegated to.
#[derive(PartialEq, Eq, Structural, Clone, Copy, Debug)]
pub enum AgentMode {
    Subagent,
    Primary,
}

impl Default for AgentMode {
    fn default() -> (r: AgentMode)
        ensures
            r == AgentMode::Subagent,
    {
        AgentMode::Subagent
    }
}

/// A tool permission: inherited, or explicitly allowed or denied.
#[derive(PartialEq, Eq, Structural, Clone, Copy, Debug)]
pub enum ToolPermission {
    Inherit,
    Bool(bool),
}

/// Tool name to permission, each name once, in order of first insertion.
#[derive(Debug)]
pub struct ToolMap {
    entries: Vec<(String, ToolPermission)>,
}

pub open spec fn assoc_view(v: Seq<(String, ToolPermission)>) -> Seq<(Seq<char>, ToolPermission)> {
    Seq::new(v.len(), |i: int| (v[i].0@, v[i].1))
}

/// The first index at or after `i` whose key is `k`, or -1.
pub open spec fn assoc_index_from(s: Seq<(Seq<char>, ToolPermission)>, k: Seq<char>, i: int) -> int
    decreases s.len() - i,
{
    if i < 0 || i >= s.len() {
        -1
    } else if s[i].0 == k {
        i
    } else {
        assoc_index_from(s, k, i + 1)
    }
}

pub open spec fn assoc_get(s: Seq<(Seq<char>, ToolPermission)>, k: Seq<char>) -> Option<ToolPermission> {
    let i = assoc_index_from(s, k, 0);
    if i >= 0 {
        Some(s[i].1)
    } else {
        None
    }
}

/// `HashMap::insert`: replaces the value of `k`, or appends `(k, v)`.
pub open spec fn assoc_insert(s: Seq<(Seq<char>, ToolPermission)>, k: Seq<char>, v: ToolPermission) -> Seq<(Seq<char>, ToolPermission)> {
    let i = assoc_index_from(s, k, 0);
    if i >= 0 {
        s.update(i, (k, v))
    } else {
        s.push((k, v))
    }
}

/// No key occurs twice.
pub open spec fn keys_distinct(s: Seq<(Seq<char>, ToolPermission)>) -> bool {
    forall|i: int, j: int|
        0 <= i < s.len() && 0 <= j < s.len() && i != j ==> (#[trigger] s[i]).0 != (#[trigger] s[j]).0
}

pub proof fn lemma_assoc_index_from(s: Seq<(Seq<char>, ToolPermission)>, k: Seq<char>, i: int)
    requires
        0 <= i,
    ensures
        assoc_index_from(s, k, i) == -1 || (i <= assoc_index_from(s, k, i) < s.len() && s[assoc_index_from(s, k, i)].0 == k),
    decreases s.len() - i,
{
    if i < s.len() && s[i].0 != k {
        lemma_assoc_index_from(s, k, i + 1);
    }
}

fn index_in(entries: &Vec<(String, ToolPermission)>, k: &Vec<char>) -> (r: Option<usize>)
    ensures
        match r {
            Some(i) => i as int == assoc_index_from(assoc_view(entries@), k@, 0),
            None => assoc_index_from(assoc_view(entries@), k@, 0) == -1,
        },
{
    let ghost s = assoc_view(entries@);
    let mut i: usize = 0;
    while i < entries.len()
        invariant
            i <= entries.len(),
            s == assoc_view(entries@),
            assoc_index_from(s, k@, 0) == assoc_index_from(s, k@, i as int),
        decreases entries.len() - i,
    {
        let e = chars_of(entries[i].0.as_str());
        assert(s[i as int].0 == entries@[i as int].0@);
        if seq_eq(&e, k) {
            return Some(i);
        }
        i += 1;
    }
    None
}

/// A key that no entry at or after `i` has.
proof fn lemma_absent_key_from(s: Seq<(Seq<char>, ToolPermission)>, k: Seq<char>, i: int)
    requires
        0 <= i,
        assoc_index_from(s, k, i) == -1,
    ensures
        forall|j: int| i <= j < s.len() ==> (#[trigger] s[j]).0 != k,
    decreases s.len() - i,
{
    if i < s.len() {
        lemma_absent_key_from(s, k, i + 1);
    }
}

/// Appending a key that is absent keeps keys distinct.
proof fn lemma_absent_key(s: Seq<(Seq<char>, ToolPermission)>, k: Seq<char>)
    requires
        assoc_index_from(s, k, 0) == -1,
    ensures
        forall|j: int| 0 <= j < s.len() ==> (#[trigger] s[j]).0 != k,
{
    lemma_absent_key_from(s, k, 0);
}

impl View for ToolMap {
    type V = Seq<(Seq<char>, ToolPermission)>;

    closed spec fn view(&self) -> Seq<(Seq<char>, ToolPermission)> {
        assoc_view(self.entries@)
    }
}

impl ToolMap {
    /// Each tool name occurs once.
    #[verifier::type_invariant]
    spec fn inv(&self) -> bool {
        keys_distinct(assoc_view(self.entries@))
    }

    pub fn new() -> (r: ToolMap)
        ensures
            r@ == Seq::<(Seq<char>, ToolPermission)>::empty(),
            keys_distinct(r@),
    {
        let r = ToolMap { entries: Vec::new() };
        assert(r@ =~= Seq::<(Seq<char>, ToolPermission)>::empty());
        r
    }

    pub fn len(&self) -> (r: usize)
        ensures
            r == self@.len(),
    {
        self.entries.len()
    }

    pub fn get(&self, k: &Vec<char>) -> (r: Option<ToolPermission>)
        ensures
            r == assoc_get(self@, k@),
    {
        proof {
            lemma_assoc_index_from(self@, k@, 0);
        }
        match index_in(&self.entries, k) {
            Some(i) => Some(self.entries[i].1),
            None => None,
        }
    }

    pub fn insert(&mut self, k: &Vec<char>, v: ToolPermission)
        ensures
            final(self)@ == assoc_insert(old(self)@, k@, v),
            keys_distinct(final(self)@),
    {
        proof {
            use_type_invariant(&*self);
            lemma_assoc_index_from(self@, k@, 0);
        }
        let ghost s0 = self@;
        let mut entries: Vec<(String, ToolPermission)> = Vec::new();
        std::mem::swap(&mut entries, &mut self.entries);
        assert(assoc_view(entries@) == s0);
        match index_in(&entries, k) {
            Some(i) => {
                entries.set(i, (string_of(k), v));
                assert(assoc_view(entries@) =~= assoc_insert(s0, k@, v));
            },
            None => {
                entries.push((string_of(k), v));
                assert(assoc_view(entries@) =~= assoc_insert(s0, k@, v));
                proof {
                    lemma_absent_key(s0, k@);
                }
            },
        }
        assert(keys_distinct(assoc_view(entries@)));
        self.entries = entries;
    }

    /// The entries, in order.
    pub fn entries(&self) -> (r: &Vec<(String, ToolPermission)>)
        ensures
            assoc_view(r@) == self@,
            keys_distinct(self@),
    {
        proof {
            use_type_invariant(self);
        }
        &self.entries
    }
}

/// Permission overrides for tool categories.
#[derive(Debug)]
pub struct PermissionConfig {
    pub edit: Option<ToolPermission>,
    pub bash: Option<ToolPermission>,
    pub write: Option<ToolPermission>,
    pub webfetch: Option<ToolPermission>,
    pub skill: Option<Vec<(String, String)>>,
}

/// A discovered agent preset.
///
/// `temperature` is the value as written in the frontmatter, text that
/// `f32::from_str` accepts; the caller reads it as a float and checks its
/// range.
#[derive(Debug)]
pub struct AgentPreset {
    pub id: String,
    pub name: String,
    pub description: String,
    pub mode: AgentMode,
    pub model: Option<String>,
    pub temperature: Option<String>,
    pub steps: Option<u32>,
    pub tools: Option<ToolMap>,
    pub permission: Option<PermissionConfig>,
    pub prompt: String,
    pub tags: Vec<String>,
    pub file_path: String,
    pub source: String,
    pub enabled: bool,
    pub validation_issues: Vec<String>,
}

// ---------------------------------------------------------------------------
// Permissions
// ---------------------------------------------------------------------------

pub open spec fn is_allow(p: Option<ToolPermission>) -> Option<bool> {
    match p {
        Some(t) => Some(t == ToolPermission::Bool(true)),
        None => None,
    }
}

/// What the permission overrides say of a tool, if anything.
pub open spec fn override_for(perm: Option<PermissionConfig>, tool: Seq<char>) -> Option<bool> {
    match perm {
        Some(p) => if tool == "fs.write"@ || tool == "edit"@ {
            is_allow(if p.edit is Some { p.edit } else { p.write })
        } else if tool == "cmd.exec"@ || tool == "bash"@ {
            is_allow(p.bash)
        } else if tool == "webfetch"@ {
            is_allow(p.webfetch)
        } else {
            None
        },
        None => None,
    }
}

/// Whether a preset may use a tool: an explicit tool entry decides first,
/// then the permission overrides; otherwise primary agents may and
/// subagents may not.
pub open spec fn tool_allowed_spec(tools: Option<Seq<(Seq<char>, ToolPermission)>>, perm: Option<PermissionConfig>, mode: AgentMode, tool: Seq<char>) -> bool {
    let explicit = match tools {
        Some(t) => assoc_get(t, tool),
        None => None,
    };
    if explicit == Some(ToolPermission::Bool(false)) {
        false
    } else if explicit == Some(ToolPermission::Bool(true)) {
        true
    } else if override_for(perm, tool) is Some {
        override_for(perm, tool)->0
    } else {
        mode == AgentMode::Primary
    }
}

/// The entry a preset's tool map has for a tool, if any.
pub open spec fn tool_entry(tools: Option<Seq<(Seq<char>, ToolPermission)>>, tool: Seq<char>) -> Option<ToolPermission> {
    match tools {
        Some(t) => assoc_get(t, tool),
        None => None,
    }
}

/// An explicit `true` or `false` in the tool map decides, whatever the
/// overrides and the mode say.
pub proof fn law_tool_entry_decides(
    tools: Option<Seq<(Seq<char>, ToolPermission)>>,
    perm: Option<PermissionConfig>,
    mode: AgentMode,
    tool: Seq<char>,
    b: bool,
)
    requires
        tool_entry(tools, tool) == Some(ToolPermission::Bool(b)),
    ensures
        tool_allowed_spec(tools, perm, mode, tool) == b,
{
}

/// Without an explicit `true` or `false` for the tool, the permission
/// overrides decide: `bash` for `bash` and `cmd.exec`, `edit` (else `write`)
/// for `edit` and `fs.write`, `webfetch` for `webfetch`, each allowing only
/// when it is `true`; where none applies, primary agents may use the tool
/// and subagents may not.
pub proof fn law_tool_overrides(
    tools: Option<Seq<(Seq<char>, ToolPermission)>>,
    perm: Option<PermissionConfig>,
    mode: AgentMode,
    tool: Seq<char>,
)
    requires
        tool_entry(tools, tool) != Some(ToolPermission::Bool(true)),
        tool_entry(tools, tool) != Some(ToolPermission::Bool(false)),
    ensures
        (tool == "bash"@ || tool == "cmd.exec"@) ==> tool_allowed_spec(tools, perm, mode, tool) == match perm {
            Some(p) => match p.bash {
                Some(v) => v == ToolPermission::Bool(true),
                None => mode == AgentMode::Primary,
            },
            None => mode == AgentMode::Primary,
        },
        (tool == "edit"@ || tool == "fs.write"@) ==> tool_allowed_spec(tools, perm, mode, tool) == match perm {
            Some(p) => match (p.edit, p.write) {
                (Some(v), _) => v == ToolPermission::Bool(true),
                (None, Some(v)) => v == ToolPermission::Bool(true),
                (None, None) => mode == AgentMode::Primary,
            },
            None => mode == AgentMode::Primary,
        },
        tool == "webfetch"@ ==> tool_allowed_spec(tools, perm, mode, tool) == match perm {
            Some(p) => match p.webfetch {
                Some(v) => v == ToolPermission::Bool(true),
                None => mode == AgentMode::Primary,
            },
            None => mode == AgentMode::Primary,
        },
        (tool != "bash"@ && tool != "cmd.exec"@ && tool != "edit"@ && tool != "fs.write"@ && tool
            != "webfetch"@) ==> tool_allowed_spec(tools, perm, mode, tool) == (mode == AgentMode::Primary),
{
    reveal_strlit("bash");
    reveal_strlit("cmd.exec");
    reveal_strlit("edit");
    reveal_strlit("fs.write");
    reveal_strlit("webfetch");
    assert("bash"@[0] != "edit"@[0] && "bash"@[0] != "fs.write"@[0]);
    assert("cmd.exec"@[0] != "edit"@[0] && "cmd.exec"@[0] != "fs.write"@[0]);
    assert("webfetch"@[0] != "edit"@[0] && "webfetch"@[0] != "fs.write"@[0]);
    assert("webfetch"@[0] != "bash"@[0] && "webfetch"@[0] != "cmd.exec"@[0]);
}

pub open spec fn tools_view(t: Option<ToolMap>) -> Option<Seq<(Seq<char>, ToolPermission)>> {
    match t {
        Some(m) => Some(m@),
        None => None,
    }
}

fn is_lit(v: &Vec<char>, s: &str) -> (r: bool)
    ensures
        r == (v@ == s@),
{
    let c = chars_of(s);
    seq_eq(v, &c)
}

fn allow_of(p: Option<ToolPermission>) -> (r: Option<bool>)
    ensures
        r == is_allow(p),
{
    match p {
        Some(t) => Some(t == ToolPermission::Bool(true)),
        None => None,
    }
}

impl AgentPreset {
    /// The effective permission of this preset for a tool.
    pub fn tool_allowed(&self, tool_name: &str) -> (r: bool)
        ensures
            r == tool_allowed_spec(tools_view(self.tools), self.permission, self.mode, tool_name@),
    {
        let name = chars_of(tool_name);
        if let Some(tools) = &self.tools {
            match tools.get(&name) {
                Some(ToolPermission::Bool(false)) => return false,
                Some(ToolPermission::Bool(true)) => return true,
                _ => {},
            }
        }
        if let Some(perm) = &self.permission {
            let allowed = if is_lit(&name, "fs.write") || is_lit(&name, "edit") {
                allow_of(if perm.edit.is_some() { perm.edit } else { perm.write })
            } else if is_lit(&name, "cmd.exec") || is_lit(&name, "bash") {
                allow_of(perm.bash)
            } else if is_lit(&name, "webfetch") {
                allow_of(perm.webfetch)
            } else {
                None
            };
            if let Some(a) = allowed {
                return a;
            }
        }
        self.mode == AgentMode::Primary
    }

    /// A one-line summary of the preset's constraints.
    pub fn constraints_summary(&self) -> (r: String)
        ensures
            r@ == constraints_summary_spec(self.steps, self.mode, tools_view(self.tools)),
    {
        let mut parts: Vec<Vec<char>> = Vec::new();
        let ghost p0 = parts@;
        if let Some(steps) = self.steps {
            let mut s = chars_of("max ");
            append_vec(&mut s, &decimal_vec(steps as u64));
            append_str(&mut s, " steps");
            parts.push(s);
        }
        if self.mode == AgentMode::Subagent {
            parts.push(chars_of("subagent mode"));
        }
        let denied: Vec<Vec<char>> = match &self.tools {
            Some(t) => denied_vec(t),
            None => {
                let e: Vec<Vec<char>> = Vec::new();
                assert(views_v(e@) =~= Seq::<Seq<char>>::empty());
                e
            },
        };
        if denied.len() > 0 {
            let mut s = chars_of("no ");
            append_vec(&mut s, &join_vec(&denied, &chars_of(", ")));
            parts.push(s);
        }
        assert(views_v(parts@) =~= summary_parts(self.steps, self.mode, tools_view(self.tools)));
        if parts.len() == 0 {
            lit("default constraints")
        } else {
            string_of(&join_vec(&parts, &chars_of(" | ")))
        }
    }
}

/// The tools an association list denies, in order.
pub open spec fn denied_names(s: Seq<(Seq<char>, ToolPermission)>) -> Seq<Seq<char>>
    decreases s.len(),
{
    if s.len() == 0 {
        Seq::<Seq<char>>::empty()
    } else if s.last().1 == ToolPermission::Bool(false) {
        denied_names(s.drop_last()).push(s.last().0)
    } else {
        denied_names(s.drop_last())
    }
}

fn denied_vec(t: &ToolMap) -> (r: Vec<Vec<char>>)
    ensures
        views_v(r@) == denied_names(t@),
{
    let es = t.entries();
    let mut out: Vec<Vec<char>> = Vec::new();
    let mut i: usize = 0;
    assert(assoc_view(es@).take(0) =~= Seq::<(Seq<char>, ToolPermission)>::empty());
    while i < es.len()
        invariant
            i <= es.len(),
            assoc_view(es@) == t@,
            views_v(out@) =~= denied_names(assoc_view(es@).take(i as int)),
        decreases es.len() - i,
    {
        assert(assoc_view(es@).take(i + 1).drop_last() =~= assoc_view(es@).take(i as int));
        if es[i].1 == ToolPermission::Bool(false) {
            out.push(chars_of(es[i].0.as_str()));
        }
        i += 1;
    }
    assert(assoc_view(es@).take(es.len() as int) =~= assoc_view(es@));
    out
}

pub open spec fn summary_parts(steps: Option<u32>, mode: AgentMode, tools: Option<Seq<(Seq<char>, ToolPermission)>>) -> Seq<Seq<char>> {
    let a = match steps {
        Some(s) => seq!["max "@ + decimal(s as nat) + " steps"@],
        None => Seq::<Seq<char>>::empty(),
    };
    let b = if mode == AgentMode::Subagent { a.push("subagent mode"@) } else { a };
    let denied = match tools {
        Some(t) => denied_names(t),
        None => Seq::<Seq<char>>::empty(),
    };
    if denied.len() > 0 {
        b.push("no "@ + join(denied, ", "@))
    } else {
        b
    }
}

/// `max N steps`, `subagent mode` and `no <denied tools>` joined by ` | `,
/// or `default constraints` when none applies.
pub open spec fn constraints_summary_spec(steps: Option<u32>, mode: AgentMode, tools: Option<Seq<(Seq<char>, ToolPermission)>>) -> Seq<char> {
    let parts = summary_parts(steps, mode, tools);
    if parts.len() == 0 {
        "default constraints"@
    } else {
        join(parts, " | "@)
    }
}

// ---------------------------------------------------------------------------
// Prompt mentions and names
// ---------------------------------------------------------------------------

pub open spec fn id_char(c: char) -> bool {
    is_alnum(c) || c == '-' || c == '_'
}

/// The length of the longest prefix of `s` made of id characters.
pub open spec fn id_run(s: Seq<char>) -> nat
    decreases s.len(),
{
    if s.len() > 0 && id_char(s[0]) {
        1 + id_run(s.drop_first())
    } else {
        0
    }
}

pub proof fn lemma_id_run(s: Seq<char>, k: int)
    requires
        0 <= k <= s.len(),
        forall|j: int| 0 <= j < k ==> id_char(#[trigger] s[j]),
    ensures
        id_run(s) == k + id_run(s.skip(k)),
    decreases k,
{
    if k > 0 {
        lemma_id_run(s.drop_first(), k - 1);
        assert(s.drop_first().skip(k - 1) =~= s.skip(k));
    } else {
        assert(s.skip(0) =~= s);
    }
}

/// The id after the first `@agent:` of a prompt, if any.
pub open spec fn preset_mention(prompt: Seq<char>) -> Option<Seq<char>> {
    let i = find(prompt, "@agent:"@);
    let rest = prompt.skip(i + 7);
    if i < 0 || id_run(rest) == 0 {
        None
    } else {
        Some(rest.take(id_run(rest) as int))
    }
}

/// Extracts the first `@agent:<id>` mention from prompt text.
pub fn extract_agent_preset_id_from_prompt(prompt: &str) -> (r: Option<String>)
    ensures
        match preset_mention(prompt@) {
            Some(id) => r matches Some(s) && s@ == id,
            None => r is None,
        },
{
    let p = chars_of(prompt);
    let marker = chars_of("@agent:");
    proof {
        reveal_strlit("@agent:");
        lemma_find(p@, marker@);
    }
    let i = match find_vec(&p, &marker) {
        Some(i) => i,
        None => {
            return None;
        },
    };
    let plen = p.len();
    assert(marker@.len() == 7);
    assert(i + 7 <= plen);
    let start = i + 7;
    let rest = slice_vec(&p, start, p.len());
    assert(rest@ =~= p@.skip(i + 7));
    let mut n: usize = 0;
    while n < rest.len() && (is_ascii_alphanumeric(rest[n]) || rest[n] == '-' || rest[n] == '_')
        invariant
            n <= rest.len(),
            forall|j: int| 0 <= j < n ==> id_char(#[trigger] rest@[j]),
        decreases rest.len() - n,
    {
        n += 1;
    }
    proof {
        lemma_id_run(rest@, n as int);
        if n < rest.len() {
            assert(!id_char(rest@.skip(n as int)[0]));
        }
    }
    if n == 0 {
        None
    } else {
        let out = slice_vec(&rest, 0, n);
        assert(out@ =~= rest@.take(n as int));
        Some(string_of(&out))
    }
}

/// Separators of the words of a preset id.
pub open spec fn preset_word_seps() -> (Seq<char>, bool, bool) {
    (seq!['-', '_', ' '], false, false)
}

/// `frontend-design` becomes `Frontend Design`.
pub fn title_case(s: &str) -> (r: String)
    ensures
        r@ == title_words(s@, preset_word_seps()),
{
    let seps = CharClass::of(vec!['-', '_', ' ']);
    assert(seps@.0 =~= seq!['-', '_', ' ']);
    let t = title_words_vec(&chars_of(s), &seps);
    string_of(&t)
}

/// `key: value` with both sides trimmed.
pub open spec fn key_value(line: Seq<char>) -> Option<(Seq<char>, Seq<char>)> {
    match split_once(line, ':') {
        Some((k, v)) => Some((trim(k), trim(v))),
        None => None,
    }
}

pub fn parse_key_value(line: &Vec<char>) -> (r: Option<(Vec<char>, Vec<char>)>)
    ensures
        match key_value(line@) {
            Some((k, v)) => r matches Some((a, b)) && a@ == k && b@ == v,
            None => r is None,
        },
{
    match split_once_vec(line, ':') {
        Some((k, v)) => Some((trim_vec(&k), trim_vec(&v))),
        None => None,
    }
}

pub open spec fn tool_permission_of(value: Seq<char>) -> ToolPermission {
    let l = lower(value);
    if l == "true"@ || l == "allow"@ {
        ToolPermission::Bool(true)
    } else if l == "false"@ || l == "deny"@ {
        ToolPermission::Bool(false)
    } else {
        ToolPermission::Inherit
    }
}

pub fn parse_tool_permission(value: &Vec<char>) -> (r: ToolPermission)
    ensures
        r == tool_permission_of(value@),
{
    let l = lower_vec(value);
    if is_lit(&l, "true") || is_lit(&l, "allow") {
        ToolPermission::Bool(true)
    } else if is_lit(&l, "false") || is_lit(&l, "deny") {
        ToolPermission::Bool(false)
    } else {
        ToolPermission::Inherit
    }
}

/// The trimmed frontmatter block and the body of an agent file; a text
/// without frontmatter is all body.
pub open spec fn split_agent_file(raw: Seq<char>) -> (Seq<char>, Seq<char>) {
    match frontmatter_parts(raw) {
        Some((block, body)) => (trim(block), body),
        None => (Seq::<char>::empty(), raw),
    }
}

pub fn parse_frontmatter(raw: &str) -> (r: (String, String))
    ensures
        r.0@ == split_agent_file(raw@).0,
        r.1@ == split_agent_file(raw@).1,
{
    let v = chars_of(raw);
    match frontmatter_parts_vec(&v) {
        Some((block, body)) => (string_of(&trim_vec(&block)), string_of(&body)),
        None => (String::new(), string_of(&v)),
    }
}

/// Parses a `<provider>/<model>` override; the provider is given by name.
pub fn parse_model_override(value: &str) -> (r: (Option<String>, String))
    ensures
        crate::text::opt_view(r.0) == crate::provider::model_override_spec(value@).0,
        r.1@ == crate::provider::model_override_spec(value@).1,
{
    let (p, m) = crate::provider::parse_model_override(value);
    (p, m)
}


// ---------------------------------------------------------------------------
// Frontmatter of agent files
// ---------------------------------------------------------------------------

/// The nested section an indented frontmatter line belongs to.
#[derive(PartialEq, Eq, Structural, Clone, Copy, Debug)]
pub enum Section {
    Other,
    Tools,
    Permission,
    Tags,
}

/// The state of the frontmatter parser after some lines.
#[verifier::ext_equal]
pub struct FmState {
    pub name: Option<Seq<char>>,
    pub description: Option<Seq<char>>,
    pub mode: Option<AgentMode>,
    pub model: Option<Seq<char>>,
    pub temperature: Option<Seq<char>>,
    pub steps: Option<u32>,
    pub tools: Seq<(Seq<char>, ToolPermission)>,
    pub edit: Option<ToolPermission>,
    pub bash: Option<ToolPermission>,
    pub write: Option<ToolPermission>,
    pub webfetch: Option<ToolPermission>,
    pub tags: Seq<Seq<char>>,
    pub section: Section,
    pub issues: Seq<Seq<char>>,
}

pub open spec fn fm_init() -> FmState {
    FmState {
        name: None,
        description: None,
        mode: None,
        model: None,
        temperature: None,
        steps: None,
        tools: Seq::<(Seq<char>, ToolPermission)>::empty(),
        edit: None,
        bash: None,
        write: None,
        webfetch: None,
        tags: Seq::<Seq<char>>::empty(),
        section: Section::Other,
        issues: Seq::<Seq<char>>::empty(),
    }
}

/// An indented line belongs to the current section.
pub open spec fn indented_step(st: FmState, t: Seq<char>) -> FmState {
    match st.section {
        Section::Tools => match key_value(t) {
            Some((k, v)) => FmState { tools: assoc_insert(st.tools, k, tool_permission_of(v)), ..st },
            None => st,
        },
        Section::Permission => match key_value(t) {
            Some((k, v)) => {
                let p = Some(tool_permission_of(v));
                if k == "edit"@ {
                    FmState { edit: p, ..st }
                } else if k == "bash"@ {
                    FmState { bash: p, ..st }
                } else if k == "write"@ {
                    FmState { write: p, ..st }
                } else if k == "webfetch"@ {
                    FmState { webfetch: p, ..st }
                } else {
                    st
                }
            },
            None => st,
        },
        Section::Tags => if starts_with(t, "- "@) && trim(t.skip(2)).len() > 0 {
            FmState { tags: st.tags.push(trim(t.skip(2))), ..st }
        } else {
            st
        },
        Section::Other => st,
    }
}

/// A top-level `key: value` line.
pub open spec fn key_step(st: FmState, key: Seq<char>, value: Seq<char>) -> FmState {
    if key == "name"@ {
        FmState { name: Some(value), ..st }
    } else if key == "description"@ {
        FmState { description: Some(value), ..st }
    } else if key == "mode"@ {
        if lower(value) == "primary"@ {
            FmState { mode: Some(AgentMode::Primary), ..st }
        } else if lower(value) == "subagent"@ {
            FmState { mode: Some(AgentMode::Subagent), ..st }
        } else {
            FmState {
                mode: None,
                issues: st.issues.push("unknown mode '"@ + value + "', expected primary|subagent"@),
                ..st
            }
        }
    } else if key == "model"@ {
        FmState { model: Some(value), ..st }
    } else if key == "temperature"@ {
        if float_text(value) {
            FmState { temperature: Some(value), ..st }
        } else {
            FmState {
                issues: st.issues.push("invalid temperature '"@ + value + "', expected float"@),
                ..st
            }
        }
    } else if key == "steps"@ {
        match parse_unsigned(value, u32::MAX as nat) {
            Some(n) => FmState { steps: Some(n as u32), ..st },
            None => FmState {
                issues: st.issues.push("invalid steps '"@ + value + "', expected integer"@),
                ..st
            },
        }
    } else if key == "tags"@ {
        if value.len() == 0 {
            FmState { section: Section::Tags, ..st }
        } else {
            FmState { tags: st.tags + drop_empty(map_trim(split_by(value, (seq![','], false, false)))), ..st }
        }
    } else if key == "tools"@ {
        FmState { section: Section::Tools, ..st }
    } else if key == "permission"@ {
        FmState { section: Section::Permission, ..st }
    } else {
        st
    }
}

proof fn lemma_split_pieces_free(s: Seq<char>, c: char)
    ensures
        forall|i: int, k: int|
            0 <= i < split_by(s, (seq![c], false, false)).len() && 0 <= k < split_by(
                s,
                (seq![c], false, false),
            )[i].len() ==> #[trigger] split_by(s, (seq![c], false, false))[i][k] != c,
    decreases s.len(),
{
    let cls = (seq![c], false, false);
    assert(seq![c].contains(c)) by {
        assert(seq![c][0] == c);
    }
    if s.len() > 0 {
        lemma_split_pieces_free(s.drop_last(), c);
        lemma_split_by_len(s.drop_last(), cls);
        let init = split_by(s.drop_last(), cls);
        if !in_class(cls, s.last()) {
            assert(s.last() != c);
            let r = init.update(init.len() - 1, init.last().push(s.last()));
            assert forall|i: int, k: int| 0 <= i < r.len() && 0 <= k < r[i].len() implies #[trigger] r[i][k] != c by {
                if i < init.len() - 1 {
                    assert(r[i] == init[i]);
                } else if k < init.last().len() {
                    assert(r[i][k] == init[init.len() - 1][k]);
                }
            }
        } else {
            let r = init.push(Seq::<char>::empty());
            assert forall|i: int, k: int| 0 <= i < r.len() && 0 <= k < r[i].len() implies #[trigger] r[i][k] != c by {
                assert(r[i] == init[i]);
            }
        }
    }
}

proof fn lemma_trim_start_from(s: Seq<char>)
    ensures
        forall|k: int| 0 <= k < trim_start(s).len() ==> s.contains(#[trigger] trim_start(s)[k]),
    decreases s.len(),
{
    if s.len() > 0 && is_ws(s[0]) {
        lemma_trim_start_from(s.drop_first());
        let d = s.drop_first();
        assert(trim_start(s) == trim_start(d));
        assert forall|k: int| 0 <= k < trim_start(s).len() implies s.contains(#[trigger] trim_start(s)[k]) by {
            assert(d.contains(trim_start(d)[k]));
            let j = choose|j: int| 0 <= j < d.len() && d[j] == trim_start(s)[k];
            assert(s[j + 1] == d[j]);
        }
    } else {
        assert forall|k: int| 0 <= k < trim_start(s).len() implies s.contains(#[trigger] trim_start(s)[k]) by {
            assert(s[k] == trim_start(s)[k]);
        }
    }
}

proof fn lemma_trim_end_prefix(s: Seq<char>)
    ensures
        trim_end(s).len() <= s.len(),
        forall|k: int| 0 <= k < trim_end(s).len() ==> #[trigger] trim_end(s)[k] == s[k],
    decreases s.len(),
{
    if s.len() > 0 && is_ws(s.last()) {
        lemma_trim_end_prefix(s.drop_last());
    }
}

/// What `trim` gives: characters of the text, neither first nor last of
/// them whitespace.
proof fn lemma_trim_shape(s: Seq<char>)
    ensures
        forall|k: int| 0 <= k < trim(s).len() ==> s.contains(#[trigger] trim(s)[k]),
        trim(s).len() > 0 ==> !is_ws(trim(s)[0]) && !is_ws(trim(s).last()),
{
    let t = trim_start(s);
    lemma_trim_start_from(s);
    lemma_trim_start_len(s);
    lemma_trim_end_prefix(t);
    lemma_trim_end_len(t);
    assert forall|k: int| 0 <= k < trim(s).len() implies s.contains(#[trigger] trim(s)[k]) by {
        assert(trim(s)[k] == t[k]);
    }
}

proof fn lemma_drop_empty_from(ps: Seq<Seq<char>>)
    ensures
        forall|k: int| 0 <= k < drop_empty(ps).len() ==> (#[trigger] drop_empty(ps)[k]).len() > 0 && ps.contains(drop_empty(ps)[k]),
    decreases ps.len(),
{
    if ps.len() > 0 {
        lemma_drop_empty_from(ps.drop_last());
        let d = drop_empty(ps.drop_last());
        assert forall|k: int| 0 <= k < drop_empty(ps).len() implies (#[trigger] drop_empty(ps)[k]).len() > 0 && ps.contains(drop_empty(ps)[k]) by {
            if k < d.len() {
                assert(drop_empty(ps)[k] == d[k]);
                let j = choose|j: int| 0 <= j < ps.drop_last().len() && ps.drop_last()[j] == d[k];
                assert(ps[j] == d[k]);
            } else {
                assert(drop_empty(ps)[k] == ps[ps.len() - 1]);
            }
        }
    }
}

/// A top-level `tags: v` line with text after the colon adds, after the tags
/// already read and in order, the pieces of `v` between commas, trimmed,
/// empty ones left out: each added tag is non-empty, holds no comma, and
/// neither starts nor ends with whitespace.
pub proof fn law_inline_tags(st: FmState, value: Seq<char>)
    requires
        value.len() > 0,
    ensures
        key_step(st, "tags"@, value).tags == st.tags + drop_empty(
            map_trim(split_by(value, (seq![','], false, false))),
        ),
        forall|k: int|
            st.tags.len() <= k < key_step(st, "tags"@, value).tags.len() ==> {
                let t = #[trigger] key_step(st, "tags"@, value).tags[k];
                &&& t.len() > 0
                &&& !t.contains(',')
                &&& !is_ws(t[0])
                &&& !is_ws(t.last())
            },
{
    reveal_strlit("tags");
    reveal_strlit("name");
    reveal_strlit("description");
    reveal_strlit("mode");
    reveal_strlit("model");
    reveal_strlit("temperature");
    reveal_strlit("steps");
    assert("tags"@[0] != "name"@[0] && "tags"@[0] != "description"@[0] && "tags"@[0] != "mode"@[0]);
    assert("tags"@[0] != "model"@[0] && "tags"@[1] != "temperature"@[1] && "tags"@[0] != "steps"@[0]);
    let pieces = split_by(value, (seq![','], false, false));
    let added = drop_empty(map_trim(pieces));
    let r = key_step(st, "tags"@, value).tags;
    assert(r == st.tags + added);
    lemma_split_pieces_free(value, ',');
    lemma_drop_empty_from(map_trim(pieces));
    assert forall|k: int| st.tags.len() <= k < r.len() implies {
        let t = #[trigger] r[k];
        &&& t.len() > 0
        &&& !t.contains(',')
        &&& !is_ws(t[0])
        &&& !is_ws(t.last())
    } by {
        let t = r[k];
        assert(t == added[k - st.tags.len()]);
        let mt = map_trim(pieces);
        let j = choose|j: int| 0 <= j < mt.len() && mt[j] == t;
        assert(t == trim(pieces[j]));
        lemma_trim_shape(pieces[j]);
        if t.contains(',') {
            let x = choose|x: int| 0 <= x < t.len() && t[x] == ',';
            assert(pieces[j].contains(t[x]));
            let y = choose|y: int| 0 <= y < pieces[j].len() && pieces[j][y] == t[x];
            assert(pieces[j][y] != ',');
        }
    }
}

/// One line of the frontmatter block.
pub open spec fn fm_step(st: FmState, raw_line: Seq<char>) -> FmState {
    let line = trim_end(raw_line);
    let t = trim(line);
    if t.len() == 0 || starts_with(trim_start(line), "#"@) {
        st
    } else if starts_with(raw_line, "  "@) || starts_with(raw_line, "\t"@) {
        indented_step(st, t)
    } else {
        match key_value(t) {
            Some((k, v)) => key_step(FmState { section: Section::Other, ..st }, k, v),
            None => st,
        }
    }
}

pub open spec fn fm_fold(ls: Seq<Seq<char>>) -> FmState
    decreases ls.len(),
{
    if ls.len() == 0 {
        fm_init()
    } else {
        fm_step(fm_fold(ls.drop_last()), ls.last())
    }
}

/// Parsed frontmatter of an agent file.  `temperature` is the written text,
/// kept only where it reads as a float.
#[derive(Debug)]
pub struct AgentFrontmatter {
    pub name: Option<String>,
    pub description: Option<String>,
    pub mode: Option<AgentMode>,
    pub model: Option<String>,
    pub temperature: Option<String>,
    pub steps: Option<u32>,
    pub tools: Option<ToolMap>,
    pub permission: Option<PermissionConfig>,
    pub tags: Option<Vec<String>>,
}

pub open spec fn ovec(o: Option<Vec<char>>) -> Option<Seq<char>> {
    match o {
        Some(v) => Some(v@),
        None => None,
    }
}

struct FmParse {
    name: Option<Vec<char>>,
    description: Option<Vec<char>>,
    mode: Option<AgentMode>,
    model: Option<Vec<char>>,
    temperature: Option<Vec<char>>,
    steps: Option<u32>,
    tools: ToolMap,
    edit: Option<ToolPermission>,
    bash: Option<ToolPermission>,
    write: Option<ToolPermission>,
    webfetch: Option<ToolPermission>,
    tags: Vec<Vec<char>>,
    section: Section,
    issues: Vec<Vec<char>>,
}

impl View for FmParse {
    type V = FmState;

    closed spec fn view(&self) -> FmState {
        FmState {
            name: ovec(self.name),
            description: ovec(self.description),
            mode: self.mode,
            model: ovec(self.model),
            temperature: ovec(self.temperature),
            steps: self.steps,
            tools: self.tools@,
            edit: self.edit,
            bash: self.bash,
            write: self.write,
            webfetch: self.webfetch,
            tags: views_v(self.tags@),
            section: self.section,
            issues: views_v(self.issues@),
        }
    }
}

fn message3(a: &str, v: &Vec<char>, b: &str) -> (r: Vec<char>)
    ensures
        r@ == a@ + v@ + b@,
{
    let mut m = chars_of(a);
    append_vec(&mut m, v);
    append_str(&mut m, b);
    m
}

impl FmParse {
    fn new() -> (r: FmParse)
        ensures
            r@ == fm_init(),
    {
        let r = FmParse {
            name: None,
            description: None,
            mode: None,
            model: None,
            temperature: None,
            steps: None,
            tools: ToolMap::new(),
            edit: None,
            bash: None,
            write: None,
            webfetch: None,
            tags: Vec::new(),
            section: Section::Other,
            issues: Vec::new(),
        };
        assert(r@ =~= fm_init());
        r
    }

    fn indented(&mut self, t: &Vec<char>)
        ensures
            final(self)@ == indented_step(old(self)@, t@),
    {
        match self.section {
            Section::Tools => {
                if let Some((k, v)) = parse_key_value(t) {
                    let p = parse_tool_permission(&v);
                    self.tools.insert(&k, p);
                }
            },
            Section::Permission => {
                if let Some((k, v)) = parse_key_value(t) {
                    let p = Some(parse_tool_permission(&v));
                    if is_lit(&k, "edit") {
                        self.edit = p;
                    } else if is_lit(&k, "bash") {
                        self.bash = p;
                    } else if is_lit(&k, "write") {
                        self.write = p;
                    } else if is_lit(&k, "webfetch") {
                        self.webfetch = p;
                    }
                }
            },
            Section::Tags => {
                let dash = chars_of("- ");
                if starts_with_vec(t, &dash) {
                    proof {
                        reveal_strlit("- ");
                    }
                    let item = trim_vec(&slice_vec(t, 2, t.len()));
                    assert(t@.subrange(2, t@.len() as int) =~= t@.skip(2));
                    if item.len() > 0 {
                        self.tags.push(item);
                    }
                }
            },
            Section::Other => {},
        }
        assert(self@ =~= indented_step(old(self)@, t@));
    }

    fn key(&mut self, key: &Vec<char>, value: &Vec<char>)
        ensures
            final(self)@ == key_step(old(self)@, key@, value@),
    {
        if is_lit(key, "name") {
            self.name = Some(copy_vec(value));
            assert(self@ =~= key_step(old(self)@, key@, value@));
        } else if is_lit(key, "description") {
            self.description = Some(copy_vec(value));
            assert(self@ =~= key_step(old(self)@, key@, value@));
        } else if is_lit(key, "mode") {
            let l = lower_vec(value);
            if is_lit(&l, "primary") {
                self.mode = Some(AgentMode::Primary);
            } else if is_lit(&l, "subagent") {
                self.mode = Some(AgentMode::Subagent);
            } else {
                self.mode = None;
                let ghost prev = self.issues@;
                self.issues.push(message3("unknown mode '", value, "', expected primary|subagent"));
                assert(views_v(self.issues@) =~= views_v(prev).push("unknown mode '"@ + value@ + "', expected primary|subagent"@));
            }
            assert(self@ =~= key_step(old(self)@, key@, value@));
        } else if is_lit(key, "model") {
            self.model = Some(copy_vec(value));
            assert(self@ =~= key_step(old(self)@, key@, value@));
        } else if is_lit(key, "temperature") {
            if is_float_text(value) {
                self.temperature = Some(copy_vec(value));
            } else {
                let ghost prev = self.issues@;
                self.issues.push(message3("invalid temperature '", value, "', expected float"));
                assert(views_v(self.issues@) =~= views_v(prev).push("invalid temperature '"@ + value@ + "', expected float"@));
            }
            assert(self@ =~= key_step(old(self)@, key@, value@));
        } else if is_lit(key, "steps") {
            match parse_unsigned_vec(value, u32::MAX as u64) {
                Some(n) => {
                    self.steps = Some(n as u32);
                },
                None => {
                    let ghost prev = self.issues@;
                    self.issues.push(message3("invalid steps '", value, "', expected integer"));
                    assert(views_v(self.issues@) =~= views_v(prev).push("invalid steps '"@ + value@ + "', expected integer"@));
                },
            }
            assert(self@ =~= key_step(old(self)@, key@, value@));
        } else if is_lit(key, "tags") {
            if value.len() == 0 {
                self.section = Section::Tags;
            } else {
                let comma = CharClass::single(',');
                let parts = split_vec(value, &comma);
                let mut items = drop_empty_vec(&map_trim_vec(&parts));
                let ghost before = self.tags@;
                let ghost added = items@;
                self.tags.append(&mut items);
                assert(views_v(self.tags@) =~= views_v(before) + views_v(added));
                assert(comma@ == (seq![','], false, false));
            }
            assert(self@ =~= key_step(old(self)@, key@, value@));
        } else if is_lit(key, "tools") {
            self.section = Section::Tools;
            assert(self@ =~= key_step(old(self)@, key@, value@));
        } else if is_lit(key, "permission") {
            self.section = Section::Permission;
            assert(self@ =~= key_step(old(self)@, key@, value@));
        } else {
            assert(self@ =~= key_step(old(self)@, key@, value@));
        }
    }

    fn step(&mut self, raw_line: &Vec<char>)
        ensures
            final(self)@ == fm_step(old(self)@, raw_line@),
    {
        let line = trim_end_vec(raw_line);
        let t = trim_vec(&line);
        if t.len() == 0 || starts_with_vec(&trim_start_vec(&line), &chars_of("#")) {
            return;
        }
        if starts_with_vec(raw_line, &chars_of("  ")) || starts_with_vec(raw_line, &chars_of("\t")) {
            self.indented(&t);
            return;
        }
        if let Some((k, v)) = parse_key_value(&t) {
            self.section = Section::Other;
            self.key(&k, &v);
        }
    }
}

/// The frontmatter an agent file's parsed state describes.
pub open spec fn fm_tools(st: FmState) -> Option<Seq<(Seq<char>, ToolPermission)>> {
    if st.tools.len() > 0 {
        Some(st.tools)
    } else {
        None
    }
}

pub open spec fn fm_has_permission(st: FmState) -> bool {
    st.edit is Some || st.bash is Some || st.write is Some || st.webfetch is Some
}

/// Parses the frontmatter block of an agent file line by line; problems
/// found are appended to `issues`.
pub fn parse_agent_frontmatter(block: &str, issues: &mut Vec<String>) -> (r: AgentFrontmatter)
    ensures
        views(final(issues)@) == views(old(issues)@) + fm_fold(lines(block@)).issues,
        crate::text::opt_view(r.name) == fm_fold(lines(block@)).name,
        crate::text::opt_view(r.description) == fm_fold(lines(block@)).description,
        r.mode == fm_fold(lines(block@)).mode,
        crate::text::opt_view(r.model) == fm_fold(lines(block@)).model,
        crate::text::opt_view(r.temperature) == fm_fold(lines(block@)).temperature,
        r.steps == fm_fold(lines(block@)).steps,
        tools_view(r.tools) == fm_tools(fm_fold(lines(block@))),
        r.permission is Some == fm_has_permission(fm_fold(lines(block@))),
        r.permission matches Some(p) ==> p.edit == fm_fold(lines(block@)).edit && p.bash == fm_fold(lines(block@)).bash
            && p.write == fm_fold(lines(block@)).write && p.webfetch == fm_fold(lines(block@)).webfetch && p.skill is None,
        match r.tags {
            Some(t) => fm_fold(lines(block@)).tags.len() > 0 && views(t@) == fm_fold(lines(block@)).tags,
            None => fm_fold(lines(block@)).tags.len() == 0,
        },
{
    let ls = lines_vec(&chars_of(block));
    let mut st = FmParse::new();
    let mut i: usize = 0;
    assert(views_v(ls@).take(0) =~= Seq::<Seq<char>>::empty());
    while i < ls.len()
        invariant
            i <= ls.len(),
            views_v(ls@) == lines(block@),
            st@ == fm_fold(views_v(ls@).take(i as int)),
        decreases ls.len() - i,
    {
        assert(views_v(ls@).take(i + 1).drop_last() =~= views_v(ls@).take(i as int));
        st.step(&ls[i]);
        i += 1;
    }
    assert(views_v(ls@).take(ls.len() as int) =~= views_v(ls@));
    let mut k: usize = 0;
    let ghost before = views(issues@);
    while k < st.issues.len()
        invariant
            k <= st.issues.len(),
            issues@.len() == before.len() + k,
            views(issues@) =~= before + views_v(st.issues@).take(k as int),
        decreases st.issues.len() - k,
    {
        let ghost prev = issues@;
        issues.push(string_of(&st.issues[k]));
        proof {
            assert forall|j: int| 0 <= j < issues@.len() implies #[trigger] views(issues@)[j] == (before + views_v(st.issues@).take(k + 1))[j] by {
                if j < prev.len() {
                    assert(issues@[j] == prev[j]);
                    assert(views(prev)[j] == (before + views_v(st.issues@).take(k as int))[j]);
                }
            }
        }
        k += 1;
    }
    assert(views_v(st.issues@).take(st.issues.len() as int) =~= views_v(st.issues@));
    let has_perm = st.edit.is_some() || st.bash.is_some() || st.write.is_some() || st.webfetch.is_some();
    let permission = if has_perm {
        Some(PermissionConfig { edit: st.edit, bash: st.bash, write: st.write, webfetch: st.webfetch, skill: None })
    } else {
        None
    };
    let tags = if st.tags.len() > 0 {
        let t = strings_of(&st.tags);
        assert(views(t@) =~= views_v(st.tags@));
        Some(t)
    } else {
        None
    };
    let opt = |o: &Option<Vec<char>>| -> (r: Option<String>)
        ensures
            crate::text::opt_view(r) == ovec(*o),
        {
            match o {
                Some(v) => Some(string_of(v)),
                None => None,
            }
        };
    AgentFrontmatter {
        name: opt(&st.name),
        description: opt(&st.description),
        mode: st.mode,
        model: opt(&st.model),
        temperature: opt(&st.temperature),
        steps: st.steps,
        tools: if st.tools.len() > 0 { Some(st.tools) } else { None },
        permission,
        tags,
    }
}

// ---------------------------------------------------------------------------
// Presets as values
// ---------------------------------------------------------------------------

pub struct PermissionView {
    pub edit: Option<ToolPermission>,
    pub bash: Option<ToolPermission>,
    pub write: Option<ToolPermission>,
    pub webfetch: Option<ToolPermission>,
    pub skill: Option<Seq<(Seq<char>, Seq<char>)>>,
}

pub open spec fn pair_views(v: Seq<(String, String)>) -> Seq<(Seq<char>, Seq<char>)> {
    Seq::new(v.len(), |i: int| (v[i].0@, v[i].1@))
}

impl View for PermissionConfig {
    type V = PermissionView;

    open spec fn view(&self) -> PermissionView {
        PermissionView {
            edit: self.edit,
            bash: self.bash,
            write: self.write,
            webfetch: self.webfetch,
            skill: match self.skill {
                Some(v) => Some(pair_views(v@)),
                None => None,
            },
        }
    }
}

pub open spec fn perm_view(o: Option<PermissionConfig>) -> Option<PermissionView> {
    match o {
        Some(p) => Some(p@),
        None => None,
    }
}

pub struct AgentPresetView {
    pub id: Seq<char>,
    pub name: Seq<char>,
    pub description: Seq<char>,
    pub mode: AgentMode,
    pub model: Option<Seq<char>>,
    pub temperature: Option<Seq<char>>,
    pub steps: Option<u32>,
    pub tools: Option<Seq<(Seq<char>, ToolPermission)>>,
    pub permission: Option<PermissionView>,
    pub prompt: Seq<char>,
    pub tags: Seq<Seq<char>>,
    pub file_path: Seq<char>,
    pub source: Seq<char>,
    pub enabled: bool,
    pub validation_issues: Seq<Seq<char>>,
}

impl View for AgentPreset {
    type V = AgentPresetView;

    open spec fn view(&self) -> AgentPresetView {
        AgentPresetView {
            id: self.id@,
            name: self.name@,
            description: self.description@,
            mode: self.mode,
            model: crate::text::opt_view(self.model),
            temperature: crate::text::opt_view(self.temperature),
            steps: self.steps,
            tools: tools_view(self.tools),
            permission: perm_view(self.permission),
            prompt: self.prompt@,
            tags: views(self.tags@),
            file_path: self.file_path@,
            source: self.source@,
            enabled: self.enabled,
            validation_issues: views(self.validation_issues@),
        }
    }
}

fn copy_opt_string(o: &Option<String>) -> (r: Option<String>)
    ensures
        crate::text::opt_view(r) == crate::text::opt_view(*o),
{
    match o {
        Some(s) => Some(copy_string(s)),
        None => None,
    }
}

impl ToolMap {
    pub fn copy(&self) -> (r: ToolMap)
        ensures
            r@ == self@,
    {
        let mut out: Vec<(String, ToolPermission)> = Vec::new();
        let mut i: usize = 0;
        while i < self.entries.len()
            invariant
                i <= self.entries.len(),
                out@.len() == i,
                forall|k: int| 0 <= k < i ==> (#[trigger] out@[k]).0@ == self.entries@[k].0@ && out@[k].1 == self.entries@[k].1,
            decreases self.entries.len() - i,
        {
            out.push((copy_string(&self.entries[i].0), self.entries[i].1));
            i += 1;
        }
        proof {
            use_type_invariant(self);
        }
        assert(assoc_view(out@) =~= assoc_view(self.entries@));
        let r = ToolMap { entries: out };
        assert(r@ =~= self@);
        r
    }
}

impl PermissionConfig {
    pub fn copy(&self) -> (r: PermissionConfig)
        ensures
            r@ == self@,
    {
        let skill = match &self.skill {
            Some(v) => {
                let mut out: Vec<(String, String)> = Vec::new();
                let mut i: usize = 0;
                while i < v.len()
                    invariant
                        i <= v.len(),
                        out@.len() == i,
                        forall|k: int| 0 <= k < i ==> (#[trigger] out@[k]).0@ == v@[k].0@ && out@[k].1@ == v@[k].1@,
                    decreases v.len() - i,
                {
                    out.push((copy_string(&v[i].0), copy_string(&v[i].1)));
                    i += 1;
                }
                assert(pair_views(out@) =~= pair_views(v@));
                Some(out)
            },
            None => None,
        };
        PermissionConfig { edit: self.edit, bash: self.bash, write: self.write, webfetch: self.webfetch, skill }
    }
}

impl AgentPreset {
    pub fn copy(&self) -> (r: AgentPreset)
        ensures
            r@ == self@,
    {
        AgentPreset {
            id: copy_string(&self.id),
            name: copy_string(&self.name),
            description: copy_string(&self.description),
            mode: self.mode,
            model: copy_opt_string(&self.model),
            temperature: copy_opt_string(&self.temperature),
            steps: self.steps,
            tools: match &self.tools {
                Some(t) => Some(t.copy()),
                None => None,
            },
            permission: match &self.permission {
                Some(p) => Some(p.copy()),
                None => None,
            },
            prompt: copy_string(&self.prompt),
            tags: copy_strings(&self.tags),
            file_path: copy_string(&self.file_path),
            source: copy_string(&self.source),
            enabled: self.enabled,
            validation_issues: copy_strings(&self.validation_issues),
        }
    }
}

impl Listed for AgentPreset {
    open spec fn id_of(v: AgentPresetView) -> Seq<char> {
        v.id
    }

    open spec fn name_of(v: AgentPresetView) -> Seq<char> {
        v.name
    }

    fn id_chars(&self) -> (r: Vec<char>) {
        chars_of(self.id.as_str())
    }

    fn name_chars(&self) -> (r: Vec<char>) {
        chars_of(self.name.as_str())
    }

    fn copy_item(&self) -> (r: AgentPreset) {
        self.copy()
    }
}

// ---------------------------------------------------------------------------
// Agent files
// ---------------------------------------------------------------------------

/// The highest step count a preset may ask for.
pub const MAX_STEPS: u32 = 1000;

/// The frontmatter state of an agent file.
pub open spec fn agent_file_state(raw: Seq<char>) -> FmState {
    fm_fold(lines(split_agent_file(raw).0))
}

/// The issues found while loading an agent file, in the order found.
pub open spec fn agent_file_issues(raw: Seq<char>) -> Seq<Seq<char>> {
    let fm = agent_file_state(raw);
    let a = if fm.mode is None {
        fm.issues.push("mode not specified, defaulting to 'subagent'"@)
    } else {
        fm.issues
    };
    match fm.steps {
        Some(n) => if n > MAX_STEPS {
            a.push("steps "@ + decimal(n as nat) + " seems excessive, capping at 1000"@)
        } else {
            a
        },
        None => a,
    }
}

/// The preset an agent file describes; its issues are not included.
pub open spec fn agent_of_file(id: Seq<char>, raw: Seq<char>, file_path: Seq<char>, source: Seq<char>) -> AgentPresetView {
    let fm = agent_file_state(raw);
    AgentPresetView {
        id: id,
        name: match fm.name {
            Some(n) => n,
            None => title_words(id, preset_word_seps()),
        },
        description: match fm.description {
            Some(d) => d,
            None => Seq::<char>::empty(),
        },
        mode: match fm.mode {
            Some(m) => m,
            None => AgentMode::Subagent,
        },
        model: fm.model,
        temperature: fm.temperature,
        steps: match fm.steps {
            Some(n) => if n > MAX_STEPS {
                None
            } else {
                Some(n)
            },
            None => None,
        },
        tools: fm_tools(fm),
        permission: if fm_has_permission(fm) {
            Some(PermissionView { edit: fm.edit, bash: fm.bash, write: fm.write, webfetch: fm.webfetch, skill: None })
        } else {
            None
        },
        prompt: split_agent_file(raw).1,
        tags: fm.tags,
        file_path: file_path,
        source: source,
        enabled: true,
        validation_issues: Seq::<Seq<char>>::empty(),
    }
}

/// Parses an agent file into its preset and the issues found on the way.
/// The mode defaults to `subagent`, and a step count above the limit is
/// dropped; each is reported.
pub fn parse_agent_file(id: &str, raw: &str, file_path: String, source: &str) -> (r: (AgentPreset, Vec<String>))
    ensures
        r.0@ == agent_of_file(id@, raw@, file_path@, source@),
        views(r.1@) == agent_file_issues(raw@),
{
    let mut issues: Vec<String> = Vec::new();
    let (block, body) = parse_frontmatter(raw);
    let fm = parse_agent_frontmatter(block.as_str(), &mut issues);
    assert(views(issues@) =~= agent_file_state(raw@).issues);
    let mode = match fm.mode {
        Some(m) => m,
        None => {
            issues.push(lit("mode not specified, defaulting to 'subagent'"));
            AgentMode::Subagent
        },
    };
    let ghost before = views(issues@);
    let steps = match fm.steps {
        Some(n) => {
            if n > MAX_STEPS {
                let mut m = chars_of("steps ");
                append_vec(&mut m, &decimal_vec(n as u64));
                append_str(&mut m, " seems excessive, capping at 1000");
                issues.push(string_of(&m));
                None
            } else {
                Some(n)
            }
        },
        None => None,
    };
    assert(views(issues@) =~= agent_file_issues(raw@));
    let name = match fm.name {
        Some(n) => n,
        None => title_case(id),
    };
    let description = match fm.description {
        Some(d) => d,
        None => String::new(),
    };
    let tags = match fm.tags {
        Some(t) => t,
        None => Vec::new(),
    };
    let preset = AgentPreset {
        id: lit(id),
        name,
        description,
        mode,
        model: fm.model,
        temperature: fm.temperature,
        steps,
        tools: fm.tools,
        permission: fm.permission,
        prompt: body,
        tags,
        file_path,
        source: lit(source),
        enabled: true,
        validation_issues: Vec::new(),
    };
    assert(preset@.tags =~= agent_of_file(id@, raw@, file_path@, source@).tags);
    assert(preset@.validation_issues =~= Seq::<Seq<char>>::empty());
    assert(preset@ == agent_of_file(id@, raw@, file_path@, source@));
    (preset, issues)
}

/// The preset of an agent file, carrying the issues found in it.
pub fn load_agent_file(id: &str, raw: &str, file_path: String, source: &str) -> (r: AgentPreset)
    ensures
        r@ == (AgentPresetView { validation_issues: agent_file_issues(raw@), ..agent_of_file(id@, raw@, file_path@, source@) }),
{
    let (mut preset, issues) = parse_agent_file(id, raw, file_path, source);
    preset.validation_issues = issues;
    preset
}

/// The file asks for more steps than a preset may have.
pub open spec fn steps_capped(raw: Seq<char>) -> bool {
    match agent_file_state(raw).steps {
        Some(n) => n > MAX_STEPS,
        None => false,
    }
}

/// The issue of a temperature outside `[0.0, 2.0]`, as the float is shown.
pub open spec fn temperature_range_issue(shown: Seq<char>) -> Seq<char> {
    "temperature "@ + shown + " out of range [0.0, 2.0], ignoring"@
}

/// The issues of a loaded file with the range issue where the checks find
/// it: after the frontmatter and mode issues, before the steps issue.
pub open spec fn with_range_issue(issues: Seq<Seq<char>>, capped: bool, shown: Seq<char>) -> Seq<Seq<char>> {
    if capped && issues.len() > 0 {
        issues.drop_last().push(temperature_range_issue(shown)).push(issues.last())
    } else {
        issues.push(temperature_range_issue(shown))
    }
}

/// Drops the temperature of a preset loaded from `raw` whose value the
/// caller found outside `[0.0, 2.0]` (`shown` is the value as the float is
/// written), and records the issue in the order the checks run.
pub fn ignore_temperature(preset: &mut AgentPreset, raw: &str, shown: &str)
    ensures
        final(preset)@ == (AgentPresetView {
            temperature: None,
            validation_issues: with_range_issue(old(preset)@.validation_issues, steps_capped(raw@), shown@),
            ..old(preset)@
        }),
{
    let mut scratch: Vec<String> = Vec::new();
    let (block, _body) = parse_frontmatter(raw);
    let fm = parse_agent_frontmatter(block.as_str(), &mut scratch);
    let capped = match fm.steps {
        Some(n) => n > MAX_STEPS,
        None => false,
    };
    let ghost before = views(preset.validation_issues@);
    let issue = string_of(&message3("temperature ", &chars_of(shown), " out of range [0.0, 2.0], ignoring"));
    if capped && preset.validation_issues.len() > 0 {
        let last = preset.validation_issues.pop().unwrap();
        preset.validation_issues.push(issue);
        preset.validation_issues.push(last);
    } else {
        preset.validation_issues.push(issue);
    }
    assert(views(preset.validation_issues@) =~= with_range_issue(before, steps_capped(raw@), shown@));
    preset.temperature = None;
}

/// Merges the presets found in the directories, highest precedence first:
/// for each id the first one found is kept, and the result is ordered by
/// ASCII-lower-cased name.
pub fn scan_agent_presets(found: &Vec<AgentPreset>) -> (r: Vec<AgentPreset>)
    ensures
        first_listing::<AgentPreset>(item_views(found@), item_views(r@)),
{
    first_by_id_sorted(found)
}

/// The first preset with the given id.
pub fn get_agent_preset(presets: &Vec<AgentPreset>, id: &str) -> (r: Option<AgentPreset>)
    ensures
        match r {
            Some(p) => exists|i: int| 0 <= i < presets@.len() && presets@[i].id@ == id@ && p@ == presets@[i]@
                && forall|j: int| 0 <= j < i ==> (#[trigger] presets@[j]).id@ != id@,
            None => forall|i: int| 0 <= i < presets@.len() ==> (#[trigger] presets@[i]).id@ != id@,
        },
{
    let want = chars_of(id);
    let mut i: usize = 0;
    while i < presets.len()
        invariant
            i <= presets.len(),
            want@ == id@,
            forall|j: int| 0 <= j < i ==> (#[trigger] presets@[j]).id@ != id@,
        decreases presets.len() - i,
    {
        let have = chars_of(presets[i].id.as_str());
        if seq_eq(&have, &want) {
            return Some(presets[i].copy());
        }
        i += 1;
    }
    None
}

// ---------------------------------------------------------------------------
// Writing agent files
// ---------------------------------------------------------------------------

pub open spec fn bool_word(b: bool) -> Seq<char> {
    if b {
        "true"@
    } else {
        "false"@
    }
}

pub open spec fn perm_word(p: ToolPermission) -> Seq<char> {
    match p {
        ToolPermission::Bool(b) => bool_word(b),
        ToolPermission::Inherit => "inherit"@,
    }
}

pub open spec fn mode_word(m: AgentMode) -> Seq<char> {
    match m {
        AgentMode::Primary => "primary"@,
        AgentMode::Subagent => "subagent"@,
    }
}

pub open spec fn tag_lines(tags: Seq<Seq<char>>) -> Seq<char>
    decreases tags.len(),
{
    if tags.len() == 0 {
        Seq::<char>::empty()
    } else {
        tag_lines(tags.drop_last()) + "  - "@ + tags.last() + "\n"@
    }
}

pub open spec fn tool_lines(tools: Seq<(Seq<char>, ToolPermission)>) -> Seq<char>
    decreases tools.len(),
{
    if tools.len() == 0 {
        Seq::<char>::empty()
    } else {
        tool_lines(tools.drop_last()) + "  "@ + tools.last().0 + ": "@ + perm_word(tools.last().1) + "\n"@
    }
}

/// A permission line is written for an explicit allow or deny only.
pub open spec fn perm_line(key: Seq<char>, p: Option<ToolPermission>) -> Seq<char> {
    match p {
        Some(ToolPermission::Bool(b)) => "  "@ + key + ": "@ + bool_word(b) + "\n"@,
        _ => Seq::<char>::empty(),
    }
}

pub open spec fn opt_line(key: Seq<char>, v: Option<Seq<char>>) -> Seq<char> {
    match v {
        Some(x) => key + ": "@ + x + "\n"@,
        None => Seq::<char>::empty(),
    }
}

pub open spec fn steps_part(steps: Option<u32>) -> Seq<char> {
    match steps {
        Some(n) => "steps: "@ + decimal(n as nat) + "\n"@,
        None => Seq::<char>::empty(),
    }
}

pub open spec fn tags_part(tags: Seq<Seq<char>>) -> Seq<char> {
    if tags.len() > 0 {
        "tags:\n"@ + tag_lines(tags)
    } else {
        Seq::<char>::empty()
    }
}

pub open spec fn tools_part(tools: Option<Seq<(Seq<char>, ToolPermission)>>) -> Seq<char> {
    match tools {
        Some(t) => "tools:\n"@ + tool_lines(t),
        None => Seq::<char>::empty(),
    }
}

/// Only explicit `edit`, `bash` and `write` permissions are written.
pub open spec fn permission_part(p: Option<PermissionView>) -> Seq<char> {
    match p {
        Some(pv) => "permission:\n"@ + perm_line("edit"@, pv.edit) + perm_line("bash"@, pv.bash) + perm_line("write"@, pv.write),
        None => Seq::<char>::empty(),
    }
}

pub open spec fn head_part(p: AgentPresetView) -> Seq<char> {
    "---\n"@ + "name: "@ + p.name + "\n"@ + "description: "@ + p.description + "\n"@ + "mode: "@
        + mode_word(p.mode) + "\n"@ + opt_line("model"@, p.model) + opt_line("temperature"@, p.temperature)
}

/// The text of the agent file that stores a preset: its frontmatter, then
/// its prompt.
pub open spec fn agent_file_text(p: AgentPresetView) -> Seq<char> {
    head_part(p) + steps_part(p.steps) + tags_part(p.tags) + tools_part(p.tools) + permission_part(p.permission)
        + "---\n\n"@ + p.prompt
}

fn push_bool(out: &mut Vec<char>, b: bool)
    ensures
        final(out)@ == old(out)@ + bool_word(b),
{
    if b {
        append_str(out, "true");
    } else {
        append_str(out, "false");
    }
}

fn push_perm_line(out: &mut Vec<char>, key: &str, p: Option<ToolPermission>)
    ensures
        final(out)@ == old(out)@ + perm_line(key@, p),
{
    match p {
        Some(ToolPermission::Bool(b)) => {
            append_str(out, "  ");
            append_str(out, key);
            append_str(out, ": ");
            push_bool(out, b);
            append_str(out, "\n");
            assert(out@ =~= old(out)@ + perm_line(key@, p));
        },
        _ => {
            assert(out@ =~= old(out)@ + perm_line(key@, p));
        },
    }
}

fn push_opt_line(out: &mut Vec<char>, key: &str, v: &Option<String>)
    ensures
        final(out)@ == old(out)@ + opt_line(key@, crate::text::opt_view(*v)),
{
    match v {
        Some(x) => {
            append_str(out, key);
            append_str(out, ": ");
            append_str(out, x.as_str());
            append_str(out, "\n");
            assert(out@ =~= old(out)@ + opt_line(key@, crate::text::opt_view(*v)));
        },
        None => {
            assert(out@ =~= old(out)@ + opt_line(key@, crate::text::opt_view(*v)));
        },
    }
}

fn push_head(out: &mut Vec<char>, preset: &AgentPreset)
    ensures
        final(out)@ == old(out)@ + head_part(preset@),
{
    append_str(out, "---\n");
    append_str(out, "name: ");
    append_str(out, preset.name.as_str());
    append_str(out, "\n");
    append_str(out, "description: ");
    append_str(out, preset.description.as_str());
    append_str(out, "\n");
    append_str(out, "mode: ");
    match preset.mode {
        AgentMode::Primary => append_str(out, "primary"),
        AgentMode::Subagent => append_str(out, "subagent"),
    }
    append_str(out, "\n");
    push_opt_line(out, "model", &preset.model);
    push_opt_line(out, "temperature", &preset.temperature);
    assert(out@ =~= old(out)@ + head_part(preset@));
}

fn push_steps(out: &mut Vec<char>, steps: Option<u32>)
    ensures
        final(out)@ == old(out)@ + steps_part(steps),
{
    if let Some(n) = steps {
        append_str(out, "steps: ");
        append_vec(out, &decimal_vec(n as u64));
        append_str(out, "\n");
    }
    assert(out@ =~= old(out)@ + steps_part(steps));
}

fn push_tags(out: &mut Vec<char>, tags: &Vec<String>)
    ensures
        final(out)@ == old(out)@ + tags_part(views(tags@)),
{
    let ghost tv = views(tags@);
    if tags.len() > 0 {
        append_str(out, "tags:\n");
        let ghost start = out@;
        let mut i: usize = 0;
        assert(tv.take(0) =~= Seq::<Seq<char>>::empty());
        assert(start + tag_lines(tv.take(0)) =~= start);
        while i < tags.len()
            invariant
                i <= tags.len(),
                tv == views(tags@),
                out@ == start + tag_lines(tv.take(i as int)),
            decreases tags.len() - i,
        {
            assert(tv.take(i + 1).drop_last() =~= tv.take(i as int));
            append_str(out, "  - ");
            append_str(out, tags[i].as_str());
            append_str(out, "\n");
            assert(out@ =~= start + tag_lines(tv.take(i + 1)));
            i += 1;
        }
        assert(tv.take(tags.len() as int) =~= tv);
    }
    assert(out@ =~= old(out)@ + tags_part(tv));
}

fn push_tools(out: &mut Vec<char>, tools: &Option<ToolMap>)
    ensures
        final(out)@ == old(out)@ + tools_part(tools_view(*tools)),
{
    if let Some(t) = tools {
        append_str(out, "tools:\n");
        let ghost start = out@;
        let es = t.entries();
        let mut i: usize = 0;
        assert(assoc_view(es@).take(0) =~= Seq::<(Seq<char>, ToolPermission)>::empty());
        assert(start + tool_lines(assoc_view(es@).take(0)) =~= start);
        while i < es.len()
            invariant
                i <= es.len(),
                out@ == start + tool_lines(assoc_view(es@).take(i as int)),
            decreases es.len() - i,
        {
            assert(assoc_view(es@).take(i + 1).drop_last() =~= assoc_view(es@).take(i as int));
            append_str(out, "  ");
            append_str(out, es[i].0.as_str());
            append_str(out, ": ");
            match es[i].1 {
                ToolPermission::Bool(b) => push_bool(out, b),
                ToolPermission::Inherit => append_str(out, "inherit"),
            }
            append_str(out, "\n");
            assert(out@ =~= start + tool_lines(assoc_view(es@).take(i + 1)));
            i += 1;
        }
        assert(assoc_view(es@).take(es.len() as int) =~= assoc_view(es@));
    }
    assert(out@ =~= old(out)@ + tools_part(tools_view(*tools)));
}

fn push_permission(out: &mut Vec<char>, permission: &Option<PermissionConfig>)
    ensures
        final(out)@ == old(out)@ + permission_part(perm_view(*permission)),
{
    if let Some(perm) = permission {
        append_str(out, "permission:\n");
        push_perm_line(out, "edit", perm.edit);
        push_perm_line(out, "bash", perm.bash);
        push_perm_line(out, "write", perm.write);
    }
    assert(out@ =~= old(out)@ + permission_part(perm_view(*permission)));
}

/// Renders a preset as the agent file that stores it.
pub fn agent_preset_file_text(preset: &AgentPreset) -> (r: String)
    ensures
        r@ == agent_file_text(preset@),
{
    let mut out: Vec<char> = Vec::new();
    push_head(&mut out, preset);
    push_steps(&mut out, preset.steps);
    push_tags(&mut out, &preset.tags);
    push_tools(&mut out, &preset.tools);
    push_permission(&mut out, &preset.permission);
    append_str(&mut out, "---\n\n");
    append_str(&mut out, preset.prompt.as_str());
    assert(out@ =~= agent_file_text(preset@));
    string_of(&out)
}

} // verus!
