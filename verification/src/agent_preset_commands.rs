//! The agent-preset commands of the application: creating a preset from a
//! form, searching the presets, and the context that introduces a preset to
//! a run.
//!
//! Reading and writing the preset files is the caller's business.
use vstd::prelude::*;

use crate::agent_presets::{
    assoc_insert, constraints_summary_spec, id_char, tools_view, AgentMode, AgentPreset,
    AgentPresetView, ToolMap, ToolPermission,
};
use crate::listing::item_views;
use crate::text::{
    append_str, append_vec, chars_of, contains, contains_vec, copy_strings, lit, lower, lower_vec,
    opt_view, str_eq, string_of, trim, trimmed, views,
};

verus! {

/// A preset as the creation form gives it.  The temperature is given as the
/// text it is written with; each tool maps to `Some(allowed)` when a
/// boolean was given, else `None`.
#[derive(Debug)]
pub struct NewAgentPreset {
    pub id: String,
    pub name: String,
    pub description: String,
    pub mode: String,
    pub model: Option<String>,
    pub temperature: Option<String>,
    pub steps: Option<u32>,
    pub prompt: String,
    pub tags: Option<Vec<String>>,
    pub tools: Option<Vec<(String, Option<bool>)>>,
}

/// A preset id is made of ASCII letters, digits, dashes and underscores.
pub open spec fn valid_preset_id(id: Seq<char>) -> bool {
    id.len() > 0 && forall|i: int| 0 <= i < id.len() ==> id_char(#[trigger] id[i])
}

pub open spec fn mode_of(mode: Seq<char>) -> Option<AgentMode> {
    if mode == "primary"@ {
        Some(AgentMode::Primary)
    } else if mode == "subagent"@ {
        Some(AgentMode::Subagent)
    } else {
        None
    }
}

pub open spec fn tool_permission(v: Option<bool>) -> ToolPermission {
    match v {
        Some(b) => ToolPermission::Bool(b),
        None => ToolPermission::Inherit,
    }
}

/// The tool permissions of the form, inserted in order.
pub open spec fn tools_of(entries: Seq<(Seq<char>, Option<bool>)>) -> Seq<(Seq<char>, ToolPermission)>
    decreases entries.len(),
{
    if entries.len() == 0 {
        Seq::empty()
    } else {
        assoc_insert(tools_of(entries.drop_last()), entries.last().0, tool_permission(entries.last().1))
    }
}

pub open spec fn form_tools(v: Seq<(String, Option<bool>)>) -> Seq<(Seq<char>, Option<bool>)> {
    Seq::new(v.len(), |i: int| (v[i].0@, v[i].1))
}

/// The preset a form describes: a workspace preset, enabled, without a
/// file yet and without permissions.
pub open spec fn created_preset(f: NewAgentPreset, mode: AgentMode) -> AgentPresetView {
    AgentPresetView {
        id: f.id@,
        name: f.name@,
        description: f.description@,
        mode: mode,
        model: opt_view(f.model),
        temperature: opt_view(f.temperature),
        steps: f.steps,
        tools: match f.tools {
            Some(t) => Some(tools_of(form_tools(t@))),
            None => None,
        },
        permission: None,
        prompt: f.prompt@,
        tags: match f.tags {
            Some(t) => views(t@),
            None => Seq::empty(),
        },
        file_path: Seq::empty(),
        source: "workspace"@,
        enabled: true,
        validation_issues: Seq::empty(),
    }
}

fn tool_map_of(entries: &Vec<(String, Option<bool>)>) -> (r: ToolMap)
    ensures
        r@ == tools_of(form_tools(entries@)),
{
    let ghost fv = form_tools(entries@);
    let mut m = ToolMap::new();
    let mut i: usize = 0;
    assert(fv.take(0) =~= Seq::<(Seq<char>, Option<bool>)>::empty());
    while i < entries.len()
        invariant
            i <= entries.len(),
            fv == form_tools(entries@),
            m@ == tools_of(fv.take(i as int)),
        decreases entries.len() - i,
    {
        assert(fv.take(i + 1).drop_last() =~= fv.take(i as int));
        assert(fv.take(i + 1).last() == fv[i as int]);
        let perm = match entries[i].1 {
            Some(b) => ToolPermission::Bool(b),
            None => ToolPermission::Inherit,
        };
        m.insert(&chars_of(entries[i].0.as_str()), perm);
        i += 1;
    }
    assert(fv.take(entries.len() as int) =~= fv);
    m
}

/// The preset of a creation form, or why it is refused: an id that is not
/// made of letters, digits, dashes and underscores, or a mode other than
/// `primary` and `subagent`.
pub fn new_agent_preset(form: NewAgentPreset) -> (r: Result<AgentPreset, String>)
    ensures
        !valid_preset_id(form.id@) ==> (r matches Err(e) && e@ == "invalid agent ID '"@ + form.id@
            + "': must be alphanumeric with hyphens/underscores only"@),
        valid_preset_id(form.id@) && mode_of(form.mode@) is None ==> (r matches Err(e) && e@
            == "invalid mode '"@ + form.mode@ + "': must be 'primary' or 'subagent'"@),
        valid_preset_id(form.id@) && mode_of(form.mode@) is Some ==> (r matches Ok(p) && p@
            == created_preset(form, mode_of(form.mode@)->0)),
{
    let id = chars_of(form.id.as_str());
    let mut valid = id.len() > 0;
    let mut i: usize = 0;
    while i < id.len()
        invariant
            i <= id.len(),
            valid == (id@.len() > 0 && forall|k: int| 0 <= k < i ==> id_char(#[trigger] id@[k])),
        decreases id.len() - i,
    {
        let c = id[i];
        if !(crate::text::is_ascii_alphanumeric(c) || c == '-' || c == '_') {
            valid = false;
        }
        i += 1;
    }
    if !valid {
        let mut m = chars_of("invalid agent ID '");
        append_vec(&mut m, &id);
        append_str(&mut m, "': must be alphanumeric with hyphens/underscores only");
        return Err(string_of(&m));
    }
    let mv = chars_of(form.mode.as_str());
    let mode = if str_eq("primary", &mv) {
        AgentMode::Primary
    } else if str_eq("subagent", &mv) {
        AgentMode::Subagent
    } else {
        let mut m = chars_of("invalid mode '");
        append_vec(&mut m, &mv);
        append_str(&mut m, "': must be 'primary' or 'subagent'");
        return Err(string_of(&m));
    };
    let ghost f = form;
    let tools = match &form.tools {
        Some(t) => Some(tool_map_of(t)),
        None => None,
    };
    let tags = match form.tags {
        Some(t) => t,
        None => {
            let v: Vec<String> = Vec::new();
            assert(views(v@) =~= Seq::<Seq<char>>::empty());
            v
        },
    };
    let file_path = String::new();
    let issues: Vec<String> = Vec::new();
    assert(views(issues@) =~= Seq::<Seq<char>>::empty());
    let p = AgentPreset {
        id: form.id,
        name: form.name,
        description: form.description,
        mode,
        model: form.model,
        temperature: form.temperature,
        steps: form.steps,
        tools,
        permission: None,
        prompt: form.prompt,
        tags,
        file_path,
        source: lit("workspace"),
        enabled: true,
        validation_issues: issues,
    };
    assert(p@ == created_preset(f, mode));
    Ok(p)
}

// ---------------------------------------------------------------------------
// Searching
// ---------------------------------------------------------------------------

/// A preset matches a query (in ASCII lower case) when its id, name,
/// description or one of its tags does, ignoring ASCII case.
pub open spec fn preset_matches(p: AgentPresetView, q: Seq<char>) -> bool {
    ||| contains(lower(p.id), q)
    ||| contains(lower(p.name), q)
    ||| contains(lower(p.description), q)
    ||| exists|i: int| 0 <= i < p.tags.len() && contains(lower(#[trigger] p.tags[i]), q)
}

/// The presets that match a query, in order; all of them for a blank one.
pub open spec fn matching_presets(ps: Seq<AgentPresetView>, query: Seq<char>) -> Seq<AgentPresetView> {
    if trim(query).len() == 0 {
        ps
    } else {
        ps.filter(|p: AgentPresetView| preset_matches(p, lower(query)))
    }
}

fn matches_query(p: &AgentPreset, q: &Vec<char>) -> (r: bool)
    ensures
        r == preset_matches(p@, q@),
{
    if contains_vec(&lower_vec(&chars_of(p.id.as_str())), q) || contains_vec(&lower_vec(&chars_of(p.name.as_str())), q)
        || contains_vec(&lower_vec(&chars_of(p.description.as_str())), q) {
        return true;
    }
    let mut i: usize = 0;
    while i < p.tags.len()
        invariant
            i <= p.tags.len(),
            forall|k: int| 0 <= k < i ==> !contains(lower(#[trigger] views(p.tags@)[k]), q@),
        decreases p.tags.len() - i,
    {
        if contains_vec(&lower_vec(&chars_of(p.tags[i].as_str())), q) {
            assert(contains(lower(views(p.tags@)[i as int]), q@));
            assert(p@.tags[i as int] == views(p.tags@)[i as int]);
            assert(contains(lower(p@.tags[i as int]), q@));
            return true;
        }
        i += 1;
    }
    false
}

/// The presets that match a query (see `matching_presets`).
pub fn search_agent_presets(presets: &Vec<AgentPreset>, query: &str) -> (r: Vec<AgentPreset>)
    ensures
        item_views(r@) == matching_presets(item_views(presets@), query@),
{
    let ghost pv = item_views(presets@);
    let mut out: Vec<AgentPreset> = Vec::new();
    let blank = trimmed(query).len() == 0;
    let q = lower_vec(&chars_of(query));
    let ghost pred = |p: AgentPresetView| preset_matches(p, lower(query@));
    let mut i: usize = 0;
    assert(pv.take(0) =~= Seq::<AgentPresetView>::empty());
    reveal_with_fuel(Seq::filter, 1);
    while i < presets.len()
        invariant
            i <= presets.len(),
            pv == item_views(presets@),
            q@ == lower(query@),
            blank == (trim(query@).len() == 0),
            pred == (|p: AgentPresetView| preset_matches(p, lower(query@))),
            blank ==> item_views(out@) =~= pv.take(i as int),
            !blank ==> item_views(out@) =~= pv.take(i as int).filter(pred),
        decreases presets.len() - i,
    {
        reveal_with_fuel(Seq::filter, 1);
        assert(pv.take(i + 1).drop_last() =~= pv.take(i as int));
        assert(pv.take(i + 1).last() == presets@[i as int]@);
        let ghost prev = out@;
        if blank || matches_query(&presets[i], &q) {
            out.push(presets[i].copy());
            assert(item_views(out@) =~= item_views(prev).push(presets@[i as int]@));
        }
        i += 1;
    }
    assert(pv.take(presets.len() as int) =~= pv);
    out
}

// ---------------------------------------------------------------------------
// Context
// ---------------------------------------------------------------------------

pub open spec fn mode_name(m: AgentMode) -> Seq<char> {
    match m {
        AgentMode::Primary => "Primary"@,
        AgentMode::Subagent => "Subagent"@,
    }
}

/// What introduces a preset to a run: its name, description, mode,
/// constraints and prompt.
pub open spec fn preset_context(p: AgentPresetView) -> Seq<char> {
    "## Agent: "@ + p.name + "\n\n"@ + p.description + "\n\nMode: "@ + mode_name(p.mode) + "\nConstraints: "@
        + constraints_summary_spec(p.steps, p.mode, p.tools) + "\n\n"@ + p.prompt
}

pub fn agent_preset_context(preset: &AgentPreset) -> (r: String)
    ensures
        r@ == preset_context(preset@),
{
    let mut c = chars_of("## Agent: ");
    append_str(&mut c, preset.name.as_str());
    append_str(&mut c, "\n\n");
    append_str(&mut c, preset.description.as_str());
    append_str(&mut c, "\n\nMode: ");
    match preset.mode {
        AgentMode::Primary => append_str(&mut c, "Primary"),
        AgentMode::Subagent => append_str(&mut c, "Subagent"),
    }
    append_str(&mut c, "\nConstraints: ");
    let s = preset.constraints_summary();
    append_str(&mut c, s.as_str());
    append_str(&mut c, "\n\n");
    append_str(&mut c, preset.prompt.as_str());
    string_of(&c)
}

} // verus!
