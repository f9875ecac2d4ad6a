//! Server entries as the MCP settings page submits them: local (stdio) or
//! remote (HTTP/SSE) servers with their authentication, tool filter and
//! approval policy, and the summary the page shows of a server.
//!
//! Checking a server's own settings, saving the list and talking to the
//! servers are the MCP manager's business.
use vstd::prelude::*;

use crate::mcp::{env_names_distinct, env_views, legacy_id, sanitize_id};
use crate::text::{chars_of, lit, opt_view, seq_eq, string_of, trim, trimmed, views};

verus! {

/// How a server is reached.
#[derive(Debug, Clone, Copy, PartialEq, Eq, Structural)]
pub enum McpTransportType {
    Stdio,
    Http,
    Sse,
}

/// Whether a tool filter lists the tools to keep or to drop.
#[derive(Debug, Clone, Copy, PartialEq, Eq, Structural)]
pub enum FilterMode {
    Include,
    Exclude,
}

/// When calls to a server's tools need the user's approval.
#[derive(Debug, Clone, Copy, PartialEq, Eq, Structural)]
pub enum GlobalApprovalPolicy {
    Always,
    Never,
    ByTool,
}

/// Authentication as entered.
#[derive(Debug)]
pub struct McpAuthInput {
    pub oauth_token: Option<String>,
    pub headers: Vec<(String, String)>,
    pub api_key: Option<String>,
    pub api_key_header: Option<String>,
}

/// A tool filter as entered; `mode` is `include` or `exclude`.
#[derive(Debug)]
pub struct ToolFilterInput {
    pub mode: String,
    pub tools: Vec<String>,
    pub allow_all_read_only: bool,
    pub block_all_modifying: bool,
}

/// An approval rule for the tools a pattern matches.
#[derive(Debug)]
pub struct ToolOverrideInput {
    pub pattern: String,
    pub requires_approval: bool,
    pub is_glob: bool,
}

/// An approval policy as entered; `global_policy` is `always`, `never` or
/// anything else for a decision per tool.
#[derive(Debug)]
pub struct ToolApprovalPolicyInput {
    pub global_policy: String,
    pub tool_overrides: Vec<ToolOverrideInput>,
    pub read_only_never_requires_approval: bool,
    pub modifying_always_requires_approval: bool,
}

/// A server as the settings page submits it.
#[derive(Debug)]
pub struct CreateMcpServerInput {
    pub id: Option<String>,
    pub name: String,
    pub transport: McpTransportType,
    pub enabled: bool,
    pub command: Option<String>,
    pub args: Vec<String>,
    /// Extra environment variables as (name, value) pairs; the caller's map
    /// holds each name once (`env_names_distinct`), and the list is kept as
    /// given.
    pub env: Vec<(String, String)>,
    pub working_dir: Option<String>,
    pub url: Option<String>,
    pub auth: Option<McpAuthInput>,
    pub timeout_secs: u64,
    pub pool_size: usize,
    pub tool_filter: Option<ToolFilterInput>,
    pub approval_policy: Option<ToolApprovalPolicyInput>,
}

impl CreateMcpServerInput {
    /// An entry with only a name: a local, enabled server with a 30 second
    /// timeout, a pool of 5 connections and nothing else set.
    pub fn new(name: String) -> (r: CreateMcpServerInput)
        ensures
            r.name == name,
            r.id is None,
            r.transport == McpTransportType::Stdio,
            r.enabled,
            r.command is None,
            r.args@.len() == 0,
            r.env@.len() == 0,
            r.working_dir is None,
            r.url is None,
            r.auth is None,
            r.timeout_secs == 30,
            r.pool_size == 5,
            r.tool_filter is None,
            r.approval_policy is None,
    {
        CreateMcpServerInput {
            id: None,
            name,
            transport: McpTransportType::Stdio,
            enabled: true,
            command: None,
            args: Vec::new(),
            env: Vec::new(),
            working_dir: None,
            url: None,
            auth: None,
            timeout_secs: 30,
            pool_size: 5,
            tool_filter: None,
            approval_policy: None,
        }
    }
}

#[derive(Debug)]
pub struct McpAuthConfig {
    pub oauth_token: Option<String>,
    pub headers: Vec<(String, String)>,
    pub api_key: Option<String>,
    pub api_key_header: Option<String>,
}

#[derive(Debug)]
pub struct ToolFilter {
    pub mode: FilterMode,
    pub tools: Vec<String>,
    pub allow_all_read_only: bool,
    pub block_all_modifying: bool,
}

#[derive(Debug)]
pub struct ToolOverride {
    pub pattern: String,
    pub requires_approval: bool,
    pub is_glob: bool,
}

#[derive(Debug)]
pub struct ToolApprovalPolicy {
    pub global_policy: GlobalApprovalPolicy,
    pub tool_overrides: Vec<ToolOverride>,
    pub read_only_never_requires_approval: bool,
    pub modifying_always_requires_approval: bool,
}

/// A server's configuration.  An absent authentication, tool filter or
/// approval policy stands for the MCP manager's defaults.
#[derive(Debug)]
pub struct McpServerConfig {
    pub id: String,
    pub name: String,
    pub transport: McpTransportType,
    pub enabled: bool,
    pub command: Option<String>,
    pub args: Vec<String>,
    /// Extra environment variables as (name, value) pairs; the caller's map
    /// holds each name once (`env_names_distinct`), and the list is kept as
    /// given.
    pub env: Vec<(String, String)>,
    pub working_dir: Option<String>,
    pub url: Option<String>,
    pub auth: Option<McpAuthConfig>,
    pub timeout_secs: u64,
    pub pool_size: usize,
    pub health_check_interval_secs: u64,
    pub tool_filter: Option<ToolFilter>,
    pub approval_policy: Option<ToolApprovalPolicy>,
}

/// How often a server's health is checked, in seconds.
pub const HEALTH_CHECK_INTERVAL_SECS: u64 = 60;

// ---------------------------------------------------------------------------
// Views
// ---------------------------------------------------------------------------

pub type AuthModel = (Option<Seq<char>>, Seq<(Seq<char>, Seq<char>)>, Option<Seq<char>>, Option<Seq<char>>);

pub open spec fn auth_input_view(a: Option<McpAuthInput>) -> Option<AuthModel> {
    match a {
        Some(x) => Some((opt_view(x.oauth_token), env_views(x.headers@), opt_view(x.api_key), opt_view(x.api_key_header))),
        None => None,
    }
}

pub open spec fn auth_view(a: Option<McpAuthConfig>) -> Option<AuthModel> {
    match a {
        Some(x) => Some((opt_view(x.oauth_token), env_views(x.headers@), opt_view(x.api_key), opt_view(x.api_key_header))),
        None => None,
    }
}

/// The filter mode a word names: `exclude`, else include.
pub open spec fn filter_mode_of(mode: Seq<char>) -> FilterMode {
    if mode == "exclude"@ {
        FilterMode::Exclude
    } else {
        FilterMode::Include
    }
}

/// The policy a word names: `always`, `never`, else per tool.
pub open spec fn policy_of(word: Seq<char>) -> GlobalApprovalPolicy {
    if word == "always"@ {
        GlobalApprovalPolicy::Always
    } else if word == "never"@ {
        GlobalApprovalPolicy::Never
    } else {
        GlobalApprovalPolicy::ByTool
    }
}

pub type FilterModel = (FilterMode, Seq<Seq<char>>, bool, bool);

pub open spec fn filter_input_view(f: Option<ToolFilterInput>) -> Option<FilterModel> {
    match f {
        Some(x) => Some((filter_mode_of(x.mode@), views(x.tools@), x.allow_all_read_only, x.block_all_modifying)),
        None => None,
    }
}

pub open spec fn filter_view(f: Option<ToolFilter>) -> Option<FilterModel> {
    match f {
        Some(x) => Some((x.mode, views(x.tools@), x.allow_all_read_only, x.block_all_modifying)),
        None => None,
    }
}

pub type PolicyModel = (GlobalApprovalPolicy, Seq<(Seq<char>, bool, bool)>, bool, bool);

pub open spec fn override_input_views(v: Seq<ToolOverrideInput>) -> Seq<(Seq<char>, bool, bool)> {
    Seq::new(v.len(), |i: int| (v[i].pattern@, v[i].requires_approval, v[i].is_glob))
}

pub open spec fn override_views(v: Seq<ToolOverride>) -> Seq<(Seq<char>, bool, bool)> {
    Seq::new(v.len(), |i: int| (v[i].pattern@, v[i].requires_approval, v[i].is_glob))
}

pub open spec fn policy_input_view(p: Option<ToolApprovalPolicyInput>) -> Option<PolicyModel> {
    match p {
        Some(x) => Some((
            policy_of(x.global_policy@),
            override_input_views(x.tool_overrides@),
            x.read_only_never_requires_approval,
            x.modifying_always_requires_approval,
        )),
        None => None,
    }
}

pub open spec fn policy_view(p: Option<ToolApprovalPolicy>) -> Option<PolicyModel> {
    match p {
        Some(x) => Some((x.global_policy, override_views(x.tool_overrides@), x.read_only_never_requires_approval, x.modifying_always_requires_approval)),
        None => None,
    }
}

// ---------------------------------------------------------------------------
// From the settings page to a configuration
// ---------------------------------------------------------------------------

fn filter_mode(mode: &String) -> (r: FilterMode)
    ensures
        r == filter_mode_of(mode@),
{
    if seq_eq(&chars_of(mode.as_str()), &chars_of("exclude")) {
        FilterMode::Exclude
    } else {
        FilterMode::Include
    }
}

fn approval_policy(word: &String) -> (r: GlobalApprovalPolicy)
    ensures
        r == policy_of(word@),
{
    let w = chars_of(word.as_str());
    if seq_eq(&w, &chars_of("always")) {
        GlobalApprovalPolicy::Always
    } else if seq_eq(&w, &chars_of("never")) {
        GlobalApprovalPolicy::Never
    } else {
        GlobalApprovalPolicy::ByTool
    }
}

fn overrides(v: Vec<ToolOverrideInput>) -> (r: Vec<ToolOverride>)
    ensures
        override_views(r@) == override_input_views(v@),
{
    let mut out: Vec<ToolOverride> = Vec::new();
    let mut rest = v;
    let ghost all = override_input_views(rest@);
    // Taken from the back, then put back in order.
    let mut back: Vec<ToolOverride> = Vec::new();
    while rest.len() > 0
        invariant
            override_input_views(rest@) + override_views(back@).reverse() == all,
        decreases rest.len(),
    {
        let ghost before_rest = rest@;
        let ghost before_back = back@;
        let o = rest.pop().unwrap();
        back.push(ToolOverride { pattern: o.pattern, requires_approval: o.requires_approval, is_glob: o.is_glob });
        proof {
            assert(rest@ =~= before_rest.drop_last());
            assert(override_views(back@) =~= override_views(before_back).push((o.pattern@, o.requires_approval, o.is_glob)));
            assert(override_input_views(before_rest) =~= override_input_views(rest@).push((o.pattern@, o.requires_approval, o.is_glob)));
            assert(override_views(back@).reverse() =~= seq![(o.pattern@, o.requires_approval, o.is_glob)] + override_views(before_back).reverse());
            assert(override_input_views(rest@) + override_views(back@).reverse() =~= override_input_views(before_rest) + override_views(before_back).reverse());
        }
    }
    assert(override_input_views(rest@) =~= Seq::<(Seq<char>, bool, bool)>::empty());
    while back.len() > 0
        invariant
            override_views(out@) + override_views(back@).reverse() == all,
        decreases back.len(),
    {
        let ghost before_out = out@;
        let ghost before_back = back@;
        let o = back.pop().unwrap();
        let ghost item = (o.pattern@, o.requires_approval, o.is_glob);
        out.push(o);
        proof {
            assert(back@ =~= before_back.drop_last());
            assert(override_views(out@) =~= override_views(before_out).push(item));
            assert(override_views(before_back) =~= override_views(back@).push(item));
            assert(override_views(before_back).reverse() =~= seq![item] + override_views(back@).reverse());
            assert(override_views(out@) + override_views(back@).reverse() =~= override_views(before_out) + override_views(before_back).reverse());
        }
    }
    assert(override_views(back@).reverse() =~= Seq::<(Seq<char>, bool, bool)>::empty());
    assert(override_views(out@) =~= all);
    out
}

/// The configuration of a server entered on the settings page, or why it is
/// refused: the name is required (trimmed), and an id must come out of the
/// given id or else the name (see `legacy_id`).  The filter mode and the
/// approval policy are read from their words; everything else is kept,
/// and health is checked every minute.
pub fn mcp_server_from_input(input: CreateMcpServerInput) -> (r: Result<McpServerConfig, String>)
    ensures
        trim(input.name@).len() == 0 ==> (r matches Err(e) && e@ == "name is required"@),
        trim(input.name@).len() > 0 ==> {
            let id = legacy_id(opt_view(input.id), input.name@);
            if id.len() == 0 {
                (r matches Err(e) && e@ == "could not derive valid id"@)
            } else {
                (r matches Ok(c) && {
                    &&& c.id@ == id
                    &&& c.name@ == trim(input.name@)
                    &&& c.transport == input.transport
                    &&& c.enabled == input.enabled
                    &&& opt_view(c.command) == opt_view(input.command)
                    &&& views(c.args@) == views(input.args@)
                    &&& env_views(c.env@) == env_views(input.env@)
                    &&& env_names_distinct(env_views(input.env@)) ==> env_names_distinct(env_views(c.env@))
                    &&& opt_view(c.working_dir) == opt_view(input.working_dir)
                    &&& opt_view(c.url) == opt_view(input.url)
                    &&& auth_view(c.auth) == auth_input_view(input.auth)
                    &&& c.timeout_secs == input.timeout_secs
                    &&& c.pool_size == input.pool_size
                    &&& c.health_check_interval_secs == HEALTH_CHECK_INTERVAL_SECS
                    &&& filter_view(c.tool_filter) == filter_input_view(input.tool_filter)
                    &&& policy_view(c.approval_policy) == policy_input_view(input.approval_policy)
                })
            }
        },
{
    let name = trimmed(input.name.as_str());
    if name.len() == 0 {
        return Err(lit("name is required"));
    }
    let name_s = string_of(&name);
    let own = match &input.id {
        Some(i) => sanitize_id(i.as_str()),
        None => String::new(),
    };
    let id = if input.id.is_some() && chars_of(own.as_str()).len() > 0 {
        own
    } else {
        sanitize_id(name_s.as_str())
    };
    if chars_of(id.as_str()).len() == 0 {
        return Err(lit("could not derive valid id"));
    }
    let auth = match input.auth {
        Some(a) => Some(
            McpAuthConfig { oauth_token: a.oauth_token, headers: a.headers, api_key: a.api_key, api_key_header: a.api_key_header },
        ),
        None => None,
    };
    let tool_filter = match input.tool_filter {
        Some(f) => Some(
            ToolFilter {
                mode: filter_mode(&f.mode),
                tools: f.tools,
                allow_all_read_only: f.allow_all_read_only,
                block_all_modifying: f.block_all_modifying,
            },
        ),
        None => None,
    };
    let approval = match input.approval_policy {
        Some(p) => Some(
            ToolApprovalPolicy {
                global_policy: approval_policy(&p.global_policy),
                tool_overrides: overrides(p.tool_overrides),
                read_only_never_requires_approval: p.read_only_never_requires_approval,
                modifying_always_requires_approval: p.modifying_always_requires_approval,
            },
        ),
        None => None,
    };
    Ok(McpServerConfig {
        id,
        name: name_s,
        transport: input.transport,
        enabled: input.enabled,
        command: input.command,
        args: input.args,
        env: input.env,
        working_dir: input.working_dir,
        url: input.url,
        auth,
        timeout_secs: input.timeout_secs,
        pool_size: input.pool_size,
        health_check_interval_secs: HEALTH_CHECK_INTERVAL_SECS,
        tool_filter,
        approval_policy: approval,
    })
}

// ---------------------------------------------------------------------------
// What the settings page shows
// ---------------------------------------------------------------------------

/// The health of a connected server.
#[derive(Debug)]
pub struct McpServerHealthView {
    pub status: String,
    pub last_check: Option<String>,
    pub connected_at: Option<String>,
    pub error_count: u64,
}

/// A server as the settings page lists it.
#[derive(Debug)]
pub struct McpServerView {
    pub id: String,
    pub name: String,
    pub transport: String,
    pub enabled: bool,
    pub command: Option<String>,
    pub args: Vec<String>,
    pub url: Option<String>,
    pub timeout_secs: u64,
    pub pool_size: usize,
    pub tool_count: usize,
    pub health: Option<McpServerHealthView>,
}

pub open spec fn transport_name(t: McpTransportType) -> Seq<char> {
    match t {
        McpTransportType::Stdio => "stdio"@,
        McpTransportType::Http => "http"@,
        McpTransportType::Sse => "sse"@,
    }
}

pub fn transport_label(t: McpTransportType) -> (r: String)
    ensures
        r@ == transport_name(t),
{
    match t {
        McpTransportType::Stdio => lit("stdio"),
        McpTransportType::Http => lit("http"),
        McpTransportType::Sse => lit("sse"),
    }
}

/// The summary of a server, with the number of its cached tools and its
/// health when it is connected.
pub fn server_view(config: McpServerConfig, tool_count: usize, health: Option<McpServerHealthView>) -> (r: McpServerView)
    ensures
        r.id@ == config.id@,
        r.name@ == config.name@,
        r.transport@ == transport_name(config.transport),
        r.enabled == config.enabled,
        opt_view(r.command) == opt_view(config.command),
        views(r.args@) == views(config.args@),
        opt_view(r.url) == opt_view(config.url),
        r.timeout_secs == config.timeout_secs,
        r.pool_size == config.pool_size,
        r.tool_count == tool_count,
        r.health == health,
{
    McpServerView {
        id: config.id,
        name: config.name,
        transport: transport_label(config.transport),
        enabled: config.enabled,
        command: config.command,
        args: config.args,
        url: config.url,
        timeout_secs: config.timeout_secs,
        pool_size: config.pool_size,
        tool_count,
        health,
    }
}

} // verus!
