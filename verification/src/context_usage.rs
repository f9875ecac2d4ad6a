//! How much of a model's context window a task uses: estimates in tokens of
//! the system prompt, the tool definitions, the messages and the tool calls,
//! and the split of the window into named segments.
//!
//! A token is estimated as four characters, rounded up.  Reading the task's
//! transcript and serialising the tool descriptors is the caller's business.
use vstd::prelude::*;

use crate::text::{chars_of, lit, starts_with, starts_with_vec};

verus! {

/// `usize` addition that stops at the largest value.
pub open spec fn sat(n: int) -> nat {
    if n > usize::MAX {
        usize::MAX as nat
    } else if n < 0 {
        0
    } else {
        n as nat
    }
}

/// The estimated tokens of a text: its characters plus three, over four.
pub open spec fn text_tokens(s: Seq<char>) -> nat {
    sat(s.len() + 3int) / 4
}

pub fn estimate_text_tokens(value: &str) -> (r: usize)
    ensures
        r == text_tokens(value@),
{
    let n = chars_of(value).len();
    n.saturating_add(3) / 4
}

/// The estimated tokens of a message: its content and role, and four more.
pub open spec fn message_tokens(role: Seq<char>, content: Seq<char>) -> nat {
    sat(sat(text_tokens(content) + text_tokens(role) + 0int) + 4int)
}

pub fn estimate_message_tokens(role: &str, content: &str) -> (r: usize)
    ensures
        r == message_tokens(role@, content@),
{
    estimate_text_tokens(content).saturating_add(estimate_text_tokens(role)).saturating_add(4)
}

pub open spec fn message_views(m: Seq<(String, String)>) -> Seq<(Seq<char>, Seq<char>)> {
    Seq::new(m.len(), |i: int| (m[i].0@, m[i].1@))
}

/// The tokens of the messages, summed.
pub open spec fn messages_total(m: Seq<(Seq<char>, Seq<char>)>) -> nat
    decreases m.len(),
{
    if m.len() == 0 {
        0
    } else {
        messages_total(m.drop_last()) + message_tokens(m.last().0, m.last().1)
    }
}

/// Where the recent messages start: all but the last `max(keep, 1)` are
/// left out.
pub open spec fn recent_start(len: nat, keep: nat) -> int {
    let k: int = if keep < 1 { 1 } else { keep as int };
    if len >= k {
        len - k
    } else {
        0
    }
}

/// The tokens of the last `max(keep, 1)` messages, `(role, content)` each.
pub open spec fn recent_tokens(m: Seq<(Seq<char>, Seq<char>)>, keep: nat) -> nat {
    messages_total(m.skip(recent_start(m.len(), keep)))
}

proof fn lemma_total_step(m: Seq<(Seq<char>, Seq<char>)>, a: int, b: int)
    requires
        0 <= a < b <= m.len(),
    ensures
        messages_total(m.subrange(a, b)) == messages_total(m.subrange(a, b - 1)) + message_tokens(
            m[b - 1].0,
            m[b - 1].1,
        ),
{
    assert(m.subrange(a, b).drop_last() =~= m.subrange(a, b - 1));
}

/// Sums the tokens of the messages kept after compaction.  (The sum is
/// plain `usize` addition, so it must fit.)
pub fn estimate_recent_message_tokens(messages: &Vec<(String, String)>, preserve_recent: usize) -> (r: usize)
    requires
        recent_tokens(message_views(messages@), preserve_recent as nat) <= usize::MAX,
    ensures
        r == recent_tokens(message_views(messages@), preserve_recent as nat),
{
    let ghost mv = message_views(messages@);
    if messages.len() == 0 {
        assert(mv.skip(0) =~= Seq::<(Seq<char>, Seq<char>)>::empty());
        return 0;
    }
    let keep = if preserve_recent < 1 { 1 } else { preserve_recent };
    let start = messages.len().saturating_sub(keep);
    assert(start as int == recent_start(mv.len(), preserve_recent as nat));
    let ghost end = mv.len() as int;
    assert(mv.skip(start as int) =~= mv.subrange(start as int, end));
    let mut total: usize = 0;
    let mut i = start;
    assert(mv.subrange(start as int, start as int) =~= Seq::<(Seq<char>, Seq<char>)>::empty());
    while i < messages.len()
        invariant
            start <= i <= messages.len(),
            mv == message_views(messages@),
            end == mv.len(),
            total == messages_total(mv.subrange(start as int, i as int)),
            messages_total(mv.subrange(start as int, end)) <= usize::MAX,
        decreases messages.len() - i,
    {
        proof {
            lemma_total_step(mv, start as int, i + 1);
            lemma_total_mono(mv, start as int, i + 1, end);
        }
        let t = estimate_message_tokens(messages[i].0.as_str(), messages[i].1.as_str());
        total = total + t;
        i += 1;
    }
    total
}

/// The total of a longer run of messages is at least that of a shorter one.
proof fn lemma_total_mono(m: Seq<(Seq<char>, Seq<char>)>, a: int, b: int, c: int)
    requires
        0 <= a <= b <= c <= m.len(),
    ensures
        messages_total(m.subrange(a, b)) <= messages_total(m.subrange(a, c)),
    decreases c - b,
{
    if b < c {
        lemma_total_step(m, a, c);
        lemma_total_mono(m, a, b, c - 1);
    }
}

// ---------------------------------------------------------------------------
// System prompt and tools
// ---------------------------------------------------------------------------

pub open spec fn plan_prompt() -> Seq<char> {
    "You are in PLAN mode. Use read-only tools to explore the workspace and create a plan artifact before requesting build mode."@
}

pub open spec fn build_prompt() -> Seq<char> {
    "You are in BUILD mode. Execute the approved plan using tools, keep the user informed, and stop when the objective is complete."@
}

/// The tokens of the system prompt of a mode: the plan prompt in `plan`
/// mode, else the build prompt.
pub open spec fn system_prompt_tokens(mode: Option<Seq<char>>) -> nat {
    if mode == Some("plan"@) {
        text_tokens(plan_prompt())
    } else {
        text_tokens(build_prompt())
    }
}

pub fn estimate_system_prompt_tokens(mode: Option<&str>) -> (r: usize)
    ensures
        r == system_prompt_tokens(
            match mode {
                Some(m) => Some(m@),
                None => None,
            },
        ),
{
    let plan = match mode {
        Some(m) => crate::text::str_eq("plan", &chars_of(m)),
        None => false,
    };
    if plan {
        estimate_text_tokens("You are in PLAN mode. Use read-only tools to explore the workspace and create a plan artifact before requesting build mode.")
    } else {
        estimate_text_tokens("You are in BUILD mode. Execute the approved plan using tools, keep the user informed, and stop when the objective is complete.")
    }
}

/// The tokens of tool descriptors, `(name, serialised descriptor)` each,
/// split into the MCP tools (named `mcp.…`) and the others; each sum stops
/// at the largest `usize`.
pub open spec fn tool_tokens(tools: Seq<(Seq<char>, Seq<char>)>) -> (nat, nat)
    decreases tools.len(),
{
    if tools.len() == 0 {
        (0, 0)
    } else {
        let (d, m) = tool_tokens(tools.drop_last());
        let t = text_tokens(tools.last().1);
        if starts_with(tools.last().0, "mcp."@) {
            (d, sat(m + t + 0int))
        } else {
            (sat(d + t + 0int), m)
        }
    }
}

pub fn estimate_tool_descriptor_tokens(tools: &Vec<(String, String)>) -> (r: (usize, usize))
    ensures
        (r.0 as nat, r.1 as nat) == tool_tokens(message_views(tools@)),
{
    let ghost tv = message_views(tools@);
    let mut defs: usize = 0;
    let mut mcp: usize = 0;
    let mut i: usize = 0;
    let prefix = chars_of("mcp.");
    assert(tv.take(0) =~= Seq::<(Seq<char>, Seq<char>)>::empty());
    while i < tools.len()
        invariant
            i <= tools.len(),
            tv == message_views(tools@),
            prefix@ == "mcp."@,
            (defs as nat, mcp as nat) == tool_tokens(tv.take(i as int)),
        decreases tools.len() - i,
    {
        assert(tv.take(i + 1).drop_last() =~= tv.take(i as int));
        assert(tv.take(i + 1).last() == tv[i as int]);
        let t = estimate_text_tokens(tools[i].1.as_str());
        if starts_with_vec(&chars_of(tools[i].0.as_str()), &prefix) {
            mcp = mcp.saturating_add(t);
        } else {
            defs = defs.saturating_add(t);
        }
        i += 1;
    }
    assert(tv.take(tools.len() as int) =~= tv);
    (defs, mcp)
}

/// A recorded tool call: its input, and its output and error where there
/// are any.
pub struct ToolCallText {
    pub input_json: String,
    pub output_json: Option<String>,
    pub error: Option<String>,
}

pub open spec fn opt_tokens(o: Option<String>) -> nat {
    match o {
        Some(s) => text_tokens(s@),
        None => 0,
    }
}

/// The tokens of one tool call: input, output and error, each sum stopping
/// at the largest `usize`.
pub open spec fn call_tokens(c: ToolCallText) -> nat {
    sat(sat(text_tokens(c.input_json@) + opt_tokens(c.output_json) + 0int) + opt_tokens(c.error) + 0int)
}

pub open spec fn calls_total(calls: Seq<ToolCallText>) -> nat
    decreases calls.len(),
{
    if calls.len() == 0 {
        0
    } else {
        calls_total(calls.drop_last()) + call_tokens(calls.last())
    }
}

proof fn lemma_calls_mono(calls: Seq<ToolCallText>, b: int)
    requires
        0 <= b <= calls.len(),
    ensures
        calls_total(calls.take(b)) <= calls_total(calls),
    decreases calls.len() - b,
{
    if b < calls.len() {
        lemma_calls_mono(calls, b + 1);
        assert(calls.take(b + 1).drop_last() =~= calls.take(b));
    } else {
        assert(calls.take(b) =~= calls);
    }
}

fn opt_text_tokens(o: &Option<String>) -> (r: usize)
    ensures
        r == opt_tokens(*o),
{
    match o {
        Some(s) => estimate_text_tokens(s.as_str()),
        None => 0,
    }
}

/// Sums the tokens of the task's tool calls.  (The sum is plain `usize`
/// addition, so it must fit.)
pub fn estimate_tool_call_tokens(calls: &Vec<ToolCallText>) -> (r: usize)
    requires
        calls_total(calls@) <= usize::MAX,
    ensures
        r == calls_total(calls@),
{
    let mut total: usize = 0;
    let mut i: usize = 0;
    assert(calls@.take(0) =~= Seq::<ToolCallText>::empty());
    while i < calls.len()
        invariant
            i <= calls.len(),
            total == calls_total(calls@.take(i as int)),
            calls_total(calls@) <= usize::MAX,
        decreases calls.len() - i,
    {
        proof {
            assert(calls@.take(i + 1).drop_last() =~= calls@.take(i as int));
            lemma_calls_mono(calls@, i + 1);
        }
        let c = &calls[i];
        let t = estimate_text_tokens(c.input_json.as_str()).saturating_add(opt_text_tokens(&c.output_json)).saturating_add(
            opt_text_tokens(&c.error),
        );
        total = total + t;
        i += 1;
    }
    assert(calls@.take(calls.len() as int) =~= calls@);
    total
}

// ---------------------------------------------------------------------------
// The window
// ---------------------------------------------------------------------------

/// The tokens that each part of the context takes.
#[derive(Debug, Clone, Copy)]
pub struct ContextParts {
    pub system_prompt: usize,
    pub tool_definitions: usize,
    pub mcp_tools: usize,
    pub messages: usize,
    pub autocompact: usize,
    pub tool_calls: usize,
}

/// The messages counted: after a compaction that left a summary, only the
/// recent ones; else the whole transcript's estimate.
pub open spec fn counted_messages(needs_compaction: bool, autocompact: nat, recent: nat, transcript: nat) -> nat {
    if needs_compaction && autocompact > 0 {
        recent
    } else {
        transcript
    }
}

pub fn choose_message_tokens(needs_compaction: bool, autocompact: usize, recent: usize, transcript: usize) -> (r: usize)
    ensures
        r == counted_messages(needs_compaction, autocompact as nat, recent as nat, transcript as nat),
{
    if needs_compaction && autocompact > 0 {
        recent
    } else {
        transcript
    }
}

/// The summary's token estimate, negative values counting as none.
pub fn summary_tokens(token_estimate: Option<i64>) -> (r: usize)
    requires
        match token_estimate {
            Some(v) => v <= usize::MAX,
            None => true,
        },
    ensures
        r == match token_estimate {
            Some(v) => if v > 0 { v as nat } else { 0 },
            None => 0,
        },
{
    match token_estimate {
        Some(v) => if v > 0 {
            v as usize
        } else {
            0
        },
        None => 0,
    }
}

/// The tokens used: all parts, summed with each addition stopping at the
/// largest `usize`.
pub open spec fn used_of(p: ContextParts) -> nat {
    sat(sat(sat(sat(sat(p.system_prompt + p.tool_definitions) + p.mcp_tools + 0int) + p.messages + 0int) + p.autocompact + 0int) + p.tool_calls + 0int)
}

/// The window's free tokens: what is left of it, or none.
pub open spec fn free_of(window: nat, used: nat) -> nat {
    if window >= used {
        (window - used) as nat
    } else {
        0
    }
}

/// One named share of the window.
#[derive(Debug)]
pub struct UsageSegment {
    pub key: String,
    pub label: String,
    pub tokens: usize,
}

/// The window split into shares.
#[derive(Debug)]
pub struct ContextUsage {
    pub context_window: usize,
    pub used_tokens: usize,
    pub free_tokens: usize,
    pub segments: Vec<UsageSegment>,
}

pub open spec fn segment_views(v: Seq<UsageSegment>) -> Seq<(Seq<char>, Seq<char>, nat)> {
    Seq::new(v.len(), |i: int| (v[i].key@, v[i].label@, v[i].tokens as nat))
}

/// The shares of the window, in the order they are shown.
pub open spec fn usage_segments(p: ContextParts, free: nat) -> Seq<(Seq<char>, Seq<char>, nat)> {
    seq![
        ("system_prompt"@, "System instructions"@, p.system_prompt as nat),
        ("tool_definitions"@, "Tool definitions"@, p.tool_definitions as nat),
        ("mcp_tools"@, "MCP tools"@, p.mcp_tools as nat),
        ("messages"@, "Messages"@, p.messages as nat),
        ("tool_calls"@, "Tool calls & responses"@, p.tool_calls as nat),
        ("autocompact_buffer"@, "Autocompact buffer"@, p.autocompact as nat),
        ("free_space"@, "Free space"@, free),
    ]
}

fn segment(key: &str, label: &str, tokens: usize) -> (r: UsageSegment)
    ensures
        r.key@ == key@,
        r.label@ == label@,
        r.tokens == tokens,
{
    UsageSegment { key: lit(key), label: lit(label), tokens }
}

/// Splits a context window between the parts of a task's context.
pub fn context_usage(context_window: usize, parts: ContextParts) -> (r: ContextUsage)
    ensures
        r.context_window == context_window,
        r.used_tokens == used_of(parts),
        r.free_tokens == free_of(context_window as nat, used_of(parts)),
        segment_views(r.segments@) == usage_segments(parts, free_of(context_window as nat, used_of(parts))),
{
    let used = parts.system_prompt.saturating_add(parts.tool_definitions).saturating_add(parts.mcp_tools).saturating_add(
        parts.messages,
    ).saturating_add(parts.autocompact).saturating_add(parts.tool_calls);
    let free = context_window.saturating_sub(used);
    let segments = vec![
        segment("system_prompt", "System instructions", parts.system_prompt),
        segment("tool_definitions", "Tool definitions", parts.tool_definitions),
        segment("mcp_tools", "MCP tools", parts.mcp_tools),
        segment("messages", "Messages", parts.messages),
        segment("tool_calls", "Tool calls & responses", parts.tool_calls),
        segment("autocompact_buffer", "Autocompact buffer", parts.autocompact),
        segment("free_space", "Free space", free),
    ];
    assert(segment_views(segments@) =~= usage_segments(parts, free as nat));
    ContextUsage { context_window, used_tokens: used, free_tokens: free, segments }
}

/// The used and free tokens always add up to at least the window, and the
/// free tokens never exceed it.
pub proof fn law_usage_fits_window(window: nat, p: ContextParts)
    ensures
        free_of(window, used_of(p)) <= window,
        free_of(window, used_of(p)) + used_of(p) >= window,
{
}

} // verus!
