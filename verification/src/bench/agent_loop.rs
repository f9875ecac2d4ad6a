//! The turn loop of the coding and diagram benchmark tasks: when the model
//! is asked again, how the running context grows with tool results, and how
//! a finished or exhausted task is reported.
//!
//! Asking the model, running the tools and the timing are the caller's
//! business: it reports each decision and the time spent, and sends the
//! context these functions build.
use vstd::prelude::*;

use crate::text::{append_str, append_vec, chars_of, decimal, decimal_vec, join, join_vec, lit, string_of, views, views_v};

verus! {

/// How far a task has gone: the model's turns and the tool calls made.
#[derive(Debug, Clone, Copy, PartialEq, Eq, Structural)]
pub struct TaskProgress {
    pub turns: usize,
    pub tool_calls: usize,
}

impl TaskProgress {
    pub fn start() -> (r: TaskProgress)
        ensures
            r.turns == 0,
            r.tool_calls == 0,
    {
        TaskProgress { turns: 0, tool_calls: 0 }
    }
}

/// The model is asked again while turns are left and the task has not run
/// longer than its timeout (in whole seconds).
pub open spec fn asks_again(p: TaskProgress, max_turns: usize, elapsed_secs: u64, timeout_secs: u64) -> bool {
    p.turns < max_turns && elapsed_secs <= timeout_secs
}

pub fn should_ask_model(p: TaskProgress, max_turns: usize, elapsed_secs: u64, timeout_secs: u64) -> (r: bool)
    ensures
        r == asks_again(p, max_turns, elapsed_secs, timeout_secs),
{
    p.turns < max_turns && elapsed_secs <= timeout_secs
}

/// The model answered: one more turn, and `calls` more tool calls.
pub fn after_decision(p: TaskProgress, calls: usize) -> (r: TaskProgress)
    requires
        p.turns < usize::MAX,
        p.tool_calls + calls <= usize::MAX,
    ensures
        r.turns == p.turns + 1,
        r.tool_calls == p.tool_calls + calls,
{
    TaskProgress { turns: p.turns + 1, tool_calls: p.tool_calls + calls }
}

/// The results shown to the model: the observations that name a tool
/// (`(names a tool, text)` each), separated by blank lines.
pub open spec fn shown_results(observations: Seq<(bool, Seq<char>)>) -> Seq<char> {
    join(
        observations.filter(|o: (bool, Seq<char>)| o.0).map_values(|o: (bool, Seq<char>)| o.1),
        "\n\n"@,
    )
}

pub open spec fn obs_views(v: Seq<(bool, String)>) -> Seq<(bool, Seq<char>)> {
    Seq::new(v.len(), |i: int| (v[i].0, v[i].1@))
}

fn shown_results_vec(observations: &Vec<(bool, String)>) -> (r: Vec<char>)
    ensures
        r@ == shown_results(obs_views(observations@)),
{
    let ghost ov = obs_views(observations@);
    let ghost pred = |o: (bool, Seq<char>)| o.0;
    let ghost f = |o: (bool, Seq<char>)| o.1;
    let mut kept: Vec<Vec<char>> = Vec::new();
    let mut i: usize = 0;
    assert(ov.take(0) =~= Seq::<(bool, Seq<char>)>::empty());
    reveal_with_fuel(Seq::filter, 1);
    while i < observations.len()
        invariant
            i <= observations.len(),
            ov == obs_views(observations@),
            pred == (|o: (bool, Seq<char>)| o.0),
            f == (|o: (bool, Seq<char>)| o.1),
            views_v(kept@) =~= ov.take(i as int).filter(pred).map_values(f),
        decreases observations.len() - i,
    {
        reveal_with_fuel(Seq::filter, 1);
        assert(ov.take(i + 1).drop_last() =~= ov.take(i as int));
        assert(ov.take(i + 1).last() == ov[i as int]);
        let ghost prev = kept@;
        if observations[i].0 {
            kept.push(chars_of(observations[i].1.as_str()));
            assert(ov.take(i + 1).filter(pred) == ov.take(i as int).filter(pred).push(ov[i as int]));
            assert(views_v(kept@) =~= views_v(prev).push(observations@[i as int].1@));
        } else {
            assert(ov.take(i + 1).filter(pred) == ov.take(i as int).filter(pred));
        }
        i += 1;
    }
    assert(ov.take(observations.len() as int) =~= ov);
    join_vec(&kept, &chars_of("\n\n"))
}

/// The context after a batch of tool calls: the count of calls so far and
/// all results that name a tool.
pub open spec fn context_after_calls(context: Seq<char>, tool_calls: nat, observations: Seq<(bool, Seq<char>)>) -> Seq<char> {
    context + "\n\nTool calls executed: "@ + decimal(tool_calls) + "\n\nTool results:\n"@ + shown_results(observations)
}

pub fn grow_context_after_calls(context: &str, tool_calls: usize, observations: &Vec<(bool, String)>) -> (r: String)
    ensures
        r@ == context_after_calls(context@, tool_calls as nat, obs_views(observations@)),
{
    let mut c = chars_of(context);
    append_str(&mut c, "\n\nTool calls executed: ");
    append_vec(&mut c, &decimal_vec(tool_calls as u64));
    append_str(&mut c, "\n\nTool results:\n");
    append_vec(&mut c, &shown_results_vec(observations));
    string_of(&c)
}

/// The context after a single tool call: its name and all results that
/// name a tool.
pub open spec fn context_after_call(context: Seq<char>, tool: Seq<char>, observations: Seq<(bool, Seq<char>)>) -> Seq<char> {
    context + "\n\nTool call executed: "@ + tool + "\n\nTool results:\n"@ + shown_results(observations)
}

pub fn grow_context_after_call(context: &str, tool: &str, observations: &Vec<(bool, String)>) -> (r: String)
    ensures
        r@ == context_after_call(context@, tool@, obs_views(observations@)),
{
    let mut c = chars_of(context);
    append_str(&mut c, "\n\nTool call executed: ");
    append_str(&mut c, tool);
    append_str(&mut c, "\n\nTool results:\n");
    append_vec(&mut c, &shown_results_vec(observations));
    string_of(&c)
}

/// Which benchmark a task belongs to: their notes on delegation differ.
#[derive(Debug, Clone, Copy, PartialEq, Eq, Structural)]
pub enum LoopKind {
    Coding,
    Diagram,
}

pub open spec fn delegation_note(kind: LoopKind) -> Seq<char> {
    match kind {
        LoopKind::Coding => "\n\n[Note: Sub-agent delegation is not available in this benchmark. Please complete the task directly or make tool calls.]"@,
        LoopKind::Diagram => "\n\n[Note: Sub-agent delegation is not available. Complete directly or use available tools.]"@,
    }
}

/// The context after the model asked to delegate, which is not offered.
pub fn grow_context_after_delegation(context: &str, kind: LoopKind) -> (r: String)
    ensures
        r@ == context@ + delegation_note(kind),
{
    let mut c = chars_of(context);
    match kind {
        LoopKind::Coding => append_str(
            &mut c,
            "\n\n[Note: Sub-agent delegation is not available in this benchmark. Please complete the task directly or make tool calls.]",
        ),
        LoopKind::Diagram => append_str(
            &mut c,
            "\n\n[Note: Sub-agent delegation is not available. Complete directly or use available tools.]",
        ),
    }
    string_of(&c)
}

/// How a task that the model declared complete is reported: `completed`
/// when it passed its checks, else `completed_invalid`.
pub fn completion_status(passed: bool) -> (r: String)
    ensures
        r@ == if passed { "completed"@ } else { "completed_invalid"@ },
{
    if passed {
        lit("completed")
    } else {
        lit("completed_invalid")
    }
}

/// The error of a task that ran out of turns or time.
pub fn exhausted_error(kind: LoopKind) -> (r: String)
    ensures
        r@ == match kind {
            LoopKind::Coding => "Reached maximum turns without completion"@,
            LoopKind::Diagram => "Reached maximum turns"@,
        },
{
    match kind {
        LoopKind::Coding => lit("Reached maximum turns without completion"),
        LoopKind::Diagram => lit("Reached maximum turns"),
    }
}

} // verus!
