//! How a simulated business day proceeds in the business-operations
//! benchmark: the model is prompted until it ends the day, exhausts the
//! simulator's tool budget, or uses up its prompts, and a day that was not
//! ended is closed.
//!
//! Calling the model and the simulator is the caller's business: it reports
//! each reply and each tool result, and these functions say what happens
//! next.
use vstd::prelude::*;

use crate::text::{append_str, append_vec, chars_of, join, join_vec, lit, str_eq, string_of, views, views_v};

verus! {

/// The message with which the simulator refuses a call over its budget.
pub open spec fn over_budget_message() -> Seq<char> {
    "exceeded max tool calls per turn"@
}

/// The tool that ends a day.
pub open spec fn end_turn_tool() -> Seq<char> {
    "end_turn"@
}

/// The tool calls the simulator allows a day: the scenario's limit, raised
/// to the number of prompts a day may take.
pub fn tool_call_limit(scenario_limit: usize, max_prompts_per_turn: usize) -> (r: usize)
    ensures
        r == if max_prompts_per_turn > scenario_limit { max_prompts_per_turn } else { scenario_limit },
{
    if max_prompts_per_turn > scenario_limit {
        max_prompts_per_turn
    } else {
        scenario_limit
    }
}

/// Where a day stands: the prompts made so far and whether it has ended.
#[derive(Debug, Clone, Copy, PartialEq, Eq, Structural)]
pub struct DayProgress {
    pub prompts: usize,
    pub ended: bool,
}

impl DayProgress {
    pub fn start() -> (r: DayProgress)
        ensures
            r.prompts == 0,
            !r.ended,
    {
        DayProgress { prompts: 0, ended: false }
    }
}

/// The model is prompted again while the day has not ended and fewer than
/// `max(max_prompts_per_turn, 1)` prompts were made.
pub open spec fn prompts_again(p: DayProgress, max_prompts_per_turn: usize) -> bool {
    !p.ended && p.prompts < (if max_prompts_per_turn < 1 { 1 } else { max_prompts_per_turn as int })
}

pub fn day_continues(p: DayProgress, max_prompts_per_turn: usize) -> (r: bool)
    ensures
        r == prompts_again(p, max_prompts_per_turn),
{
    let cap = if max_prompts_per_turn < 1 { 1 } else { max_prompts_per_turn };
    !p.ended && p.prompts < cap
}

/// A reply has come: one more prompt was made.
pub fn after_reply(p: DayProgress) -> (r: DayProgress)
    requires
        p.prompts < usize::MAX,
    ensures
        r == (DayProgress { prompts: (p.prompts + 1) as usize, ..p }),
{
    DayProgress { prompts: p.prompts + 1, ..p }
}

/// What follows one tool call of a reply.
#[derive(Debug, Clone, Copy, PartialEq, Eq, Structural)]
pub struct CallOutcome {
    pub progress: DayProgress,
    /// The simulator refused the call for the day's budget: the day is
    /// closed with an `end_turn` call and a warning is raised.
    pub over_budget: bool,
}

/// A tool call and its result message: an `end_turn` call, or a call over
/// the day's budget, ends the day.
pub open spec fn call_outcome(p: DayProgress, tool: Seq<char>, message: Seq<char>) -> CallOutcome {
    let over = message == over_budget_message();
    CallOutcome { progress: DayProgress { ended: p.ended || tool == end_turn_tool() || over, ..p }, over_budget: over }
}

pub fn after_tool_call(p: DayProgress, tool: &str, message: &str) -> (r: CallOutcome)
    ensures
        r == call_outcome(p, tool@, message@),
{
    let is_end = str_eq("end_turn", &chars_of(tool));
    let over = str_eq("exceeded max tool calls per turn", &chars_of(message));
    CallOutcome { progress: DayProgress { ended: p.ended || is_end || over, ..p }, over_budget: over }
}

/// A reply without tool calls: from the second prompt of the day on, the
/// day is closed with an `end_turn` call.
pub open spec fn closes_idle_day(p: DayProgress) -> bool {
    p.prompts >= 2
}

pub fn after_idle_reply(p: DayProgress) -> (r: (DayProgress, bool))
    ensures
        r.1 == closes_idle_day(p),
        r.0 == (DayProgress { ended: p.ended || closes_idle_day(p), ..p }),
{
    let close = p.prompts >= 2;
    (DayProgress { ended: p.ended || close, ..p }, close)
}

/// A day that the prompts did not end is closed with an `end_turn` call.
pub fn needs_closing(p: DayProgress) -> (r: bool)
    ensures
        r == !p.ended,
{
    !p.ended
}

/// The scenario stops after `max_turns` days even if the simulator goes on.
pub fn stops_after(turn: usize, max_turns: usize) -> (r: bool)
    ensures
        r == (turn >= max_turns),
{
    turn >= max_turns
}

// ---------------------------------------------------------------------------
// Prompts
// ---------------------------------------------------------------------------

pub open spec fn results_heading() -> Seq<char> {
    "\n\n**Results from your previous actions this turn:**\n"@
}

/// What the model is told of its earlier calls today: nothing before the
/// first, else a heading and one line per result.
pub open spec fn observations_text(observations: Seq<Seq<char>>) -> Seq<char> {
    if observations.len() == 0 {
        Seq::empty()
    } else {
        results_heading() + join(observations, "\n"@)
    }
}

pub open spec fn day_instructions() -> Seq<char> {
    "\n\n## CRITICAL INSTRUCTIONS:\nYou are the COO actively running this business.\n\n**YOU MUST USE TOOLS TO TAKE ACTIONS**\n- Do NOT just analyze - call the actual tools\n- Only tool calls affect the simulation\n- When done with actions for this turn, call: end_turn\n\n**EFFICIENCY RULES**\n- You have LIMITED actions per turn (3 max)\n- DO NOT call view_reports - all info is in the state above\n- Take IMMEDIATE action: restock, purchase, or adjust prices\n- Analysis without tool calls is USELESS - ACT instead\n\n**IMPORTANT: THINKING IS NOT ENOUGH**\n- If you think 'I should restock' \u{2192} you MUST call restock_machine tool\n- If you think 'I need to buy inventory' \u{2192} you MUST call purchase_supply tool\n- Reasoning/planning alone does NOTHING - only tool calls work\n\n**Use these tools:**\n- restock_machine: Fill machines from warehouse (if warehouse has stock)\n- purchase_supply: Order from suppliers (takes 5 days to arrive)\n- set_price: Adjust selling prices\n- end_turn: Finish this turn"@
}

/// The context of a prompt: the business state, today's results so far and
/// the standing instructions.
pub open spec fn day_context(state_json: Seq<char>, observations: Seq<Seq<char>>) -> Seq<char> {
    "Current business state:\n"@ + state_json + observations_text(observations) + day_instructions()
}

pub fn build_day_context(state_json: &str, observations: &Vec<String>) -> (r: String)
    ensures
        r@ == day_context(state_json@, views(observations@)),
{
    let mut c = chars_of("Current business state:\n");
    append_str(&mut c, state_json);
    if observations.len() > 0 {
        append_str(&mut c, "\n\n**Results from your previous actions this turn:**\n");
        let mut parts: Vec<Vec<char>> = Vec::new();
        let mut i: usize = 0;
        while i < observations.len()
            invariant
                i <= observations.len(),
                views_v(parts@) =~= views(observations@).take(i as int),
            decreases observations.len() - i,
        {
            let ghost prev = parts@;
            parts.push(chars_of(observations[i].as_str()));
            assert(views_v(parts@) =~= views_v(prev).push(observations@[i as int]@));
            i += 1;
        }
        assert(views(observations@).take(observations.len() as int) =~= views(observations@));
        let joined = join_vec(&parts, &chars_of("\n"));
        append_vec(&mut c, &joined);
    } else {
        assert(observations_text(views(observations@)) =~= Seq::<char>::empty());
    }
    append_str(&mut c, "\n\n## CRITICAL INSTRUCTIONS:\nYou are the COO actively running this business.\n\n**YOU MUST USE TOOLS TO TAKE ACTIONS**\n- Do NOT just analyze - call the actual tools\n- Only tool calls affect the simulation\n- When done with actions for this turn, call: end_turn\n\n**EFFICIENCY RULES**\n- You have LIMITED actions per turn (3 max)\n- DO NOT call view_reports - all info is in the state above\n- Take IMMEDIATE action: restock, purchase, or adjust prices\n- Analysis without tool calls is USELESS - ACT instead\n\n**IMPORTANT: THINKING IS NOT ENOUGH**\n- If you think 'I should restock' \u{2192} you MUST call restock_machine tool\n- If you think 'I need to buy inventory' \u{2192} you MUST call purchase_supply tool\n- Reasoning/planning alone does NOTHING - only tool calls work\n\n**Use these tools:**\n- restock_machine: Fill machines from warehouse (if warehouse has stock)\n- purchase_supply: Order from suppliers (takes 5 days to arrive)\n- set_price: Adjust selling prices\n- end_turn: Finish this turn");
    string_of(&c)
}

/// How a tool call is described in the day's record: `name(args)`.
pub fn call_description(tool: &str, args_json: &str) -> (r: String)
    ensures
        r@ == tool@ + "("@ + args_json@ + ")"@,
{
    let mut d = chars_of(tool);
    append_str(&mut d, "(");
    append_str(&mut d, args_json);
    append_str(&mut d, ")");
    string_of(&d)
}

/// The sample of a run: the first day with tool calls, described and joined
/// by commas.
pub fn sample_of_day(current: Option<String>, day_calls: &Vec<String>) -> (r: Option<String>)
    ensures
        match current {
            Some(c) => r == Some(c),
            None => if day_calls@.len() == 0 {
                r is None
            } else {
                r matches Some(s) && s@ == join(views(day_calls@), ", "@)
            },
        },
{
    match current {
        Some(c) => Some(c),
        None => {
            if day_calls.len() == 0 {
                return None;
            }
            let mut parts: Vec<Vec<char>> = Vec::new();
            let mut i: usize = 0;
            while i < day_calls.len()
                invariant
                    i <= day_calls.len(),
                    views_v(parts@) =~= views(day_calls@).take(i as int),
                decreases day_calls.len() - i,
            {
                let ghost prev = parts@;
                parts.push(chars_of(day_calls[i].as_str()));
                assert(views_v(parts@) =~= views_v(prev).push(day_calls@[i as int]@));
                i += 1;
            }
            assert(views(day_calls@).take(day_calls.len() as int) =~= views(day_calls@));
            Some(string_of(&join_vec(&parts, &chars_of(", "))))
        },
    }
}

/// A day is always ended: once ended it stays so, and a day that goes on
/// makes a prompt each time, so at most `max(max_prompts_per_turn, 1)`
/// prompts are made.
pub proof fn law_day_is_bounded(p: DayProgress, max_prompts_per_turn: usize, tool: Seq<char>, message: Seq<char>)
    ensures
        p.ended ==> call_outcome(p, tool, message).progress.ended,
        p.ended ==> !prompts_again(p, max_prompts_per_turn),
        prompts_again(p, max_prompts_per_turn) ==> p.prompts < (if max_prompts_per_turn < 1 { 1 } else { max_prompts_per_turn as int }),
        tool == end_turn_tool() ==> call_outcome(p, tool, message).progress.ended,
        message == over_budget_message() ==> call_outcome(p, tool, message).progress.ended,
{
}

} // verus!
