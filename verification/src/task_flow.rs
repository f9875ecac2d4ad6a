//! The decisions of the task commands: which provider and model a run uses,
//! when a follow-up message or a plan review note is accepted, and the
//! prompts and records they produce.
//!
//! The database, the event bus and the model calls are the caller's
//! business: the caller performs each step and hands back what it found.
use vstd::prelude::*;

use crate::provider::model_override_spec;
use crate::text::{
    append_str, append_vec, chars_of, join, join_vec, lit, lower, lower_vec, opt_view,
    replace_char, replace_char_vec, string_of, trim, trimmed, views, views_v,
};

verus! {

// ---------------------------------------------------------------------------
// Provider and model
// ---------------------------------------------------------------------------

/// The provider and the requested model of a run: the given provider
/// (MiniMax by default) in ASCII lower case and the given model, unless the
/// agent preset that the prompt names has a model: then that model, and the
/// provider it names, if any.
pub open spec fn run_target(
    provider: Option<Seq<char>>,
    model: Option<Seq<char>>,
    preset_model: Option<Seq<char>>,
) -> (Seq<char>, Option<Seq<char>>) {
    let p = lower(
        match provider {
            Some(p) => p,
            None => "minimax"@,
        },
    );
    match preset_model {
        Some(pm) => if trim(pm).len() > 0 {
            let (po, mo) = model_override_spec(trim(pm));
            (
                match po {
                    Some(x) => x,
                    None => p,
                },
                Some(mo),
            )
        } else {
            (p, model)
        },
        None => (p, model),
    }
}

/// Chooses the provider and requested model of a run; `preset_model` is the
/// model of the agent preset that the prompt names, if one does.
pub fn resolve_run_target(
    provider: Option<String>,
    model: Option<String>,
    preset_model: Option<String>,
) -> (r: (String, Option<String>))
    ensures
        (r.0@, opt_view(r.1)) == run_target(opt_view(provider), opt_view(model), opt_view(preset_model)),
{
    let base = match &provider {
        Some(p) => chars_of(p.as_str()),
        None => chars_of("minimax"),
    };
    let p = string_of(&lower_vec(&base));
    match preset_model {
        Some(pm) => {
            let t = trimmed(pm.as_str());
            if t.len() > 0 {
                let ts = string_of(&t);
                let (po, mo) = crate::provider::parse_model_override(ts.as_str());
                let chosen = match po {
                    Some(x) => x,
                    None => p,
                };
                (chosen, Some(mo))
            } else {
                (p, model)
            }
        },
        None => (p, model),
    }
}

/// The model a run uses: the requested one, else the provider's default.
pub fn effective_model(requested: Option<String>, default_model: Option<String>) -> (r: Option<String>)
    ensures
        opt_view(r) == match opt_view(requested) {
            Some(m) => Some(m),
            None => opt_view(default_model),
        },
{
    match requested {
        Some(m) => Some(m),
        None => default_model,
    }
}

/// The error when a provider has no configuration.
pub fn not_configured_message(provider: &str) -> (r: String)
    ensures
        r@ == provider@ + " not configured. Set provider config in settings or env vars."@,
{
    let mut m = chars_of(provider);
    append_str(&mut m, " not configured. Set provider config in settings or env vars.");
    string_of(&m)
}

/// The error when a task does not exist.
pub fn task_not_found_message(task_id: &str) -> (r: String)
    ensures
        r@ == "task not found: "@ + task_id@,
{
    let mut m = chars_of("task not found: ");
    append_str(&mut m, task_id);
    string_of(&m)
}

// ---------------------------------------------------------------------------
// Follow-up messages
// ---------------------------------------------------------------------------

/// A follow-up message, trimmed; an empty one is refused.
pub open spec fn follow_up_text(message: Seq<char>) -> Result<Seq<char>, Seq<char>> {
    if trim(message).len() == 0 {
        Err("message cannot be empty"@)
    } else {
        Ok(trim(message))
    }
}

pub fn check_follow_up_message(message: &str) -> (r: Result<String, String>)
    ensures
        match follow_up_text(message@) {
            Ok(t) => r matches Ok(x) && x@ == t,
            Err(m) => r matches Err(e) && e@ == m,
        },
{
    let t = trimmed(message);
    if t.len() == 0 {
        return Err(lit("message cannot be empty"));
    }
    Ok(string_of(&t))
}

/// Follow-up messages go only to tasks that have finished.
pub open spec fn accepts_follow_up(status: Seq<char>) -> bool {
    status == "completed"@ || status == "failed"@ || status == "cancelled"@
}

pub fn check_follow_up_status(status: &str) -> (r: Result<(), String>)
    ensures
        accepts_follow_up(status@) <==> r is Ok,
        r matches Err(e) ==> e@ == "can only send follow-up messages to completed, failed, or cancelled tasks (current status: "@
            + status@ + ")"@,
{
    let s = chars_of(status);
    if crate::text::str_eq("completed", &s) || crate::text::str_eq("failed", &s) || crate::text::str_eq("cancelled", &s) {
        return Ok(());
    }
    let mut m = chars_of("can only send follow-up messages to completed, failed, or cancelled tasks (current status: ");
    append_str(&mut m, status);
    append_str(&mut m, ")");
    Err(string_of(&m))
}

pub open spec fn message_pairs(m: Seq<(String, String)>) -> Seq<(Seq<char>, Seq<char>)> {
    Seq::new(m.len(), |i: int| (m[i].0@, m[i].1@))
}

/// The last `n` messages, newest first.
pub open spec fn newest_first(m: Seq<(Seq<char>, Seq<char>)>, n: nat) -> Seq<(Seq<char>, Seq<char>)> {
    let k: nat = if n < m.len() { n } else { m.len() };
    Seq::new(k, |i: int| m[m.len() - 1 - i])
}

/// The messages kept verbatim after compaction: the last `n`, newest first.
pub fn recent_messages_newest_first(messages: &Vec<(String, String)>, n: usize) -> (r: Vec<(String, String)>)
    ensures
        message_pairs(r@) == newest_first(message_pairs(messages@), n as nat),
{
    let ghost mv = message_pairs(messages@);
    let len = messages.len();
    let k = if n < len { n } else { len };
    let mut out: Vec<(String, String)> = Vec::new();
    let mut i: usize = 0;
    while i < k
        invariant
            i <= k,
            k <= len,
            len == messages.len(),
            k == (if n < len { n } else { len }),
            mv == message_pairs(messages@),
            message_pairs(out@) =~= newest_first(mv, n as nat).take(i as int),
        decreases k - i,
    {
        let j = len - 1 - i;
        let pair = (messages[j].0.clone(), messages[j].1.clone());
        let ghost prev = out@;
        out.push(pair);
        assert(newest_first(mv, n as nat)[i as int] == mv[j as int]);
        assert(message_pairs(out@) =~= message_pairs(prev).push(mv[j as int]));
        i += 1;
    }
    assert(newest_first(mv, n as nat).take(k as int) =~= newest_first(mv, n as nat));
    out
}

/// `role: content` lines of a conversation, separated by blank lines.
pub open spec fn history_text(m: Seq<(Seq<char>, Seq<char>)>) -> Seq<char> {
    join(Seq::new(m.len(), |i: int| m[i].0 + ": "@ + m[i].1), "\n\n"@)
}

/// The prompt that continues a task with its whole conversation.
pub open spec fn continue_prompt(task_prompt: Seq<char>, m: Seq<(Seq<char>, Seq<char>)>, message: Seq<char>) -> Seq<char> {
    "## Original Task\n\n"@ + task_prompt + "\n\n## Conversation History\n\n"@ + history_text(m)
        + "\n\n## Current Request\n\n"@ + message
}

pub fn build_continue_prompt(task_prompt: &str, messages: &Vec<(String, String)>, message: &str) -> (r: String)
    ensures
        r@ == continue_prompt(task_prompt@, message_pairs(messages@), message@),
{
    let ghost mv = message_pairs(messages@);
    let mut lines: Vec<Vec<char>> = Vec::new();
    let mut i: usize = 0;
    while i < messages.len()
        invariant
            i <= messages.len(),
            mv == message_pairs(messages@),
            views_v(lines@) =~= Seq::new(mv.len(), |j: int| mv[j].0 + ": "@ + mv[j].1).take(i as int),
        decreases messages.len() - i,
    {
        let mut l = chars_of(messages[i].0.as_str());
        append_str(&mut l, ": ");
        append_str(&mut l, messages[i].1.as_str());
        let ghost prev = lines@;
        lines.push(l);
        assert(views_v(lines@) =~= views_v(prev).push(mv[i as int].0 + ": "@ + mv[i as int].1));
        i += 1;
    }
    assert(Seq::new(mv.len(), |j: int| mv[j].0 + ": "@ + mv[j].1).take(messages.len() as int)
        =~= Seq::new(mv.len(), |j: int| mv[j].0 + ": "@ + mv[j].1));
    let history = join_vec(&lines, &chars_of("\n\n"));
    let mut p = chars_of("## Original Task\n\n");
    append_str(&mut p, task_prompt);
    append_str(&mut p, "\n\n## Conversation History\n\n");
    append_vec(&mut p, &history);
    append_str(&mut p, "\n\n## Current Request\n\n");
    append_str(&mut p, message);
    string_of(&p)
}

/// The model that summarises a long conversation: the configured one, else
/// the run's model.
pub fn compaction_model(configured: Option<String>, run_model: Option<String>) -> (r: Option<String>)
    ensures
        opt_view(r) == match opt_view(configured) {
            Some(m) => Some(m),
            None => opt_view(run_model),
        },
{
    match configured {
        Some(m) => Some(m),
        None => run_model,
    }
}

// ---------------------------------------------------------------------------
// Plan review notes
// ---------------------------------------------------------------------------

/// A plan review note, trimmed; an empty one is refused.
pub open spec fn review_note(note: Seq<char>) -> Result<Seq<char>, Seq<char>> {
    if trim(note).len() == 0 {
        Err("feedback note cannot be empty"@)
    } else {
        Ok(trim(note))
    }
}

pub fn check_review_note(note: &str) -> (r: Result<String, String>)
    ensures
        match review_note(note@) {
            Ok(t) => r matches Ok(x) && x@ == t,
            Err(m) => r matches Err(e) && e@ == m,
        },
{
    let t = trimmed(note);
    if t.len() == 0 {
        return Err(lit("feedback note cannot be empty"));
    }
    Ok(string_of(&t))
}

/// Notes are taken only while the latest run awaits review.
pub fn check_run_awaits_review(run_status: &str) -> (r: Result<(), String>)
    ensures
        (run_status@ == "awaiting_review"@) <==> r is Ok,
        r matches Err(e) ==> e@ == "task is not awaiting review (current status: "@ + run_status@ + ")"@,
{
    if crate::text::str_eq("awaiting_review", &chars_of(run_status)) {
        return Ok(());
    }
    let mut m = chars_of("task is not awaiting review (current status: ");
    append_str(&mut m, run_status);
    append_str(&mut m, ")");
    Err(string_of(&m))
}

/// The heading written when the feedback file is created.
pub fn feedback_header() -> (r: String)
    ensures
        r@ == "# Plan Feedback\n"@,
{
    lit("# Plan Feedback\n")
}

/// The line recorded for a note: its time and the note on one line.
pub fn feedback_line(timestamp: &str, note: &str) -> (r: String)
    ensures
        r@ == "- "@ + timestamp@ + " - "@ + replace_char(note@, '\n', ' '),
{
    let mut l = chars_of("- ");
    append_str(&mut l, timestamp);
    append_str(&mut l, " - ");
    append_vec(&mut l, &replace_char_vec(&chars_of(note), '\n', ' '));
    string_of(&l)
}

/// The prompt that asks for a plan revised by a review note.
pub fn revised_plan_prompt(task_prompt: &str, note: &str) -> (r: String)
    ensures
        r@ == task_prompt@ + "\n\nPlan review feedback to incorporate before implementation:\n- "@ + note@
            + "\n\nRevise the plan so it addresses the review feedback. Return an updated plan."@,
{
    let mut p = chars_of(task_prompt);
    append_str(&mut p, "\n\nPlan review feedback to incorporate before implementation:\n- ");
    append_str(&mut p, note);
    append_str(&mut p, "\n\nRevise the plan so it addresses the review feedback. Return an updated plan.");
    string_of(&p)
}

/// The message shown when a note is recorded.
pub fn note_recorded_message(note: &str) -> (r: String)
    ensures
        r@ == "Plan review note recorded. Revising plan: "@ + note@,
{
    let mut p = chars_of("Plan review note recorded. Revising plan: ");
    append_str(&mut p, note);
    string_of(&p)
}

} // verus!
